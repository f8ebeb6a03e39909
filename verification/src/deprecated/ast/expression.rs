use crate::deprecated::ast::node::{walked, AstNode, Node};
use crate::deprecated::ast::visitor::Visitor;
use vstd::prelude::*;

verus! {

pub enum ExpressionNode {
    /// Test only stuff
    Check(CheckExprNode),
}

/// A node that counts how often a visitor entered and left it.
#[derive(Default)]
pub struct CheckExprNode {
    enter_count: i32,
    leave_count: i32,
}

impl CheckExprNode {
    /// How often the node was entered.
    pub closed spec fn enters(&self) -> int {
        self.enter_count as int
    }

    /// How often the node was left.
    pub closed spec fn leaves(&self) -> int {
        self.leave_count as int
    }

    /// The node with one more entry counted.
    pub closed spec fn entered_once(self) -> CheckExprNode {
        CheckExprNode { enter_count: (self.enter_count + 1) as i32, leave_count: self.leave_count }
    }

    /// The node with one more leave counted.
    pub closed spec fn left_once(self) -> CheckExprNode {
        CheckExprNode { enter_count: self.enter_count, leave_count: (self.leave_count + 1) as i32 }
    }

    /// Counting an entry or a leave raises the one counter by one and
    /// keeps the other.
    pub proof fn lemma_counted_once(self)
        ensures
            self.enters() < i32::MAX ==> self.entered_once().enters() == self.enters() + 1,
            self.entered_once().leaves() == self.leaves(),
            self.leaves() < i32::MAX ==> self.left_once().leaves() == self.leaves() + 1,
            self.left_once().enters() == self.enters(),
    {
    }

    /// A node that was neither entered nor left.
    pub fn new() -> (node: Self)
        ensures
            node.enters() == 0,
            node.leaves() == 0,
    {
        CheckExprNode { enter_count: 0, leave_count: 0 }
    }

    pub fn leave(&mut self)
        requires
            old(self).leaves() < i32::MAX,
        ensures
            *final(self) == old(self).left_once(),
            final(self).leaves() == old(self).leaves() + 1,
            final(self).enters() == old(self).enters(),
    {
        self.leave_count += 1;
    }

    pub fn enter(&mut self)
        requires
            old(self).enters() < i32::MAX,
        ensures
            *final(self) == old(self).entered_once(),
            final(self).enters() == old(self).enters() + 1,
            final(self).leaves() == old(self).leaves(),
    {
        self.enter_count += 1;
    }

    pub fn leave_count(&self) -> (count: i32)
        ensures
            count == self.leaves(),
    {
        self.leave_count
    }

    pub fn enter_count(&self) -> (count: i32)
        ensures
            count == self.enters(),
    {
        self.enter_count
    }

    pub fn reset(&mut self)
        ensures
            final(self).enters() == 0,
            final(self).leaves() == 0,
    {
        self.enter_count = 0;
        self.leave_count = 0;
    }
}

impl<V: Visitor> Node<V> for CheckExprNode {
    fn accept(self, v: &mut V) -> (r: (AstNode, bool))
        ensures
            r == walked(old(v), AstNode::Expression(ExpressionNode::Check(self))),
    {
        let (node, _) = v.enter(AstNode::Expression(ExpressionNode::Check(self)));
        v.leave(node)
    }
}

} // verus!
