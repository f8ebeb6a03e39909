use crate::deprecated::ast::expression::{CheckExprNode, ExpressionNode};
use crate::deprecated::ast::node::AstNode;
use crate::deprecated::ast::visitor::Visitor;
use vstd::prelude::*;

verus! {

/// A visitor that counts in the check nodes that it meets: one more
/// entry on entering, one more leave on leaving. A counter that is full
/// stays as it is.
pub struct CheckVisitor {}

impl CheckVisitor {
    /// What the visitor makes of a node on entering (`entering`) or
    /// leaving it: a check node with one more entry or leave counted,
    /// every other node as it is.
    pub open spec fn stepped(node: AstNode, entering: bool) -> AstNode {
        match node {
            AstNode::Expression(ExpressionNode::Check(e)) => {
                if entering && e.enters() < i32::MAX {
                    AstNode::Expression(ExpressionNode::Check(e.entered_once()))
                } else if !entering && e.leaves() < i32::MAX {
                    AstNode::Expression(ExpressionNode::Check(e.left_once()))
                } else {
                    node
                }
            },
            _ => node,
        }
    }
}

impl Visitor for CheckVisitor {
    /// The children of a check node are skipped; the search goes on below
    /// every other node.
    open spec fn entered(&self, node: AstNode) -> (AstNode, bool) {
        (Self::stepped(node, true), node is Expression)
    }

    /// Leaving a node stops the visit.
    open spec fn left(&self, node: AstNode) -> (AstNode, bool) {
        (Self::stepped(node, false), true)
    }

    fn enter(&self, node: AstNode) -> (r: (AstNode, bool)) {
        match node {
            AstNode::Expression(ExpressionNode::Check(mut e)) => {
                if e.enter_count() < i32::MAX {
                    e.enter();
                }
                // skip the children
                (AstNode::Expression(ExpressionNode::Check(e)), true)
            },
            // keep searching
            other => (other, false),
        }
    }

    fn leave(&self, node: AstNode) -> (r: (AstNode, bool)) {
        let after = match node {
            AstNode::Expression(ExpressionNode::Check(mut e)) => {
                if e.leave_count() < i32::MAX {
                    e.leave();
                }
                AstNode::Expression(ExpressionNode::Check(e))
            },
            other => other,
        };
        // stop the visit
        (after, true)
    }
}

} // verus!
