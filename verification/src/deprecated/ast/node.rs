use crate::deprecated::ast::ddl::{
    AlterIndexStmtNode, AlterTableStmtNode, CreateDatabaseStmtNode, CreateIndexStmtNode,
    CreateTableStmtNode, DefNode, DropDatabaseStmtNode, DropIndexStmtNode, DropTableStmtNode,
    OptionNode,
};
use crate::deprecated::ast::expression::ExpressionNode;
use crate::deprecated::ast::visitor::Visitor;
use vstd::prelude::*;

verus! {

/// What a visit makes of a node: the visitor enters it and then leaves
/// what entering gave. The flag is the one that leaving gives: whether to
/// stop.
pub open spec fn walked<V: Visitor>(v: &V, node: AstNode) -> (AstNode, bool) {
    v.left(v.entered(node).0)
}

pub trait Node<V: Visitor> {
    /// Accepts a visitor to visit itself.
    /// The returned node should replace the node that accepted. It also returns whether to stop visiting
    /// or not. It's actually modifying the node(actually a tree) according to the visitor.
    fn accept(self, v: &mut V) -> (r: (AstNode, bool))
        ensures
            *final(v) == *old(v),
    ;
}

pub enum AstNode {
    /// DDL
    CreateDatabaseStmt(CreateDatabaseStmtNode),
    DropDatabaseStmt(DropDatabaseStmtNode),
    CreateTableStmt(CreateTableStmtNode),
    AlterTableStmt(AlterTableStmtNode),
    DropTableStmt(DropTableStmtNode),
    CreateIndexStmt(CreateIndexStmtNode),
    AlterIndexStmt(AlterIndexStmtNode),
    DropIndexStmt(DropIndexStmtNode),
    /// DDL misc
    Option(OptionNode),
    Def(DefNode),
    Expression(ExpressionNode),
}

impl<V: Visitor> Node<V> for AstNode {
    fn accept(self, v: &mut V) -> (r: (AstNode, bool))
        ensures
            r == walked(old(v), self),
    {
        let (node, _) = v.enter(self);
        v.leave(node)
    }
}

} // verus!
