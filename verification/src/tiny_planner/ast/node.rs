use crate::tiny_planner::ast::ddl::{
    AlterTableStmtNode, CreateDatabaseStmtNode, CreateIndexStmtNode, CreateTableStmtNode,
    DropDatabaseStmtNode, DropIndexStmtNode, DropTableStmtNode, TruncateTableStmtNode,
};
use crate::tiny_planner::ast::dml::SelectStmtNode;
use crate::tiny_planner::ast::expression::ExpressionNode;
use vstd::prelude::*;

verus! {

pub enum AstNode {
    CreateDatabaseStmt(CreateDatabaseStmtNode),
    DropDatabaseStmt(DropDatabaseStmtNode),
    CreateTableStmt(CreateTableStmtNode),
    DropTableStmt(DropTableStmtNode),
    AlterTableStmt(AlterTableStmtNode),
    TruncateTableStmt(TruncateTableStmtNode),
    CreateIndexStmt(CreateIndexStmtNode),
    DropIndexStmt(DropIndexStmtNode),
    Expression(ExpressionNode),
    SelectStmt(SelectStmtNode),
}

} // verus!
