pub mod ddl;
pub mod expression;
pub mod node;
pub mod test;
pub mod visitor;

pub use ddl::{
    AlterIndexStmtNode, AlterTableStmtNode, ColumnDef, ColumnName, ColumnOption, ColumnOptionType,
    CreateDatabaseStmtNode, CreateIndexStmtNode, CreateTableStmtNode, DatabaseOption, DefNode,
    DropDatabaseStmtNode, DropIndexStmtNode, DropTableStmtNode, FieldType, IndexOption, IndexType,
    IndexVisibility, OptionNode, TableName,
};
pub use expression::{CheckExprNode, ExpressionNode};
pub use node::{walked, AstNode, Node};
pub use test::CheckVisitor;
pub use visitor::Visitor;
