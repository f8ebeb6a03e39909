pub mod ddl;
pub mod dml;
pub mod expression;
pub mod misc;
pub mod node;
pub mod operator;
pub mod visitor;
pub mod walk;

pub use ddl::{
    AlterTableStmtNode, ColumnDef, ColumnName, ColumnOption, CreateDatabaseStmtNode,
    CreateIndexStmtNode, CreateTableStmtNode, DatabaseOption, DropDatabaseStmtNode,
    DropIndexStmtNode, DropTableStmtNode, FieldType, TableConstraint, TableName,
    TruncateTableStmtNode,
};
pub use dml::{
    AliasExprField, ByItem, FieldList, GroupByClause, HavingClause, Join, JoinType, Limit,
    OnCondition, OrderByClause, SelectField, SelectStmtNode, TableRef, TableSource, WildCardField,
};
pub use expression::{
    AggregateFunc, AggregateFuncExpr, BetweenExpr, BinaryOperationExpr, CheckExpr, ExpressionNode,
    Func, FuncCallExpr, FuncExpr, ParenthesesExpr, PatternInExpr, UnaryOperationExpr, VariableExpr,
};
pub use misc::{AnalyzeTableStmtNode, ExplainStmtNode};
pub use node::AstNode;
pub use operator::Op;
pub use visitor::{
    check_count, check_count_list, visit, visit_column_option, visit_create_table_stmt, visit_drop_table_stmt, visit_expression,
    visit_expressions, visit_group_or_order_by_item, visit_group_or_order_by_items, visit_limit,
    visit_optional_expression, visit_select_field, visit_select_field_list, visit_select_stmt,
    visit_table_column, visit_table_ref, AstVisitor, CheckVisitor,
};
