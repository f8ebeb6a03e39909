use crate::deprecated::ast::expression::ExpressionNode;
use crate::deprecated::ast::node::{walked, AstNode, Node};
use crate::deprecated::ast::visitor::Visitor;
use vstd::prelude::*;

verus! {

#[derive(Default)]
pub struct DatabaseOption {
    option_type: i32,
    value: String,
}

/// Statement which creates a database
#[derive(Default)]
pub struct CreateDatabaseStmtNode {
    if_not_exists: bool,
    name: String,
    options: Vec<DatabaseOption>,
}

impl<V: Visitor> Node<V> for CreateDatabaseStmtNode {
    fn accept(self, v: &mut V) -> (r: (AstNode, bool))
        ensures
            r == walked(old(v), AstNode::CreateDatabaseStmt(self)),
    {
        let (node, _) = v.enter(AstNode::CreateDatabaseStmt(self));
        v.leave(node)
    }
}

/// Statement which drops a database and all tables in the database
#[derive(Default)]
pub struct DropDatabaseStmtNode {
    if_exists: bool,
    name: String,
}

impl<V: Visitor> Node<V> for DropDatabaseStmtNode {
    fn accept(self, v: &mut V) -> (r: (AstNode, bool))
        ensures
            r == walked(old(v), AstNode::DropDatabaseStmt(self)),
    {
        let (node, _) = v.enter(AstNode::DropDatabaseStmt(self));
        v.leave(node)
    }
}

pub struct CreateTableStmtNode {
    if_not_exists: bool,
    is_temporary: bool,
    table: TableName,
    refer_table: TableName,
}

pub struct AlterTableStmtNode {}

pub struct DropTableStmtNode {}

pub struct CreateIndexStmtNode {}

pub struct AlterIndexStmtNode {}

pub struct DropIndexStmtNode {}

pub enum OptionNode {
    Index(IndexOption),
    Column(ColumnOption),
}

impl<V: Visitor> Node<V> for OptionNode {
    fn accept(self, v: &mut V) -> (r: (AstNode, bool))
        ensures
            r == walked(old(v), AstNode::Option(self)),
    {
        match self {
            OptionNode::Index(o) => o.accept(v),
            OptionNode::Column(o) => o.accept(v),
        }
    }
}

pub enum DefNode {
    Column(ColumnDef),
}

///////////////////////// misc
pub struct FieldType {}

pub struct TableName {
    schema: String,
    name: String,
    partitions: Vec<String>,
}

pub struct ColumnName {
    schema: String,
    table: String,
    name: String,
}

pub struct ColumnDef {
    name: TableName,
    field_type: FieldType,
    options: Vec<ColumnOption>,
}

impl<V: Visitor> Node<V> for ColumnDef {
    fn accept(self, v: &mut V) -> (r: (AstNode, bool))
        ensures
            r == walked(old(v), AstNode::Def(DefNode::Column(self))),
    {
        let (node, _) = v.enter(AstNode::Def(DefNode::Column(self)));
        v.leave(node)
    }
}

#[derive(Clone, Copy, Debug)]
pub enum IndexType {
    Invalid,
    BTree,
    Hash,
    RTree,
}

impl IndexType {
    /// The keyword of the index type; empty for `Invalid`.
    pub open spec fn keyword(self) -> Seq<char> {
        match self {
            IndexType::Invalid => ""@,
            IndexType::BTree => "BTREE"@,
            IndexType::Hash => "HASH"@,
            IndexType::RTree => "RTREE"@,
        }
    }

    /// The keyword of the index type, as a string.
    pub fn into_string(self) -> (s: String)
        ensures
            s@ == self.keyword(),
    {
        match self {
            IndexType::Invalid => "".to_owned(),
            IndexType::BTree => "BTREE".to_owned(),
            IndexType::Hash => "HASH".to_owned(),
            IndexType::RTree => "RTREE".to_owned(),
        }
    }
}

pub enum IndexVisibility {
    Default,
    Visible,
    Invisible,
}

/// IndexOption is the index options.
///
///     KEY_BLOCK_SIZE [=] value
/// |   index_type
/// |   WITH PARSER parser_name
/// |   COMMENT 'string'
pub struct IndexOption {
    key_block_size: u64,
    index_type: IndexType,
    comment: String,
    parser_name: String,
    visibility: IndexVisibility,
}

impl<V: Visitor> Node<V> for IndexOption {
    fn accept(self, v: &mut V) -> (r: (AstNode, bool))
        ensures
            r == walked(old(v), AstNode::Option(OptionNode::Index(self))),
    {
        let (node, _) = v.enter(AstNode::Option(OptionNode::Index(self)));
        v.leave(node)
    }
}

pub enum ColumnOptionType {
    NoOption,
    PrimaryKey,
    NotNull,
    AutoIncrement,
    DefaultValue,
    UniqKey,
    Null,
    OnUpdate,
    FullText,
    Comment,
    Generated,
    Reference,
    Collate,
    Check,
    ColumnFormat,
    Storage,
    AutoRandom,
}

pub struct ColumnOption {
    option_type: ColumnOptionType,
    expression: ExpressionNode,
    stored: bool,
    value: String,
    auto_random_bit_length: i32,
    enforced: bool,
}

impl<V: Visitor> Node<V> for ColumnOption {
    fn accept(self, v: &mut V) -> (r: (AstNode, bool))
        ensures
            r == walked(old(v), AstNode::Option(OptionNode::Column(self))),
    {
        let (node, _) = v.enter(AstNode::Option(OptionNode::Column(self)));
        v.leave(node)
    }
}

} // verus!
