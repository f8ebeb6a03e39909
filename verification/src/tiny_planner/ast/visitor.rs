use crate::common::error::RustubError;
use crate::tiny_planner::ast::ddl::{
    AlterTableStmtNode, ColumnDef, ColumnName, ColumnOption, CreateDatabaseStmtNode,
    CreateIndexStmtNode, CreateTableStmtNode, DropDatabaseStmtNode, DropIndexStmtNode,
    DropTableStmtNode, TableConstraint, TableName, TruncateTableStmtNode,
};
use crate::tiny_planner::ast::dml::{
    ByItem, FieldList, GroupByClause, HavingClause, Limit, OnCondition, OrderByClause,
    SelectField, SelectStmtNode, TableRef, WildCardField,
};
use crate::tiny_planner::ast::node::AstNode;
use crate::tiny_planner::ast::expression::{CheckExpr, ExpressionNode, FuncExpr};
use crate::tiny_planner::ast::walk::{
    chain, column_left, column_left_of, column_outcome, column_step, constraint_left,
    constraint_step, create_table_left, create_table_outcome, create_table_state,
    drop_table_left, drop_table_outcome, expression_left, expression_outcome, expressions_left,
    expressions_reached, field_left, field_left_of, field_outcome, field_step, if_reached,
    item_left, item_step, lemma_failed_expressions_stay, lemma_failed_stays, lemma_success,
    limit_left, limit_outcome, list_left, name_left, name_step, node_left, node_outcome,
    option_left, option_left_of, option_outcome, option_step, optional_left, optional_outcome,
    reached, select_left, select_outcome, select_state, table_ref_left, table_ref_outcome,
};
use vstd::prelude::*;
use vstd::std_specs::vec::axiom_vec_index_decreases;

verus! {

/// Whether a plain visitor gets through an expression: it stops at the
/// placeholders `Values` and `ColumnName`, which have no content to visit,
/// and at a check expression whose counter is full.
pub open spec fn visitable(e: ExpressionNode) -> bool
    decreases e,
{
    match e {
        ExpressionNode::Between(b) => visitable(*b.expr) && visitable(*b.left) && visitable(
            *b.right,
        ),
        ExpressionNode::BinaryOperation(b) => visitable(*b.left) && visitable(*b.right),
        ExpressionNode::Parentheses(p) => visitable(*p.expr),
        ExpressionNode::PatternIn(p) => visitable(*p.expr) && forall|i: int|
            0 <= i < p.list@.len() ==> visitable(#[trigger] p.list@[i]),
        ExpressionNode::UnaryOperation(u) => visitable(*u.expr),
        ExpressionNode::Values => false,
        ExpressionNode::Variable(x) => visitable(*x.value),
        ExpressionNode::ColumnName => false,
        ExpressionNode::Func(FuncExpr::FuncCall(f)) => forall|i: int|
            0 <= i < f.args@.len() ==> visitable(#[trigger] f.args@[i]),
        ExpressionNode::Func(FuncExpr::AggregateFunc(f)) => forall|i: int|
            0 <= i < f.args@.len() ==> visitable(#[trigger] f.args@[i]),
        ExpressionNode::Check(c) => c.count < u32::MAX,
    }
}

/// What a plain visitor leaves of an expression: the same expression,
/// with the counter of every check expression in it one higher.
pub open spec fn visited(before: ExpressionNode, after: ExpressionNode) -> bool
    decreases before,
{
    match (before, after) {
        (ExpressionNode::Between(a), ExpressionNode::Between(b)) => {
            &&& visited(*a.expr, *b.expr)
            &&& visited(*a.left, *b.left)
            &&& visited(*a.right, *b.right)
            &&& a.not == b.not
        },
        (ExpressionNode::BinaryOperation(a), ExpressionNode::BinaryOperation(b)) => {
            &&& a.op == b.op
            &&& visited(*a.left, *b.left)
            &&& visited(*a.right, *b.right)
        },
        (ExpressionNode::Parentheses(a), ExpressionNode::Parentheses(b)) => visited(
            *a.expr,
            *b.expr,
        ),
        (ExpressionNode::PatternIn(a), ExpressionNode::PatternIn(b)) => {
            &&& visited(*a.expr, *b.expr)
            &&& a.not == b.not
            &&& a.list@.len() == b.list@.len()
            &&& forall|i: int|
                0 <= i < a.list@.len() ==> visited(#[trigger] a.list@[i], b.list@[i])
        },
        (ExpressionNode::UnaryOperation(a), ExpressionNode::UnaryOperation(b)) => {
            &&& a.op == b.op
            &&& visited(*a.expr, *b.expr)
        },
        (ExpressionNode::Variable(a), ExpressionNode::Variable(b)) => {
            &&& a.name == b.name
            &&& a.is_global == b.is_global
            &&& a.is_system == b.is_system
            &&& visited(*a.value, *b.value)
        },
        (
            ExpressionNode::Func(FuncExpr::FuncCall(a)),
            ExpressionNode::Func(FuncExpr::FuncCall(b)),
        ) => {
            &&& a.func == b.func
            &&& a.args@.len() == b.args@.len()
            &&& forall|i: int|
                0 <= i < a.args@.len() ==> visited(#[trigger] a.args@[i], b.args@[i])
        },
        (
            ExpressionNode::Func(FuncExpr::AggregateFunc(a)),
            ExpressionNode::Func(FuncExpr::AggregateFunc(b)),
        ) => {
            &&& a.func == b.func
            &&& a.args@.len() == b.args@.len()
            &&& forall|i: int|
                0 <= i < a.args@.len() ==> visited(#[trigger] a.args@[i], b.args@[i])
        },
        (ExpressionNode::Check(a), ExpressionNode::Check(b)) => b.count == a.count + 1,
        _ => false,
    }
}

/// Whether a plain visitor gets through every expression of a list.
pub open spec fn all_visitable(list: Seq<ExpressionNode>) -> bool {
    forall|i: int| 0 <= i < list.len() ==> visitable(#[trigger] list[i])
}

/// What a plain visitor leaves of a list of expressions.
pub open spec fn all_visited(before: Seq<ExpressionNode>, after: Seq<ExpressionNode>) -> bool {
    &&& before.len() == after.len()
    &&& forall|i: int| 0 <= i < before.len() ==> visited(#[trigger] before[i], after[i])
}

/// What a traversal by a plain visitor promises: it succeeds exactly where
/// it gets through, and then it leaves what `done` describes.
pub open spec fn plainly(
    plain_before: bool,
    plain_after: bool,
    r: Result<(), RustubError>,
    passable: bool,
    done: bool,
) -> bool {
    plain_before ==> plain_after && (r is Ok <==> passable) && (r is Ok ==> done)
}

/// A visitor of syntax trees. The functions of this module walk a tree
/// and call the visitor at the nodes that this trait names; what the
/// visitor does there is its own business, and it says so in the spec
/// functions of the trait: each gives, for a visitor and a node as they
/// are before the call, the visitor after it, the node after it (where
/// the visitor may change the node) and the result. The walks are stated
/// over these functions.
///
/// A visitor that changes nothing but the counters of check expressions,
/// and refuses the statements that have no content yet, is called plain.
pub trait AstVisitor: Sized {
    /// Whether the visitor is plain. A visitor is taken to have ways of
    /// its own unless it says that it is plain.
    open spec fn is_plain(&self) -> bool {
        false
    }

    /// What the visitor makes of a create database statement. A visitor of which nothing is
    /// to be proved leaves this undefined.
    open spec fn create_database_seen(&self, node: CreateDatabaseStmtNode) -> (Self, Result<(), RustubError>) {
        arbitrary()
    }

    /// What the visitor makes of a drop database statement. A visitor of which nothing is
    /// to be proved leaves this undefined.
    open spec fn drop_database_seen(&self, node: DropDatabaseStmtNode) -> (Self, Result<(), RustubError>) {
        arbitrary()
    }

    /// What the visitor makes of a table name. A visitor of which nothing is
    /// to be proved leaves this undefined.
    open spec fn table_name_seen(&self, name: TableName) -> (Self, TableName, Result<(), RustubError>) {
        arbitrary()
    }

    /// What the visitor makes of a column name. A visitor of which nothing is
    /// to be proved leaves this undefined.
    open spec fn column_name_seen(&self, col: ColumnName) -> (Self, Result<(), RustubError>) {
        arbitrary()
    }

    /// What the visitor makes of a table constraint. A visitor of which nothing is
    /// to be proved leaves this undefined.
    open spec fn table_constraint_seen(&self, constraint: TableConstraint) -> (Self, TableConstraint, Result<(), RustubError>) {
        arbitrary()
    }

    /// What the visitor makes of an alter table statement. A visitor of which nothing is
    /// to be proved leaves this undefined.
    open spec fn alter_table_seen(&self, stmt: AlterTableStmtNode) -> (Self, AlterTableStmtNode, Result<(), RustubError>) {
        arbitrary()
    }

    /// What the visitor makes of a truncate table statement. A visitor of which nothing is
    /// to be proved leaves this undefined.
    open spec fn truncate_table_seen(&self, stmt: TruncateTableStmtNode) -> (Self, TruncateTableStmtNode, Result<(), RustubError>) {
        arbitrary()
    }

    /// What the visitor makes of a create index statement. A visitor of which nothing is
    /// to be proved leaves this undefined.
    open spec fn create_index_seen(&self, stmt: CreateIndexStmtNode) -> (Self, CreateIndexStmtNode, Result<(), RustubError>) {
        arbitrary()
    }

    /// What the visitor makes of a drop index statement. A visitor of which nothing is
    /// to be proved leaves this undefined.
    open spec fn drop_index_seen(&self, stmt: DropIndexStmtNode) -> (Self, DropIndexStmtNode, Result<(), RustubError>) {
        arbitrary()
    }

    /// What the visitor makes of a check expression. A visitor of which nothing is
    /// to be proved leaves this undefined.
    open spec fn check_seen(&self, check: CheckExpr) -> (Self, CheckExpr, Result<(), RustubError>) {
        arbitrary()
    }

    /// What the visitor makes of a wildcard field. A visitor of which nothing is
    /// to be proved leaves this undefined.
    open spec fn wildcard_seen(&self, field: WildCardField) -> (Self, WildCardField, Result<(), RustubError>) {
        arbitrary()
    }

    /// Called at a create database statement.
    fn visit_create_database_stmt(&mut self, node: &CreateDatabaseStmtNode) -> (r: Result<(), RustubError>)
        ensures
            (*final(self), r) == old(self).create_database_seen(*node),
            plainly(old(self).is_plain(), final(self).is_plain(), r, true, true),
    ;

    /// Called at a drop database statement.
    fn visit_drop_database_stmt(&mut self, node: &DropDatabaseStmtNode) -> (r: Result<(), RustubError>)
        ensures
            (*final(self), r) == old(self).drop_database_seen(*node),
            plainly(old(self).is_plain(), final(self).is_plain(), r, true, true),
    ;

    /// Called at every table name. A plain visitor passes it by: it succeeds
    /// and touches neither the name nor itself.
    fn visit_table_name(&mut self, name: &mut TableName) -> (r: Result<(), RustubError>)
        ensures
            (*final(self), *final(name), r) == old(self).table_name_seen(*old(name)),
            plainly(
                old(self).is_plain(),
                final(self).is_plain(),
                r,
                true,
                *final(name) == *old(name),
            ),
            old(self).is_plain() ==> *final(self) == *old(self),
    ;

    /// Called at the name of every column definition.
    fn visit_column_name(&mut self, col: &ColumnName) -> (r: Result<(), RustubError>)
        ensures
            (*final(self), r) == old(self).column_name_seen(*col),
            plainly(old(self).is_plain(), final(self).is_plain(), r, true, true),
    ;

    /// Called at every constraint of a create table statement.
    fn visit_table_constraint(&mut self, constraint: &mut TableConstraint) -> (r: Result<(), RustubError>)
        ensures
            (*final(self), *final(constraint), r) == old(self).table_constraint_seen(*old(constraint)),
            plainly(
                old(self).is_plain(),
                final(self).is_plain(),
                r,
                true,
                *final(constraint) == *old(constraint),
            ),
    ;

    /// Called at an alter table statement. A plain visitor refuses the
    /// statement, which has no content yet: it says which statement is not
    /// implemented and touches neither the statement nor itself.
    fn visit_alter_table_stmt(&mut self, stmt: &mut AlterTableStmtNode) -> (r: Result<(), RustubError>)
        ensures
            (*final(self), *final(stmt), r) == old(self).alter_table_seen(*old(stmt)),
            plainly(old(self).is_plain(), final(self).is_plain(), r, false, true),
            old(self).is_plain() ==> {
                &&& r == Err::<(), RustubError>(RustubError::UnimplementedError("alter table statement"))
                &&& *final(stmt) == *old(stmt)
                &&& *final(self) == *old(self)
            },
    ;

    /// Called at a truncate table statement. A plain visitor refuses the
    /// statement, which has no content yet: it says which statement is not
    /// implemented and touches neither the statement nor itself.
    fn visit_truncate_table_stmt(&mut self, stmt: &mut TruncateTableStmtNode) -> (r: Result<(), RustubError>)
        ensures
            (*final(self), *final(stmt), r) == old(self).truncate_table_seen(*old(stmt)),
            plainly(old(self).is_plain(), final(self).is_plain(), r, false, true),
            old(self).is_plain() ==> {
                &&& r == Err::<(), RustubError>(RustubError::UnimplementedError("truncate table statement"))
                &&& *final(stmt) == *old(stmt)
                &&& *final(self) == *old(self)
            },
    ;

    /// Called at a create index statement. A plain visitor refuses the
    /// statement, which has no content yet: it says which statement is not
    /// implemented and touches neither the statement nor itself.
    fn visit_create_index_stmt(&mut self, stmt: &mut CreateIndexStmtNode) -> (r: Result<(), RustubError>)
        ensures
            (*final(self), *final(stmt), r) == old(self).create_index_seen(*old(stmt)),
            plainly(old(self).is_plain(), final(self).is_plain(), r, false, true),
            old(self).is_plain() ==> {
                &&& r == Err::<(), RustubError>(RustubError::UnimplementedError("create index statement"))
                &&& *final(stmt) == *old(stmt)
                &&& *final(self) == *old(self)
            },
    ;

    /// Called at a drop index statement. A plain visitor refuses the
    /// statement, which has no content yet: it says which statement is not
    /// implemented and touches neither the statement nor itself.
    fn visit_drop_index_stmt(&mut self, stmt: &mut DropIndexStmtNode) -> (r: Result<(), RustubError>)
        ensures
            (*final(self), *final(stmt), r) == old(self).drop_index_seen(*old(stmt)),
            plainly(old(self).is_plain(), final(self).is_plain(), r, false, true),
            old(self).is_plain() ==> {
                &&& r == Err::<(), RustubError>(RustubError::UnimplementedError("drop index statement"))
                &&& *final(stmt) == *old(stmt)
                &&& *final(self) == *old(self)
            },
    ;

    /// Called at every check expression. A plain visitor counts the visit in
    /// the expression, and fails where the counter is full.
    fn visit_check_expr(&mut self, check: &mut CheckExpr) -> (r: Result<(), RustubError>)
        ensures
            (*final(self), *final(check), r) == old(self).check_seen(*old(check)),
            plainly(
                old(self).is_plain(),
                final(self).is_plain(),
                r,
                old(check).count < u32::MAX,
                final(check).count == old(check).count + 1,
            ),
    ;

    /// Called at every wildcard field of a select statement.
    fn visit_select_wildcard_field(&mut self, field: &mut WildCardField) -> (r: Result<(), RustubError>)
        ensures
            (*final(self), *final(field), r) == old(self).wildcard_seen(*old(field)),
            plainly(
                old(self).is_plain(),
                final(self).is_plain(),
                r,
                true,
                *final(field) == *old(field),
            ),
    ;
}

/// The plain visitor.
pub struct CheckVisitor {}

impl AstVisitor for CheckVisitor {
    open spec fn is_plain(&self) -> bool {
        true
    }

    open spec fn create_database_seen(&self, node: CreateDatabaseStmtNode) -> (Self, Result<(), RustubError>) {
        (*self, Ok(()))
    }

    open spec fn drop_database_seen(&self, node: DropDatabaseStmtNode) -> (Self, Result<(), RustubError>) {
        (*self, Ok(()))
    }

    open spec fn table_name_seen(&self, name: TableName) -> (Self, TableName, Result<(), RustubError>) {
        (*self, name, Ok(()))
    }

    open spec fn column_name_seen(&self, col: ColumnName) -> (Self, Result<(), RustubError>) {
        (*self, Ok(()))
    }

    open spec fn table_constraint_seen(&self, constraint: TableConstraint) -> (Self, TableConstraint, Result<(), RustubError>) {
        (*self, constraint, Ok(()))
    }

    open spec fn alter_table_seen(&self, stmt: AlterTableStmtNode) -> (Self, AlterTableStmtNode, Result<(), RustubError>) {
        (*self, stmt, Err(RustubError::UnimplementedError("alter table statement")))
    }

    open spec fn truncate_table_seen(&self, stmt: TruncateTableStmtNode) -> (Self, TruncateTableStmtNode, Result<(), RustubError>) {
        (*self, stmt, Err(RustubError::UnimplementedError("truncate table statement")))
    }

    open spec fn create_index_seen(&self, stmt: CreateIndexStmtNode) -> (Self, CreateIndexStmtNode, Result<(), RustubError>) {
        (*self, stmt, Err(RustubError::UnimplementedError("create index statement")))
    }

    open spec fn drop_index_seen(&self, stmt: DropIndexStmtNode) -> (Self, DropIndexStmtNode, Result<(), RustubError>) {
        (*self, stmt, Err(RustubError::UnimplementedError("drop index statement")))
    }

    open spec fn check_seen(&self, check: CheckExpr) -> (Self, CheckExpr, Result<(), RustubError>) {
        if check.count < u32::MAX {
            (*self, CheckExpr { count: (check.count + 1) as u32 }, Ok(()))
        } else {
            (
                *self,
                check,
                Err(RustubError::AstNodeVisitError("the counter of a check expression is full")),
            )
        }
    }

    open spec fn wildcard_seen(&self, field: WildCardField) -> (Self, WildCardField, Result<(), RustubError>) {
        (*self, field, Ok(()))
    }

    fn visit_create_database_stmt(&mut self, node: &CreateDatabaseStmtNode) -> (r: Result<(), RustubError>) {
        Ok(())
    }

    fn visit_drop_database_stmt(&mut self, node: &DropDatabaseStmtNode) -> (r: Result<(), RustubError>) {
        Ok(())
    }

    fn visit_table_name(&mut self, name: &mut TableName) -> (r: Result<(), RustubError>) {
        Ok(())
    }

    fn visit_column_name(&mut self, col: &ColumnName) -> (r: Result<(), RustubError>) {
        Ok(())
    }

    fn visit_table_constraint(&mut self, constraint: &mut TableConstraint) -> (r: Result<(), RustubError>) {
        Ok(())
    }

    fn visit_alter_table_stmt(&mut self, stmt: &mut AlterTableStmtNode) -> (r: Result<(), RustubError>) {
        Err(RustubError::UnimplementedError("alter table statement"))
    }

    fn visit_truncate_table_stmt(&mut self, stmt: &mut TruncateTableStmtNode) -> (r: Result<(), RustubError>) {
        Err(RustubError::UnimplementedError("truncate table statement"))
    }

    fn visit_create_index_stmt(&mut self, stmt: &mut CreateIndexStmtNode) -> (r: Result<(), RustubError>) {
        Err(RustubError::UnimplementedError("create index statement"))
    }

    fn visit_drop_index_stmt(&mut self, stmt: &mut DropIndexStmtNode) -> (r: Result<(), RustubError>) {
        Err(RustubError::UnimplementedError("drop index statement"))
    }

    fn visit_check_expr(&mut self, check: &mut CheckExpr) -> (r: Result<(), RustubError>) {
        if check.count < u32::MAX {
            check.increment();
            Ok(())
        } else {
            Err(RustubError::AstNodeVisitError("the counter of a check expression is full"))
        }
    }

    fn visit_select_wildcard_field(&mut self, field: &mut WildCardField) -> (r: Result<(), RustubError>) {
        Ok(())
    }
}

/// Walks an expression: first the node's operands from left to right,
/// each with all that is below it. The walk ends at the first failure.
pub fn visit_expression<V: AstVisitor>(v: &mut V, exp: &mut ExpressionNode) -> (r: Result<
    (),
    RustubError,
>)
    ensures
        (*final(v), r) == expression_outcome(*old(v), *old(exp)),
        expression_left(*old(v), *old(exp), *final(exp)),
        plainly(
            old(v).is_plain(),
            final(v).is_plain(),
            r,
            visitable(*old(exp)),
            visited(*old(exp), *final(exp)),
        ),
    decreases *old(exp),
{
    match exp {
        ExpressionNode::Between(e) => {
            let first = visit_expression(v, &mut e.expr);
            if first.is_err() {
                return first;
            }
            let second = visit_expression(v, &mut e.left);
            if second.is_err() {
                return second;
            }
            visit_expression(v, &mut e.right)
        },
        ExpressionNode::BinaryOperation(e) => {
            let first = visit_expression(v, &mut e.left);
            if first.is_err() {
                return first;
            }
            visit_expression(v, &mut e.right)
        },
        ExpressionNode::Parentheses(e) => visit_expression(v, &mut e.expr),
        ExpressionNode::PatternIn(e) => {
            let first = visit_expression(v, &mut e.expr);
            if first.is_err() {
                return first;
            }
            visit_expressions(v, &mut e.list)
        },
        ExpressionNode::UnaryOperation(e) => visit_expression(v, &mut e.expr),
        ExpressionNode::Values => Err(RustubError::UnimplementedError("values expression")),
        ExpressionNode::Variable(e) => visit_expression(v, &mut e.value),
        ExpressionNode::ColumnName => Err(
            RustubError::UnimplementedError("column name expression"),
        ),
        ExpressionNode::Func(f) => match f {
            FuncExpr::FuncCall(call) => visit_expressions(v, &mut call.args),
            FuncExpr::AggregateFunc(call) => visit_expressions(v, &mut call.args),
        },
        ExpressionNode::Check(c) => v.visit_check_expr(c),
    }
}

/// Walks the expressions of a list in order, up to the first failure.
pub fn visit_expressions<V: AstVisitor>(v: &mut V, list: &mut Vec<ExpressionNode>) -> (r: Result<
    (),
    RustubError,
>)
    ensures
        (*final(v), r) == expressions_reached(*old(v), *old(list), old(list)@.len()),
        expressions_left(*old(v), *old(list), final(list)@),
        plainly(
            old(v).is_plain(),
            final(v).is_plain(),
            r,
            all_visitable(old(list)@),
            all_visited(old(list)@, final(list)@),
        ),
    decreases *old(list),
{
    let ghost plain = v.is_plain();
    let ghost before = list@;
    let ghost start = *v;
    let ghost whole = *list;
    let n = list.len();
    let mut i: usize = 0;
    while i < n
        invariant
            i <= n,
            n == list@.len(),
            before == old(list)@,
            before == whole@,
            n == before.len(),
            plain == old(v).is_plain(),
            plain ==> v.is_plain(),
            plain ==> forall|k: int| 0 <= k < i ==> visitable(#[trigger] before[k]) && visited(
                before[k],
                list@[k],
            ),
            forall|k: int| i <= k < n ==> list@[k] == before[k],
            expressions_reached(start, whole, i as nat) == (*v, Ok::<(), RustubError>(())),
            start == *old(v),
            whole == *old(list),
            forall|k: int|
                0 <= k < i ==> if_reached(
                    expressions_reached(start, whole, k as nat),
                    expression_left(
                        expressions_reached(start, whole, k as nat).0,
                        before[k],
                        #[trigger] list@[k],
                    ),
                    list@[k] == before[k],
                ),
        decreases n - i,
    {
        proof {
            axiom_vec_index_decreases(*old(list), i as int);
        }
        let ghost list_before = list@;
        let ghost came = *v;
        let step = visit_expression(v, &mut list[i]);
        proof {
            assert(forall|k: int| 0 <= k < n && k != i ==> list@[k] == list_before[k]);
            assert(list_before[i as int] == whole@[i as int]);
            assert(expressions_reached(start, whole, (i + 1) as nat) == chain(
                expressions_reached(start, whole, i as nat),
                expression_outcome(came, whole@[i as int]),
            ));
            assert(expression_left(came, before[i as int], list@[i as int]));
            lemma_success(step);
            assert forall|k: int| 0 <= k <= i implies if_reached(
                expressions_reached(start, whole, k as nat),
                expression_left(
                    expressions_reached(start, whole, k as nat).0,
                    before[k],
                    #[trigger] list@[k],
                ),
                list@[k] == before[k],
            ) by {
                if k < i {
                    assert(list@[k] == list_before[k]);
                }
            }
        }
        if step.is_err() {
            proof {
                lemma_failed_expressions_stay(start, whole, (i + 1) as nat, n as nat);
                assert forall|k: int| i < k < n implies #[trigger] list@[k] == before[k]
                    && expressions_reached(start, whole, k as nat).1 is Err by {
                    lemma_failed_expressions_stay(start, whole, (i + 1) as nat, k as nat);
                }
            }
            return step;
        }
        i += 1;
    }
    Ok(())
}

/// The expression that a column option carries, if it carries one.
pub open spec fn option_expression(option: ColumnOption) -> Option<ExpressionNode> {
    match option {
        ColumnOption::DefaultValue(e) => Some(e),
        ColumnOption::OnUpdate(e) => Some(e),
        ColumnOption::Generated(e) => Some(e),
        _ => None,
    }
}

/// Whether a plain visitor gets through a column option.
pub open spec fn option_visitable(option: ColumnOption) -> bool {
    option_expression(option) matches Some(e) ==> visitable(e)
}

/// What a plain visitor leaves of a column option: the option, its
/// expression visited.
pub open spec fn option_visited(before: ColumnOption, after: ColumnOption) -> bool {
    match (before, after) {
        (ColumnOption::DefaultValue(a), ColumnOption::DefaultValue(b)) => visited(a, b),
        (ColumnOption::OnUpdate(a), ColumnOption::OnUpdate(b)) => visited(a, b),
        (ColumnOption::Generated(a), ColumnOption::Generated(b)) => visited(a, b),
        _ => option_expression(before) is None && after == before,
    }
}

/// Whether a plain visitor gets through a column definition.
pub open spec fn column_visitable(column: ColumnDef) -> bool {
    forall|i: int| 0 <= i < column.options@.len() ==> option_visitable(#[trigger] column.options@[i])
}

/// What a plain visitor leaves of a column definition.
pub open spec fn column_visited(before: ColumnDef, after: ColumnDef) -> bool {
    &&& after.name == before.name
    &&& after.field_type == before.field_type
    &&& after.options@.len() == before.options@.len()
    &&& forall|i: int|
        0 <= i < before.options@.len() ==> option_visited(
            #[trigger] before.options@[i],
            after.options@[i],
        )
}

/// Whether a plain visitor gets through a create table statement.
pub open spec fn create_table_visitable(stmt: CreateTableStmtNode) -> bool {
    forall|i: int| 0 <= i < stmt.columns@.len() ==> column_visitable(#[trigger] stmt.columns@[i])
}

/// What a plain visitor leaves of a create table statement.
pub open spec fn create_table_visited(before: CreateTableStmtNode, after: CreateTableStmtNode) -> bool {
    &&& after.if_not_exists == before.if_not_exists
    &&& after.is_temporary == before.is_temporary
    &&& after.table == before.table
    &&& after.refer_table == before.refer_table
    &&& after.constraints@ == before.constraints@
    &&& after.columns@.len() == before.columns@.len()
    &&& forall|i: int|
        0 <= i < before.columns@.len() ==> column_visited(
            #[trigger] before.columns@[i],
            after.columns@[i],
        )
}

/// Walks a column option: the expression of a default value, of an update
/// rule or of a generated column.
pub fn visit_column_option<V: AstVisitor>(v: &mut V, opt: &mut ColumnOption) -> (r: Result<
    (),
    RustubError,
>)
    ensures
        (*final(v), r) == option_outcome(*old(v), *old(opt)),
        option_left(*old(v), *old(opt), *final(opt)),
        plainly(
            old(v).is_plain(),
            final(v).is_plain(),
            r,
            option_visitable(*old(opt)),
            option_visited(*old(opt), *final(opt)),
        ),
{
    match opt {
        ColumnOption::DefaultValue(e) => visit_expression(v, e),
        ColumnOption::OnUpdate(e) => visit_expression(v, e),
        ColumnOption::Generated(e) => visit_expression(v, e),
        _ => Ok(()),
    }
}

/// Walks a column definition: the visitor is called at its name, then the
/// options are walked in order.
pub fn visit_table_column<V: AstVisitor>(v: &mut V, col: &mut ColumnDef) -> (r: Result<
    (),
    RustubError,
>)
    ensures
        (*final(v), r) == column_outcome(*old(v), *old(col)),
        column_left(*old(v), *old(col), *final(col)),
        plainly(
            old(v).is_plain(),
            final(v).is_plain(),
            r,
            column_visitable(*old(col)),
            column_visited(*old(col), *final(col)),
        ),
{
    let ghost plain = v.is_plain();
    let named = v.visit_column_name(&col.name);
    if named.is_err() {
        return named;
    }
    proof {
        lemma_success(named);
    }
    let ghost start = *v;
    let ghost before = col.options@;
    let n = col.options.len();
    let mut i: usize = 0;
    while i < n
        invariant
            i <= n,
            n == col.options@.len(),
            n == before.len(),
            col.name == old(col).name,
            col.field_type == old(col).field_type,
            before == old(col).options@,
            (start, Ok::<(), RustubError>(())) == old(v).column_name_seen(old(col).name),
            plain == old(v).is_plain(),
            plain ==> v.is_plain(),
            plain ==> forall|k: int|
                0 <= k < i ==> option_visitable(#[trigger] old(col).options@[k]) && option_visited(
                    old(col).options@[k],
                    col.options@[k],
                ),
            forall|k: int| i <= k < n ==> col.options@[k] == before[k],
            reached(start, before, i as nat, option_step::<V>()) == (*v, Ok::<(), RustubError>(())),
            forall|k: int|
                0 <= k < i ==> if_reached(
                    reached(start, before, k as nat, option_step::<V>()),
                    option_left_of::<V>()(
                        reached(start, before, k as nat, option_step::<V>()).0,
                        before[k],
                        #[trigger] col.options@[k],
                    ),
                    col.options@[k] == before[k],
                ),
        decreases n - i,
    {
        let ghost list_before = col.options@;
        let ghost came = *v;
        let step = visit_column_option(v, &mut col.options[i]);
        proof {
            assert(forall|k: int| 0 <= k < n && k != i ==> col.options@[k] == list_before[k]);
            assert(reached(start, before, (i + 1) as nat, option_step::<V>()) == chain(
                reached(start, before, i as nat, option_step::<V>()),
                option_step::<V>()(came, before[i as int]),
            ));
            lemma_success(step);
            assert forall|k: int| 0 <= k <= i implies if_reached(
                reached(start, before, k as nat, option_step::<V>()),
                option_left_of::<V>()(
                    reached(start, before, k as nat, option_step::<V>()).0,
                    before[k],
                    #[trigger] col.options@[k],
                ),
                col.options@[k] == before[k],
            ) by {
                if k < i {
                    assert(col.options@[k] == list_before[k]);
                }
            }
        }
        if step.is_err() {
            proof {
                lemma_failed_stays(start, before, (i + 1) as nat, n as nat, option_step::<V>());
                assert forall|k: int| i < k < n implies #[trigger] col.options@[k] == before[k]
                    && reached(start, before, k as nat, option_step::<V>()).1 is Err by {
                    lemma_failed_stays(start, before, (i + 1) as nat, k as nat, option_step::<V>());
                }
            }
            return step;
        }
        i += 1;
    }
    Ok(())
}

/// Walks a create table statement: the visitor is called at the table
/// name and at the name of the table that the statement refers to, then
/// the columns are walked and the visitor is called at the constraints,
/// all in that order.
pub fn visit_create_table_stmt<V: AstVisitor>(v: &mut V, node: &mut CreateTableStmtNode) -> (r:
    Result<(), RustubError>)
    ensures
        (*final(v), r) == create_table_outcome(*old(v), *old(node)),
        create_table_left(*old(v), *old(node), *final(node)),
        plainly(
            old(v).is_plain(),
            final(v).is_plain(),
            r,
            create_table_visitable(*old(node)),
            create_table_visited(*old(node), *final(node)),
        ),
{
    let ghost plain = v.is_plain();
    proof {
        reveal_with_fuel(create_table_state, 5);
    }
    let named = v.visit_table_name(&mut node.table);
    if named.is_err() {
        return named;
    }
    proof {
        lemma_success(named);
    }
    if let Some(n) = &mut node.refer_table {
        let referred = v.visit_table_name(n);
        if referred.is_err() {
            return referred;
        }
        proof {
            lemma_success(referred);
        }
    }
    let ghost start = *v;
    let ghost before = node.columns@;
    let columns = node.columns.len();
    let mut i: usize = 0;
    while i < columns
        invariant
            i <= columns,
            columns == node.columns@.len(),
            columns == before.len(),
            node.if_not_exists == old(node).if_not_exists,
            node.is_temporary == old(node).is_temporary,
            create_table_state(*old(v), *old(node), 1).1 is Ok,
            name_left::<V>()(*old(v), old(node).table, node.table),
            match (old(node).refer_table, node.refer_table) {
                (Some(a), Some(b)) => name_left::<V>()(
                    create_table_state(*old(v), *old(node), 1).0,
                    a,
                    b,
                ),
                (None, None) => true,
                _ => false,
            },
            plain ==> node.table == old(node).table && node.refer_table == old(node).refer_table,
            node.constraints == old(node).constraints,
            before == old(node).columns@,
            create_table_state(*old(v), *old(node), 2) == (start, Ok::<(), RustubError>(())),
            plain == old(v).is_plain(),
            plain ==> v.is_plain(),
            plain ==> forall|k: int|
                0 <= k < i ==> column_visitable(#[trigger] old(node).columns@[k])
                    && column_visited(old(node).columns@[k], node.columns@[k]),
            forall|k: int| i <= k < columns ==> node.columns@[k] == before[k],
            reached(start, before, i as nat, column_step::<V>()) == (*v, Ok::<(), RustubError>(())),
            forall|k: int|
                0 <= k < i ==> if_reached(
                    reached(start, before, k as nat, column_step::<V>()),
                    column_left_of::<V>()(
                        reached(start, before, k as nat, column_step::<V>()).0,
                        before[k],
                        #[trigger] node.columns@[k],
                    ),
                    node.columns@[k] == before[k],
                ),
        decreases columns - i,
    {
        let ghost list_before = node.columns@;
        let ghost came = *v;
        let step = visit_table_column(v, &mut node.columns[i]);
        proof {
            assert(forall|k: int| 0 <= k < columns && k != i ==> node.columns@[k] == list_before[k]);
            assert(reached(start, before, (i + 1) as nat, column_step::<V>()) == chain(
                reached(start, before, i as nat, column_step::<V>()),
                column_step::<V>()(came, before[i as int]),
            ));
            lemma_success(step);
            assert forall|k: int| 0 <= k <= i implies if_reached(
                reached(start, before, k as nat, column_step::<V>()),
                column_left_of::<V>()(
                    reached(start, before, k as nat, column_step::<V>()).0,
                    before[k],
                    #[trigger] node.columns@[k],
                ),
                node.columns@[k] == before[k],
            ) by {
                if k < i {
                    assert(node.columns@[k] == list_before[k]);
                }
            }
        }
        if step.is_err() {
            proof {
                lemma_failed_stays(start, before, (i + 1) as nat, columns as nat, column_step::<V>());
                assert forall|k: int| i < k < columns implies #[trigger] node.columns@[k] == before[k]
                    && reached(start, before, k as nat, column_step::<V>()).1 is Err by {
                    lemma_failed_stays(start, before, (i + 1) as nat, k as nat, column_step::<V>());
                }
                reveal_with_fuel(create_table_state, 5);
            }
            return step;
        }
        i += 1;
    }
    let ghost start2 = *v;
    let ghost before2 = node.constraints@;
    let constraints = node.constraints.len();
    let mut j: usize = 0;
    while j < constraints
        invariant
            j <= constraints,
            constraints == node.constraints@.len(),
            constraints == before2.len(),
            node.if_not_exists == old(node).if_not_exists,
            node.is_temporary == old(node).is_temporary,
            create_table_state(*old(v), *old(node), 1).1 is Ok,
            name_left::<V>()(*old(v), old(node).table, node.table),
            match (old(node).refer_table, node.refer_table) {
                (Some(a), Some(b)) => name_left::<V>()(
                    create_table_state(*old(v), *old(node), 1).0,
                    a,
                    b,
                ),
                (None, None) => true,
                _ => false,
            },
            plain ==> node.table == old(node).table && node.refer_table == old(node).refer_table,
            node.columns@.len() == old(node).columns@.len(),
            before2 == old(node).constraints@,
            create_table_state(*old(v), *old(node), 2).1 is Ok,
            create_table_state(*old(v), *old(node), 3) == (start2, Ok::<(), RustubError>(())),
            list_left(
                create_table_state(*old(v), *old(node), 2).0,
                old(node).columns@,
                node.columns@,
                column_step::<V>(),
                column_left_of::<V>(),
            ),
            plain == old(v).is_plain(),
            plain ==> v.is_plain(),
            plain ==> create_table_visitable(*old(node)),
            plain ==> forall|k: int|
                0 <= k < node.columns@.len() ==> column_visited(
                    #[trigger] old(node).columns@[k],
                    node.columns@[k],
                ),
            plain ==> node.constraints@ =~= old(node).constraints@,
            forall|k: int| j <= k < constraints ==> node.constraints@[k] == before2[k],
            reached(start2, before2, j as nat, constraint_step::<V>()) == (*v, Ok::<(), RustubError>(())),
            forall|k: int|
                0 <= k < j ==> if_reached(
                    reached(start2, before2, k as nat, constraint_step::<V>()),
                    constraint_left::<V>()(
                        reached(start2, before2, k as nat, constraint_step::<V>()).0,
                        before2[k],
                        #[trigger] node.constraints@[k],
                    ),
                    node.constraints@[k] == before2[k],
                ),
        decreases constraints - j,
    {
        let ghost list_before = node.constraints@;
        let ghost came = *v;
        let step = v.visit_table_constraint(&mut node.constraints[j]);
        proof {
            assert(forall|k: int| 0 <= k < constraints && k != j ==> node.constraints@[k] == list_before[k]);
            assert(reached(start2, before2, (j + 1) as nat, constraint_step::<V>()) == chain(
                reached(start2, before2, j as nat, constraint_step::<V>()),
                constraint_step::<V>()(came, before2[j as int]),
            ));
            lemma_success(step);
            assert forall|k: int| 0 <= k <= j implies if_reached(
                reached(start2, before2, k as nat, constraint_step::<V>()),
                constraint_left::<V>()(
                    reached(start2, before2, k as nat, constraint_step::<V>()).0,
                    before2[k],
                    #[trigger] node.constraints@[k],
                ),
                node.constraints@[k] == before2[k],
            ) by {
                if k < j {
                    assert(node.constraints@[k] == list_before[k]);
                }
            }
        }
        if step.is_err() {
            proof {
                lemma_failed_stays(start2, before2, (j + 1) as nat, constraints as nat, constraint_step::<V>());
                assert forall|k: int| j < k < constraints implies #[trigger] node.constraints@[k] == before2[k]
                    && reached(start2, before2, k as nat, constraint_step::<V>()).1 is Err by {
                    lemma_failed_stays(start2, before2, (j + 1) as nat, k as nat, constraint_step::<V>());
                }
                reveal_with_fuel(create_table_state, 5);
            }
            return step;
        }
        j += 1;
    }
    proof {
        reveal_with_fuel(create_table_state, 5);
    }
    Ok(())
}

/// Walks a drop table statement: the visitor is called at the names of
/// its tables in order, up to the first at which it fails. Nothing but
/// the names is handed to the visitor.
pub fn visit_drop_table_stmt<V: AstVisitor>(v: &mut V, stmt: &mut DropTableStmtNode) -> (r: Result<
    (),
    RustubError,
>)
    ensures
        (*final(v), r) == drop_table_outcome(*old(v), *old(stmt)),
        drop_table_left(*old(v), *old(stmt), *final(stmt)),
        plainly(
            old(v).is_plain(),
            final(v).is_plain(),
            r,
            true,
            final(stmt).tables@ == old(stmt).tables@,
        ),
        old(v).is_plain() ==> *final(v) == *old(v),
        old(stmt).tables@.len() == 0 ==> r is Ok && *final(v) == *old(v),
        final(stmt).tables@.len() == old(stmt).tables@.len(),
        final(stmt).if_exists == old(stmt).if_exists,
        final(stmt).is_view == old(stmt).is_view,
        final(stmt).is_temporary == old(stmt).is_temporary,
{
    let ghost plain = v.is_plain();
    let ghost start = *v;
    let ghost before = stmt.tables@;
    let n = stmt.tables.len();
    let mut i: usize = 0;
    while i < n
        invariant
            i <= n,
            n == stmt.tables@.len(),
            n == before.len(),
            start == *old(v),
            before == old(stmt).tables@,
            stmt.if_exists == old(stmt).if_exists,
            stmt.is_view == old(stmt).is_view,
            stmt.is_temporary == old(stmt).is_temporary,
            plain || i == 0 ==> *v == *old(v),
            plain == old(v).is_plain(),
            plain ==> v.is_plain(),
            plain ==> stmt.tables@ =~= old(stmt).tables@,
            forall|k: int| i <= k < n ==> stmt.tables@[k] == before[k],
            reached(start, before, i as nat, name_step::<V>()) == (*v, Ok::<(), RustubError>(())),
            forall|k: int|
                0 <= k < i ==> if_reached(
                    reached(start, before, k as nat, name_step::<V>()),
                    name_left::<V>()(
                        reached(start, before, k as nat, name_step::<V>()).0,
                        before[k],
                        #[trigger] stmt.tables@[k],
                    ),
                    stmt.tables@[k] == before[k],
                ),
        decreases n - i,
    {
        let ghost list_before = stmt.tables@;
        let ghost came = *v;
        let step = v.visit_table_name(&mut stmt.tables[i]);
        proof {
            assert(forall|k: int| 0 <= k < n && k != i ==> stmt.tables@[k] == list_before[k]);
            assert(reached(start, before, (i + 1) as nat, name_step::<V>()) == chain(
                reached(start, before, i as nat, name_step::<V>()),
                name_step::<V>()(came, before[i as int]),
            ));
            lemma_success(step);
            assert forall|k: int| 0 <= k <= i implies if_reached(
                reached(start, before, k as nat, name_step::<V>()),
                name_left::<V>()(
                    reached(start, before, k as nat, name_step::<V>()).0,
                    before[k],
                    #[trigger] stmt.tables@[k],
                ),
                stmt.tables@[k] == before[k],
            ) by {
                if k < i {
                    assert(stmt.tables@[k] == list_before[k]);
                }
            }
        }
        if step.is_err() {
            proof {
                lemma_failed_stays(start, before, (i + 1) as nat, n as nat, name_step::<V>());
                assert forall|k: int| i < k < n implies #[trigger] stmt.tables@[k] == before[k]
                    && reached(start, before, k as nat, name_step::<V>()).1 is Err by {
                    lemma_failed_stays(start, before, (i + 1) as nat, k as nat, name_step::<V>());
                }
            }
            return step;
        }
        i += 1;
    }
    Ok(())
}

/// Whether a plain visitor gets through an expression that may be absent.
pub open spec fn optional_visitable(e: Option<ExpressionNode>) -> bool {
    e matches Some(x) ==> visitable(x)
}

/// What a plain visitor leaves of an expression that may be absent.
pub open spec fn optional_visited(before: Option<ExpressionNode>, after: Option<ExpressionNode>) -> bool {
    match (before, after) {
        (Some(a), Some(b)) => visited(a, b),
        (None, None) => true,
        _ => false,
    }
}

/// Whether a plain visitor gets through the items of a group-by or
/// order-by clause.
pub open spec fn items_visitable(items: Seq<ByItem>) -> bool {
    forall|i: int| 0 <= i < items.len() ==> visitable((#[trigger] items[i]).expr)
}

/// What a plain visitor leaves of the items of a group-by or order-by clause.
pub open spec fn items_visited(before: Seq<ByItem>, after: Seq<ByItem>) -> bool {
    &&& before.len() == after.len()
    &&& forall|i: int|
        0 <= i < before.len() ==> visited((#[trigger] before[i]).expr, after[i].expr) && before[i].desc
            == after[i].desc
}

/// Whether a plain visitor gets through an optional list of items.
pub open spec fn optional_items_visitable(items: Option<Seq<ByItem>>) -> bool {
    items matches Some(list) ==> items_visitable(list)
}

/// What a plain visitor leaves of an optional list of items.
pub open spec fn optional_items_visited(
    before: Option<Seq<ByItem>>,
    after: Option<Seq<ByItem>>,
) -> bool {
    match (before, after) {
        (Some(a), Some(b)) => items_visited(a, b),
        (None, None) => true,
        _ => false,
    }
}

/// Whether a plain visitor gets through a select field.
pub open spec fn field_visitable(field: SelectField) -> bool {
    field matches SelectField::AliasExpr(a) ==> visitable(a.expr)
}

/// What a plain visitor leaves of a select field.
pub open spec fn field_visited(before: SelectField, after: SelectField) -> bool {
    match (before, after) {
        (SelectField::WildCard(a), SelectField::WildCard(b)) => a == b,
        (SelectField::AliasExpr(a), SelectField::AliasExpr(b)) => visited(a.expr, b.expr)
            && a.as_name == b.as_name,
        _ => false,
    }
}

/// Whether a plain visitor gets through a list of select fields.
pub open spec fn fields_visitable(fields: Seq<SelectField>) -> bool {
    forall|i: int| 0 <= i < fields.len() ==> field_visitable(#[trigger] fields[i])
}

/// What a plain visitor leaves of a list of select fields.
pub open spec fn fields_visited(before: Seq<SelectField>, after: Seq<SelectField>) -> bool {
    &&& before.len() == after.len()
    &&& forall|i: int| 0 <= i < before.len() ==> field_visited(#[trigger] before[i], after[i])
}

/// Whether a plain visitor gets through a limit clause.
pub open spec fn limit_visitable(limit: Option<Limit>) -> bool {
    limit matches Some(l) ==> optional_visitable(l.count) && optional_visitable(l.offset)
}

/// What a plain visitor leaves of a limit clause.
pub open spec fn limit_visited(before: Option<Limit>, after: Option<Limit>) -> bool {
    match (before, after) {
        (Some(a), Some(b)) => optional_visited(a.count, b.count) && optional_visited(
            a.offset,
            b.offset,
        ),
        (None, None) => true,
        _ => false,
    }
}

/// The items of a group-by clause that may be absent.
pub open spec fn group_items(clause: Option<GroupByClause>) -> Option<Seq<ByItem>> {
    match clause {
        Some(g) => Some(g.items@),
        None => None,
    }
}

/// The items of an order-by clause that may be absent.
pub open spec fn order_items(clause: Option<OrderByClause>) -> Option<Seq<ByItem>> {
    match clause {
        Some(o) => Some(o.items@),
        None => None,
    }
}

/// The expression of a having clause that may be absent.
pub open spec fn having_expression(clause: Option<HavingClause>) -> Option<ExpressionNode> {
    match clause {
        Some(h) => Some(h.expr),
        None => None,
    }
}

/// The expression of a join condition that may be absent.
pub open spec fn on_expression(clause: Option<OnCondition>) -> Option<ExpressionNode> {
    match clause {
        Some(o) => Some(o.expr),
        None => None,
    }
}

/// Whether a plain visitor gets through a select statement.
pub open spec fn select_visitable(stmt: SelectStmtNode) -> bool
    decreases stmt,
{
    &&& fields_visitable(stmt.fields.fields@)
    &&& table_ref_visitable(*stmt.from)
    &&& optional_visitable(stmt.whe)
    &&& optional_items_visitable(
        group_items(stmt.group_by),
    )
    &&& optional_visitable(
        having_expression(stmt.having),
    )
    &&& optional_items_visitable(
        order_items(stmt.order_by),
    )
    &&& limit_visitable(stmt.limit)
}

/// Whether a plain visitor gets through a table reference.
pub open spec fn table_ref_visitable(table: TableRef) -> bool
    decreases table,
{
    match table {
        TableRef::SelectStmt(s) => select_visitable(s),
        TableRef::TableSource(s) => table_ref_visitable(*s.source),
        TableRef::TableName(_) => true,
        TableRef::Join(j) => {
            &&& table_ref_visitable(*j.left)
            &&& table_ref_visitable(*j.right)
            &&& optional_visitable(
                on_expression(j.on),
            )
        },
    }
}

/// What a plain visitor leaves of a select statement.
pub open spec fn select_visited(before: SelectStmtNode, after: SelectStmtNode) -> bool
    decreases before,
{
    &&& before.distinct == after.distinct
    &&& fields_visited(before.fields.fields@, after.fields.fields@)
    &&& table_ref_visited(*before.from, *after.from)
    &&& optional_visited(before.whe, after.whe)
    &&& optional_items_visited(
        group_items(before.group_by),
        group_items(after.group_by),
    )
    &&& optional_visited(
        having_expression(before.having),
        having_expression(after.having),
    )
    &&& optional_items_visited(
        order_items(before.order_by),
        order_items(after.order_by),
    )
    &&& limit_visited(before.limit, after.limit)
}

/// What a plain visitor leaves of a table reference.
pub open spec fn table_ref_visited(before: TableRef, after: TableRef) -> bool
    decreases before,
{
    match (before, after) {
        (TableRef::SelectStmt(a), TableRef::SelectStmt(b)) => select_visited(a, b),
        (TableRef::TableSource(a), TableRef::TableSource(b)) => table_ref_visited(
            *a.source,
            *b.source,
        ) && a.as_name == b.as_name,
        (TableRef::TableName(a), TableRef::TableName(b)) => a == b,
        (TableRef::Join(a), TableRef::Join(b)) => {
            &&& table_ref_visited(*a.left, *b.left)
            &&& table_ref_visited(*a.right, *b.right)
            &&& a.join_type == b.join_type
            &&& optional_visited(
                on_expression(a.on),
                on_expression(b.on),
            )
        },
        _ => false,
    }
}

/// Walks an expression that may be absent.
pub fn visit_optional_expression<V: AstVisitor>(
    v: &mut V,
    exp: &mut Option<ExpressionNode>,
) -> (r: Result<(), RustubError>)
    ensures
        (*final(v), r) == optional_outcome(*old(v), *old(exp)),
        optional_left(*old(v), *old(exp), *final(exp)),
        plainly(
            old(v).is_plain(),
            final(v).is_plain(),
            r,
            optional_visitable(*old(exp)),
            optional_visited(*old(exp), *final(exp)),
        ),
{
    match exp {
        Some(e) => visit_expression(v, e),
        None => Ok(()),
    }
}

/// Walks the items of a group-by or order-by clause in order, up to the
/// first failure.
pub fn visit_group_or_order_by_items<V: AstVisitor>(v: &mut V, items: &mut Vec<ByItem>) -> (r:
    Result<(), RustubError>)
    ensures
        (*final(v), r) == reached(*old(v), old(items)@, old(items)@.len(), item_step::<V>()),
        list_left(*old(v), old(items)@, final(items)@, item_step::<V>(), item_left::<V>()),
        plainly(
            old(v).is_plain(),
            final(v).is_plain(),
            r,
            items_visitable(old(items)@),
            items_visited(old(items)@, final(items)@),
        ),
{
    let ghost plain = v.is_plain();
    let ghost start = *v;
    let ghost before = items@;
    let n = items.len();
    let mut i: usize = 0;
    while i < n
        invariant
            i <= n,
            n == items@.len(),
            n == before.len(),
            start == *old(v),
            before == old(items)@,
            plain == old(v).is_plain(),
            plain ==> v.is_plain(),
            plain ==> forall|k: int|
                0 <= k < i ==> visitable((#[trigger] old(items)@[k]).expr) && visited(
                    old(items)@[k].expr,
                    items@[k].expr,
                ) && old(items)@[k].desc == items@[k].desc,
            forall|k: int| i <= k < n ==> items@[k] == before[k],
            reached(start, before, i as nat, item_step::<V>()) == (*v, Ok::<(), RustubError>(())),
            forall|k: int|
                0 <= k < i ==> if_reached(
                    reached(start, before, k as nat, item_step::<V>()),
                    item_left::<V>()(
                        reached(start, before, k as nat, item_step::<V>()).0,
                        before[k],
                        #[trigger] items@[k],
                    ),
                    items@[k] == before[k],
                ),
        decreases n - i,
    {
        let ghost list_before = items@;
        let ghost came = *v;
        let step = visit_group_or_order_by_item(v, &mut items[i]);
        proof {
            assert(forall|k: int| 0 <= k < n && k != i ==> items@[k] == list_before[k]);
            assert(reached(start, before, (i + 1) as nat, item_step::<V>()) == chain(
                reached(start, before, i as nat, item_step::<V>()),
                item_step::<V>()(came, before[i as int]),
            ));
            lemma_success(step);
            assert forall|k: int| 0 <= k <= i implies if_reached(
                reached(start, before, k as nat, item_step::<V>()),
                item_left::<V>()(
                    reached(start, before, k as nat, item_step::<V>()).0,
                    before[k],
                    #[trigger] items@[k],
                ),
                items@[k] == before[k],
            ) by {
                if k < i {
                    assert(items@[k] == list_before[k]);
                }
            }
        }
        if step.is_err() {
            proof {
                lemma_failed_stays(start, before, (i + 1) as nat, n as nat, item_step::<V>());
                assert forall|k: int| i < k < n implies #[trigger] items@[k] == before[k]
                    && reached(start, before, k as nat, item_step::<V>()).1 is Err by {
                    lemma_failed_stays(start, before, (i + 1) as nat, k as nat, item_step::<V>());
                }
            }
            return step;
        }
        i += 1;
    }
    Ok(())
}

/// Walks the expression of one item of a group-by or order-by clause.
pub fn visit_group_or_order_by_item<V: AstVisitor>(v: &mut V, item: &mut ByItem) -> (r: Result<
    (),
    RustubError,
>)
    ensures
        (*final(v), r) == expression_outcome(*old(v), old(item).expr),
        expression_left(*old(v), old(item).expr, final(item).expr),
        final(item).desc == old(item).desc,
        plainly(
            old(v).is_plain(),
            final(v).is_plain(),
            r,
            visitable(old(item).expr),
            visited(old(item).expr, final(item).expr),
        ),
{
    visit_expression(v, &mut item.expr)
}

/// Walks a select field: the visitor is called at a wildcard; the
/// expression behind an alias is walked.
pub fn visit_select_field<V: AstVisitor>(v: &mut V, field: &mut SelectField) -> (r: Result<
    (),
    RustubError,
>)
    ensures
        (*final(v), r) == field_outcome(*old(v), *old(field)),
        field_left(*old(v), *old(field), *final(field)),
        plainly(
            old(v).is_plain(),
            final(v).is_plain(),
            r,
            field_visitable(*old(field)),
            field_visited(*old(field), *final(field)),
        ),
{
    match field {
        SelectField::WildCard(w) => v.visit_select_wildcard_field(w),
        SelectField::AliasExpr(e) => visit_expression(v, &mut e.expr),
    }
}

/// Walks the fields of a select statement in order, up to the first
/// failure.
pub fn visit_select_field_list<V: AstVisitor>(v: &mut V, fields: &mut FieldList) -> (r: Result<
    (),
    RustubError,
>)
    ensures
        (*final(v), r) == reached(
            *old(v),
            old(fields).fields@,
            old(fields).fields@.len(),
            field_step::<V>(),
        ),
        list_left(
            *old(v),
            old(fields).fields@,
            final(fields).fields@,
            field_step::<V>(),
            field_left_of::<V>(),
        ),
        plainly(
            old(v).is_plain(),
            final(v).is_plain(),
            r,
            fields_visitable(old(fields).fields@),
            fields_visited(old(fields).fields@, final(fields).fields@),
        ),
{
    let ghost plain = v.is_plain();
    let ghost start = *v;
    let ghost before = fields.fields@;
    let n = fields.fields.len();
    let mut i: usize = 0;
    while i < n
        invariant
            i <= n,
            n == fields.fields@.len(),
            n == before.len(),
            start == *old(v),
            before == old(fields).fields@,
            plain == old(v).is_plain(),
            plain ==> v.is_plain(),
            plain ==> forall|k: int|
                0 <= k < i ==> field_visitable(#[trigger] old(fields).fields@[k]) && field_visited(
                    old(fields).fields@[k],
                    fields.fields@[k],
                ),
            forall|k: int| i <= k < n ==> fields.fields@[k] == before[k],
            reached(start, before, i as nat, field_step::<V>()) == (*v, Ok::<(), RustubError>(())),
            forall|k: int|
                0 <= k < i ==> if_reached(
                    reached(start, before, k as nat, field_step::<V>()),
                    field_left_of::<V>()(
                        reached(start, before, k as nat, field_step::<V>()).0,
                        before[k],
                        #[trigger] fields.fields@[k],
                    ),
                    fields.fields@[k] == before[k],
                ),
        decreases n - i,
    {
        let ghost list_before = fields.fields@;
        let ghost came = *v;
        let step = visit_select_field(v, &mut fields.fields[i]);
        proof {
            assert(forall|k: int| 0 <= k < n && k != i ==> fields.fields@[k] == list_before[k]);
            assert(reached(start, before, (i + 1) as nat, field_step::<V>()) == chain(
                reached(start, before, i as nat, field_step::<V>()),
                field_step::<V>()(came, before[i as int]),
            ));
            lemma_success(step);
            assert forall|k: int| 0 <= k <= i implies if_reached(
                reached(start, before, k as nat, field_step::<V>()),
                field_left_of::<V>()(
                    reached(start, before, k as nat, field_step::<V>()).0,
                    before[k],
                    #[trigger] fields.fields@[k],
                ),
                fields.fields@[k] == before[k],
            ) by {
                if k < i {
                    assert(fields.fields@[k] == list_before[k]);
                }
            }
        }
        if step.is_err() {
            proof {
                lemma_failed_stays(start, before, (i + 1) as nat, n as nat, field_step::<V>());
                assert forall|k: int| i < k < n implies #[trigger] fields.fields@[k] == before[k]
                    && reached(start, before, k as nat, field_step::<V>()).1 is Err by {
                    lemma_failed_stays(start, before, (i + 1) as nat, k as nat, field_step::<V>());
                }
            }
            return step;
        }
        i += 1;
    }
    Ok(())
}

/// Walks a limit clause: the count, then the offset.
pub fn visit_limit<V: AstVisitor>(v: &mut V, limit: &mut Option<Limit>) -> (r: Result<
    (),
    RustubError,
>)
    ensures
        (*final(v), r) == limit_outcome(*old(v), *old(limit)),
        limit_left(*old(v), *old(limit), *final(limit)),
        plainly(
            old(v).is_plain(),
            final(v).is_plain(),
            r,
            limit_visitable(*old(limit)),
            limit_visited(*old(limit), *final(limit)),
        ),
{
    match limit {
        Some(l) => {
            let counted = visit_optional_expression(v, &mut l.count);
            if counted.is_err() {
                return counted;
            }
            visit_optional_expression(v, &mut l.offset)
        },
        None => Ok(()),
    }
}

/// Walks a select statement: the fields, the table reference, then the
/// where, group-by, having, order-by and limit clauses, in that order. A
/// clause that is absent is passed. The first failure ends the walk and
/// is its result.
pub fn visit_select_stmt<V: AstVisitor>(v: &mut V, stmt: &mut SelectStmtNode) -> (r: Result<
    (),
    RustubError,
>)
    ensures
        (*final(v), r) == select_outcome(*old(v), *old(stmt)),
        select_left(*old(v), *old(stmt), *final(stmt)),
        plainly(
            old(v).is_plain(),
            final(v).is_plain(),
            r,
            select_visitable(*old(stmt)),
            select_visited(*old(stmt), *final(stmt)),
        ),
    decreases *old(stmt),
{
    proof {
        reveal_with_fuel(select_state, 8);
    }
    // fields -> from -> where -> group by -> having -> order by -> limit
    let fields = visit_select_field_list(v, &mut stmt.fields);
    if fields.is_err() {
        return fields;
    }
    let ghost first = *v;
    let from = visit_table_ref(v, &mut stmt.from);
    if from.is_err() {
        proof {
            assert(select_state(*old(v), *old(stmt), 1).0 == first);
            assert(select_state(*old(v), *old(stmt), 1).1 is Ok);
            assert(select_state(*old(v), *old(stmt), 2) == (*v, from));
            assert(select_state(*old(v), *old(stmt), 3) == (*v, from));
            assert(select_state(*old(v), *old(stmt), 7) == (*v, from));
        }
        return from;
    }
    let filtered = visit_optional_expression(v, &mut stmt.whe);
    if filtered.is_err() {
        return filtered;
    }
    if let Some(g) = &mut stmt.group_by {
        let grouped = visit_group_or_order_by_items(v, &mut g.items);
        if grouped.is_err() {
            return grouped;
        }
    }
    if let Some(h) = &mut stmt.having {
        let had = visit_expression(v, &mut h.expr);
        if had.is_err() {
            return had;
        }
    }
    if let Some(o) = &mut stmt.order_by {
        let ordered = visit_group_or_order_by_items(v, &mut o.items);
        if ordered.is_err() {
            return ordered;
        }
    }
    visit_limit(v, &mut stmt.limit)
}

/// Walks a table reference: a nested select statement, the source behind
/// an alias, a table name, or the left side of a join, its right side and
/// its condition, in that order.
pub fn visit_table_ref<V: AstVisitor>(v: &mut V, table: &mut TableRef) -> (r: Result<
    (),
    RustubError,
>)
    ensures
        (*final(v), r) == table_ref_outcome(*old(v), *old(table)),
        table_ref_left(*old(v), *old(table), *final(table)),
        plainly(
            old(v).is_plain(),
            final(v).is_plain(),
            r,
            table_ref_visitable(*old(table)),
            table_ref_visited(*old(table), *final(table)),
        ),
    decreases *old(table),
{
    match table {
        TableRef::SelectStmt(s) => visit_select_stmt(v, s),
        TableRef::TableSource(s) => visit_table_ref(v, &mut s.source),
        TableRef::TableName(n) => v.visit_table_name(n),
        TableRef::Join(j) => {
            let left = visit_table_ref(v, &mut j.left);
            if left.is_err() {
                return left;
            }
            let right = visit_table_ref(v, &mut j.right);
            if right.is_err() {
                return right;
            }
            if let Some(on) = &mut j.on {
                visit_expression(v, &mut on.expr)
            } else {
                Ok(())
            }
        },
    }
}

/// Whether a plain visitor gets through a statement. The statements to
/// alter and truncate a table and to create and drop an index have no
/// content yet; a plain visitor refuses them.
pub open spec fn node_visitable(node: AstNode) -> bool {
    match node {
        AstNode::CreateDatabaseStmt(_) => true,
        AstNode::DropDatabaseStmt(_) => true,
        AstNode::CreateTableStmt(s) => create_table_visitable(s),
        AstNode::DropTableStmt(_) => true,
        AstNode::Expression(e) => visitable(e),
        AstNode::SelectStmt(s) => select_visitable(s),
        _ => false,
    }
}

/// What a plain visitor leaves of a statement.
pub open spec fn node_visited(before: AstNode, after: AstNode) -> bool {
    match (before, after) {
        (AstNode::CreateDatabaseStmt(a), AstNode::CreateDatabaseStmt(b)) => a == b,
        (AstNode::DropDatabaseStmt(a), AstNode::DropDatabaseStmt(b)) => a == b,
        (AstNode::CreateTableStmt(a), AstNode::CreateTableStmt(b)) => create_table_visited(a, b),
        (AstNode::DropTableStmt(a), AstNode::DropTableStmt(b)) => {
            &&& a.tables@ == b.tables@
            &&& a.if_exists == b.if_exists
            &&& a.is_view == b.is_view
            &&& a.is_temporary == b.is_temporary
        },
        (AstNode::Expression(a), AstNode::Expression(b)) => visited(a, b),
        (AstNode::SelectStmt(a), AstNode::SelectStmt(b)) => select_visited(a, b),
        _ => false,
    }
}

/// Walks a statement.
pub fn visit<V: AstVisitor>(v: &mut V, node: &mut AstNode) -> (r: Result<(), RustubError>)
    ensures
        (*final(v), r) == node_outcome(*old(v), *old(node)),
        node_left(*old(v), *old(node), *final(node)),
        plainly(
            old(v).is_plain(),
            final(v).is_plain(),
            r,
            node_visitable(*old(node)),
            node_visited(*old(node), *final(node)),
        ),
{
    match node {
        AstNode::CreateDatabaseStmt(s) => v.visit_create_database_stmt(s),
        AstNode::DropDatabaseStmt(s) => v.visit_drop_database_stmt(s),
        AstNode::CreateTableStmt(s) => visit_create_table_stmt(v, s),
        AstNode::DropTableStmt(s) => visit_drop_table_stmt(v, s),
        AstNode::AlterTableStmt(s) => v.visit_alter_table_stmt(s),
        AstNode::TruncateTableStmt(s) => v.visit_truncate_table_stmt(s),
        AstNode::CreateIndexStmt(s) => v.visit_create_index_stmt(s),
        AstNode::DropIndexStmt(s) => v.visit_drop_index_stmt(s),
        AstNode::Expression(s) => visit_expression(v, s),
        AstNode::SelectStmt(s) => visit_select_stmt(v, s),
    }
}

/// The sum of the counters of the check expressions in an expression.
pub open spec fn counted(e: ExpressionNode) -> nat
    decreases e, 0nat,
{
    match e {
        ExpressionNode::Between(b) => counted(*b.expr) + counted(*b.left) + counted(*b.right),
        ExpressionNode::BinaryOperation(b) => counted(*b.left) + counted(*b.right),
        ExpressionNode::Parentheses(p) => counted(*p.expr),
        ExpressionNode::PatternIn(p) => counted(*p.expr) + counted_first(p.list, p.list@.len()),
        ExpressionNode::UnaryOperation(u) => counted(*u.expr),
        ExpressionNode::Values => 0,
        ExpressionNode::Variable(x) => counted(*x.value),
        ExpressionNode::ColumnName => 0,
        ExpressionNode::Func(FuncExpr::FuncCall(f)) => counted_first(f.args, f.args@.len()),
        ExpressionNode::Func(FuncExpr::AggregateFunc(f)) => counted_first(f.args, f.args@.len()),
        ExpressionNode::Check(c) => c.count as nat,
    }
}

/// The sum of the counters in the first `n` expressions of a list.
pub open spec fn counted_first(list: Vec<ExpressionNode>, n: nat) -> nat
    decreases list, n,
{
    if n == 0 || n > list@.len() {
        0
    } else {
        proof {
            axiom_vec_index_decreases(list, n - 1);
        }
        counted(list@[n - 1]) + counted_first(list, (n - 1) as nat)
    }
}

/// The number of check expressions in an expression.
pub open spec fn checks(e: ExpressionNode) -> nat
    decreases e, 0nat,
{
    match e {
        ExpressionNode::Between(b) => checks(*b.expr) + checks(*b.left) + checks(*b.right),
        ExpressionNode::BinaryOperation(b) => checks(*b.left) + checks(*b.right),
        ExpressionNode::Parentheses(p) => checks(*p.expr),
        ExpressionNode::PatternIn(p) => checks(*p.expr) + checks_first(p.list, p.list@.len()),
        ExpressionNode::UnaryOperation(u) => checks(*u.expr),
        ExpressionNode::Values => 0,
        ExpressionNode::Variable(x) => checks(*x.value),
        ExpressionNode::ColumnName => 0,
        ExpressionNode::Func(FuncExpr::FuncCall(f)) => checks_first(f.args, f.args@.len()),
        ExpressionNode::Func(FuncExpr::AggregateFunc(f)) => checks_first(f.args, f.args@.len()),
        ExpressionNode::Check(c) => 1,
    }
}

/// The number of check expressions in the first `n` expressions of a list.
pub open spec fn checks_first(list: Vec<ExpressionNode>, n: nat) -> nat
    decreases list, n,
{
    if n == 0 || n > list@.len() {
        0
    } else {
        proof {
            axiom_vec_index_decreases(list, n - 1);
        }
        checks(list@[n - 1]) + checks_first(list, (n - 1) as nat)
    }
}

/// A visit by a plain visitor raises the sum of the counters in an
/// expression by the number of its check expressions: every one of them
/// is visited once.
pub proof fn lemma_visit_counts_checks(before: ExpressionNode, after: ExpressionNode)
    requires
        visited(before, after),
    ensures
        counted(after) == counted(before) + checks(before),
    decreases before, 0nat,
{
    match (before, after) {
        (ExpressionNode::Between(a), ExpressionNode::Between(b)) => {
            lemma_visit_counts_checks(*a.expr, *b.expr);
            lemma_visit_counts_checks(*a.left, *b.left);
            lemma_visit_counts_checks(*a.right, *b.right);
        },
        (ExpressionNode::BinaryOperation(a), ExpressionNode::BinaryOperation(b)) => {
            lemma_visit_counts_checks(*a.left, *b.left);
            lemma_visit_counts_checks(*a.right, *b.right);
        },
        (ExpressionNode::Parentheses(a), ExpressionNode::Parentheses(b)) => {
            lemma_visit_counts_checks(*a.expr, *b.expr);
        },
        (ExpressionNode::PatternIn(a), ExpressionNode::PatternIn(b)) => {
            lemma_visit_counts_checks(*a.expr, *b.expr);
            lemma_visit_counts_checks_first(a.list, b.list, a.list@.len());
        },
        (ExpressionNode::UnaryOperation(a), ExpressionNode::UnaryOperation(b)) => {
            lemma_visit_counts_checks(*a.expr, *b.expr);
        },
        (ExpressionNode::Variable(a), ExpressionNode::Variable(b)) => {
            lemma_visit_counts_checks(*a.value, *b.value);
        },
        (
            ExpressionNode::Func(FuncExpr::FuncCall(a)),
            ExpressionNode::Func(FuncExpr::FuncCall(b)),
        ) => {
            lemma_visit_counts_checks_first(a.args, b.args, a.args@.len());
        },
        (
            ExpressionNode::Func(FuncExpr::AggregateFunc(a)),
            ExpressionNode::Func(FuncExpr::AggregateFunc(b)),
        ) => {
            lemma_visit_counts_checks_first(a.args, b.args, a.args@.len());
        },
        _ => {},
    }
}

/// The same of the first `n` expressions of a list.
pub proof fn lemma_visit_counts_checks_first(
    before: Vec<ExpressionNode>,
    after: Vec<ExpressionNode>,
    n: nat,
)
    requires
        all_visited(before@, after@),
        n <= before@.len(),
    ensures
        counted_first(after, n) == counted_first(before, n) + checks_first(before, n),
    decreases before, n,
{
    if n > 0 {
        axiom_vec_index_decreases(before, n - 1);
        lemma_visit_counts_checks(before@[n - 1], after@[n - 1]);
        lemma_visit_counts_checks_first(before, after, (n - 1) as nat);
    }
}

/// The sum of the counters of the check expressions in an expression; the
/// largest number where the sum is beyond it.
pub fn check_count(e: &ExpressionNode) -> (total: u64)
    ensures
        total == (if counted(*e) <= u64::MAX {
            counted(*e)
        } else {
            u64::MAX as nat
        }),
    decreases *e,
{
    match e {
        ExpressionNode::Between(b) => check_count(&b.expr).saturating_add(
            check_count(&b.left),
        ).saturating_add(check_count(&b.right)),
        ExpressionNode::BinaryOperation(b) => check_count(&b.left).saturating_add(
            check_count(&b.right),
        ),
        ExpressionNode::Parentheses(p) => check_count(&p.expr),
        ExpressionNode::PatternIn(p) => check_count(&p.expr).saturating_add(
            check_count_list(&p.list),
        ),
        ExpressionNode::UnaryOperation(u) => check_count(&u.expr),
        ExpressionNode::Values => 0,
        ExpressionNode::Variable(x) => check_count(&x.value),
        ExpressionNode::ColumnName => 0,
        ExpressionNode::Func(f) => match f {
            FuncExpr::FuncCall(call) => check_count_list(&call.args),
            FuncExpr::AggregateFunc(call) => check_count_list(&call.args),
        },
        ExpressionNode::Check(c) => c.count as u64,
    }
}

/// The sum of the counters in the expressions of a list.
pub fn check_count_list(list: &Vec<ExpressionNode>) -> (total: u64)
    ensures
        total == (if counted_first(*list, list@.len()) <= u64::MAX {
            counted_first(*list, list@.len())
        } else {
            u64::MAX as nat
        }),
    decreases *list,
{
    let n = list.len();
    let mut total: u64 = 0;
    let mut i: usize = 0;
    while i < n
        invariant
            i <= n,
            n == list@.len(),
            total == (if counted_first(*list, i as nat) <= u64::MAX {
                counted_first(*list, i as nat)
            } else {
                u64::MAX as nat
            }),
        decreases n - i,
    {
        proof {
            axiom_vec_index_decreases(*list, i as int);
        }
        total = total.saturating_add(check_count(&list[i]));
        i += 1;
    }
    total
}

} // verus!
