//! What a walk makes of a tree, for any visitor: which visitor and which
//! result it ends with, and what it leaves of the tree. A walk goes
//! through the parts of a node in their order and ends at the first part
//! at which the visitor fails; that failure is its result.

use crate::common::error::RustubError;
use crate::tiny_planner::ast::ddl::{
    ColumnDef, ColumnOption, CreateTableStmtNode, DropTableStmtNode, TableConstraint, TableName,
};
use crate::tiny_planner::ast::dml::{ByItem, Limit, SelectField, SelectStmtNode, TableRef};
use crate::tiny_planner::ast::expression::{ExpressionNode, FuncExpr};
use crate::tiny_planner::ast::node::AstNode;
use crate::tiny_planner::ast::visitor::{
    group_items, having_expression, on_expression, option_expression, order_items, AstVisitor,
};
use vstd::prelude::*;
use vstd::std_specs::vec::axiom_vec_index_decreases;

verus! {

/// The outcome of two steps in a row: that of the first where it failed,
/// else that of the second.
pub open spec fn chain<V>(
    first: (V, Result<(), RustubError>),
    second: (V, Result<(), RustubError>),
) -> (V, Result<(), RustubError>) {
    if first.1 is Err {
        first
    } else {
        second
    }
}

/// What holds of a part of a node: `left` where the walk got to it, that
/// is where `before` is a success; `same` where the walk ended earlier.
pub open spec fn if_reached<V>(before: (V, Result<(), RustubError>), left: bool, same: bool) -> bool {
    if before.1 is Ok {
        left
    } else {
        same
    }
}

/// There is one success only.
pub proof fn lemma_success(r: Result<(), RustubError>)
    ensures
        r is Ok ==> r == Ok::<(), RustubError>(()),
{
    if r is Ok {
        assert(r->Ok_0 == ());
    }
}

/// The outcome of a walk through the first `n` items of a list, where
/// `step` is the outcome of the walk through one item: the items are
/// taken in order, each by the visitor that the one before it left, up to
/// the first that fails.
pub open spec fn reached<V, T>(
    v: V,
    list: Seq<T>,
    n: nat,
    step: spec_fn(V, T) -> (V, Result<(), RustubError>),
) -> (V, Result<(), RustubError>)
    decreases n,
{
    if n == 0 {
        (v, Ok(()))
    } else {
        let before = reached(v, list, (n - 1) as nat, step);
        chain(before, step(before.0, list[n - 1]))
    }
}

/// What a walk leaves of a list: of every item that it got to, what
/// `left` says of the item and of the visitor that came to it; every
/// other item as it was.
pub open spec fn list_left<V, T>(
    v: V,
    before: Seq<T>,
    after: Seq<T>,
    step: spec_fn(V, T) -> (V, Result<(), RustubError>),
    left: spec_fn(V, T, T) -> bool,
) -> bool {
    &&& before.len() == after.len()
    &&& forall|i: int|
        0 <= i < before.len() ==> if_reached(
            reached(v, before, i as nat, step),
            left(reached(v, before, i as nat, step).0, before[i], #[trigger] after[i]),
            after[i] == before[i],
        )
}

/// A walk that has failed stays as it is: no later item is reached.
pub proof fn lemma_failed_stays<V, T>(
    v: V,
    list: Seq<T>,
    i: nat,
    n: nat,
    step: spec_fn(V, T) -> (V, Result<(), RustubError>),
)
    requires
        i <= n,
        reached(v, list, i, step).1 is Err,
    ensures
        reached(v, list, n, step) == reached(v, list, i, step),
    decreases n,
{
    if i < n {
        lemma_failed_stays(v, list, i, (n - 1) as nat, step);
    }
}

/// The outcome of the walk through an expression: the operands are walked
/// from left to right, each with all that is below it.
pub open spec fn expression_outcome<V: AstVisitor>(v: V, e: ExpressionNode) -> (
    V,
    Result<(), RustubError>,
)
    decreases e, 0nat,
{
    match e {
        ExpressionNode::Between(b) => {
            let first = expression_outcome(v, *b.expr);
            let second = chain(first, expression_outcome(first.0, *b.left));
            chain(second, expression_outcome(second.0, *b.right))
        },
        ExpressionNode::BinaryOperation(b) => {
            let first = expression_outcome(v, *b.left);
            chain(first, expression_outcome(first.0, *b.right))
        },
        ExpressionNode::Parentheses(p) => expression_outcome(v, *p.expr),
        ExpressionNode::PatternIn(p) => {
            let first = expression_outcome(v, *p.expr);
            chain(first, expressions_reached(first.0, p.list, p.list@.len()))
        },
        ExpressionNode::UnaryOperation(u) => expression_outcome(v, *u.expr),
        ExpressionNode::Values => (v, Err(RustubError::UnimplementedError("values expression"))),
        ExpressionNode::Variable(x) => expression_outcome(v, *x.value),
        ExpressionNode::ColumnName => (
            v,
            Err(RustubError::UnimplementedError("column name expression")),
        ),
        ExpressionNode::Func(FuncExpr::FuncCall(f)) => expressions_reached(
            v,
            f.args,
            f.args@.len(),
        ),
        ExpressionNode::Func(FuncExpr::AggregateFunc(f)) => expressions_reached(
            v,
            f.args,
            f.args@.len(),
        ),
        ExpressionNode::Check(c) => (v.check_seen(c).0, v.check_seen(c).2),
    }
}

/// The outcome of the walk through the first `n` expressions of a list.
pub open spec fn expressions_reached<V: AstVisitor>(v: V, list: Vec<ExpressionNode>, n: nat) -> (
    V,
    Result<(), RustubError>,
)
    decreases list, n,
{
    if n == 0 || n > list@.len() {
        (v, Ok(()))
    } else {
        proof {
            axiom_vec_index_decreases(list, n - 1);
        }
        let before = expressions_reached(v, list, (n - 1) as nat);
        chain(before, expression_outcome(before.0, list@[n - 1]))
    }
}

/// A walk through a list of expressions that has failed stays as it is.
pub proof fn lemma_failed_expressions_stay<V: AstVisitor>(
    v: V,
    list: Vec<ExpressionNode>,
    i: nat,
    n: nat,
)
    requires
        i <= n <= list@.len(),
        expressions_reached(v, list, i).1 is Err,
    ensures
        expressions_reached(v, list, n) == expressions_reached(v, list, i),
    decreases n,
{
    if i < n {
        lemma_failed_expressions_stay(v, list, i, (n - 1) as nat);
    }
}

/// What the walk leaves of an expression: the same kind of expression,
/// with every operand that the walk got to as its own walk leaves it and
/// every other operand as it was. Of a check expression it leaves what
/// the visitor makes of it.
pub open spec fn expression_left<V: AstVisitor>(
    v: V,
    before: ExpressionNode,
    after: ExpressionNode,
) -> bool
    decreases before,
{
    match (before, after) {
        (ExpressionNode::Between(a), ExpressionNode::Between(b)) => {
            let first = expression_outcome(v, *a.expr);
            let second = chain(first, expression_outcome(first.0, *a.left));
            &&& a.not == b.not
            &&& expression_left(v, *a.expr, *b.expr)
            &&& if_reached(first, expression_left(first.0, *a.left, *b.left), *b.left == *a.left)
            &&& if_reached(second, expression_left(second.0, *a.right, *b.right), *b.right == *a.right)
        },
        (ExpressionNode::BinaryOperation(a), ExpressionNode::BinaryOperation(b)) => {
            let first = expression_outcome(v, *a.left);
            &&& a.op == b.op
            &&& expression_left(v, *a.left, *b.left)
            &&& if_reached(first, expression_left(first.0, *a.right, *b.right), *b.right == *a.right)
        },
        (ExpressionNode::Parentheses(a), ExpressionNode::Parentheses(b)) => expression_left(
            v,
            *a.expr,
            *b.expr,
        ),
        (ExpressionNode::PatternIn(a), ExpressionNode::PatternIn(b)) => {
            let first = expression_outcome(v, *a.expr);
            &&& a.not == b.not
            &&& expression_left(v, *a.expr, *b.expr)
            &&& if_reached(first, expressions_left(first.0, a.list, b.list@), b.list@ == a.list@)
        },
        (ExpressionNode::UnaryOperation(a), ExpressionNode::UnaryOperation(b)) => {
            &&& a.op == b.op
            &&& expression_left(v, *a.expr, *b.expr)
        },
        (ExpressionNode::Values, ExpressionNode::Values) => true,
        (ExpressionNode::Variable(a), ExpressionNode::Variable(b)) => {
            &&& a.name == b.name
            &&& a.is_global == b.is_global
            &&& a.is_system == b.is_system
            &&& expression_left(v, *a.value, *b.value)
        },
        (ExpressionNode::ColumnName, ExpressionNode::ColumnName) => true,
        (
            ExpressionNode::Func(FuncExpr::FuncCall(a)),
            ExpressionNode::Func(FuncExpr::FuncCall(b)),
        ) => {
            &&& a.func == b.func
            &&& expressions_left(v, a.args, b.args@)
        },
        (
            ExpressionNode::Func(FuncExpr::AggregateFunc(a)),
            ExpressionNode::Func(FuncExpr::AggregateFunc(b)),
        ) => {
            &&& a.func == b.func
            &&& expressions_left(v, a.args, b.args@)
        },
        (ExpressionNode::Check(a), ExpressionNode::Check(b)) => b == v.check_seen(a).1,
        _ => false,
    }
}

/// What the walk leaves of a list of expressions.
pub open spec fn expressions_left<V: AstVisitor>(
    v: V,
    before: Vec<ExpressionNode>,
    after: Seq<ExpressionNode>,
) -> bool
    decreases before,
{
    &&& before@.len() == after.len()
    &&& forall|i: int|
        0 <= i < before@.len() ==> if_reached(
            expressions_reached(v, before, i as nat),
            expression_left(
                expressions_reached(v, before, i as nat).0,
                before@[i],
                #[trigger] after[i],
            ),
            after[i] == before@[i],
        )
}

/// The outcome of the walk through an expression that may be absent.
pub open spec fn optional_outcome<V: AstVisitor>(v: V, e: Option<ExpressionNode>) -> (
    V,
    Result<(), RustubError>,
) {
    match e {
        Some(x) => expression_outcome(v, x),
        None => (v, Ok(())),
    }
}

/// What the walk leaves of an expression that may be absent.
pub open spec fn optional_left<V: AstVisitor>(
    v: V,
    before: Option<ExpressionNode>,
    after: Option<ExpressionNode>,
) -> bool {
    match (before, after) {
        (Some(a), Some(b)) => expression_left(v, a, b),
        (None, None) => true,
        _ => false,
    }
}

/// The outcome of a call of the visitor at a table name.
pub open spec fn name_step<V: AstVisitor>() -> spec_fn(V, TableName) -> (
    V,
    Result<(), RustubError>,
) {
    |v: V, name: TableName| (v.table_name_seen(name).0, v.table_name_seen(name).2)
}

/// What a call of the visitor leaves of a table name.
pub open spec fn name_left<V: AstVisitor>() -> spec_fn(V, TableName, TableName) -> bool {
    |v: V, before: TableName, after: TableName| after == v.table_name_seen(before).1
}

/// The outcome of a call of the visitor at a table constraint.
pub open spec fn constraint_step<V: AstVisitor>() -> spec_fn(V, TableConstraint) -> (
    V,
    Result<(), RustubError>,
) {
    |v: V, c: TableConstraint| (v.table_constraint_seen(c).0, v.table_constraint_seen(c).2)
}

/// What a call of the visitor leaves of a table constraint.
pub open spec fn constraint_left<V: AstVisitor>() -> spec_fn(
    V,
    TableConstraint,
    TableConstraint,
) -> bool {
    |v: V, before: TableConstraint, after: TableConstraint|
        after == v.table_constraint_seen(before).1
}

/// The outcome of the walk through a column option: that of the walk
/// through its expression, where it has one.
pub open spec fn option_outcome<V: AstVisitor>(v: V, option: ColumnOption) -> (
    V,
    Result<(), RustubError>,
) {
    optional_outcome(v, option_expression(option))
}

/// What the walk leaves of a column option.
pub open spec fn option_left<V: AstVisitor>(v: V, before: ColumnOption, after: ColumnOption) -> bool {
    match (before, after) {
        (ColumnOption::DefaultValue(a), ColumnOption::DefaultValue(b)) => expression_left(v, a, b),
        (ColumnOption::OnUpdate(a), ColumnOption::OnUpdate(b)) => expression_left(v, a, b),
        (ColumnOption::Generated(a), ColumnOption::Generated(b)) => expression_left(v, a, b),
        _ => option_expression(before) is None && after == before,
    }
}

/// `option_outcome` as the step of a walk through a list.
pub open spec fn option_step<V: AstVisitor>() -> spec_fn(V, ColumnOption) -> (
    V,
    Result<(), RustubError>,
) {
    |v: V, option: ColumnOption| option_outcome(v, option)
}

/// `option_left` as what a walk through a list leaves of an item.
pub open spec fn option_left_of<V: AstVisitor>() -> spec_fn(V, ColumnOption, ColumnOption) -> bool {
    |v: V, before: ColumnOption, after: ColumnOption| option_left(v, before, after)
}

/// The outcome of the walk through a column definition: the visitor is
/// called at the name, then the options are walked in order.
pub open spec fn column_outcome<V: AstVisitor>(v: V, column: ColumnDef) -> (
    V,
    Result<(), RustubError>,
) {
    let named = (v.column_name_seen(column.name).0, v.column_name_seen(column.name).1);
    chain(named, reached(named.0, column.options@, column.options@.len(), option_step::<V>()))
}

/// What the walk leaves of a column definition.
pub open spec fn column_left<V: AstVisitor>(v: V, before: ColumnDef, after: ColumnDef) -> bool {
    let named = (v.column_name_seen(before.name).0, v.column_name_seen(before.name).1);
    &&& after.name == before.name
    &&& after.field_type == before.field_type
    &&& if_reached(
        named,
        list_left(
            named.0,
            before.options@,
            after.options@,
            option_step::<V>(),
            option_left_of::<V>(),
        ),
        after.options@ == before.options@,
    )
}

/// `column_outcome` as the step of a walk through a list.
pub open spec fn column_step<V: AstVisitor>() -> spec_fn(V, ColumnDef) -> (
    V,
    Result<(), RustubError>,
) {
    |v: V, column: ColumnDef| column_outcome(v, column)
}

/// `column_left` as what a walk through a list leaves of an item.
pub open spec fn column_left_of<V: AstVisitor>() -> spec_fn(V, ColumnDef, ColumnDef) -> bool {
    |v: V, before: ColumnDef, after: ColumnDef| column_left(v, before, after)
}

/// The outcome of the first `n` of the four parts of the walk through a
/// create table statement: the table name, the name of the table that it
/// refers to, the columns, the constraints.
pub open spec fn create_table_state<V: AstVisitor>(v: V, stmt: CreateTableStmtNode, n: nat) -> (
    V,
    Result<(), RustubError>,
)
    decreases n,
{
    if n == 0 {
        (v, Ok(()))
    } else {
        let before = create_table_state(v, stmt, (n - 1) as nat);
        chain(
            before,
            if n == 1 {
                name_step::<V>()(before.0, stmt.table)
            } else if n == 2 {
                match stmt.refer_table {
                    Some(name) => name_step::<V>()(before.0, name),
                    None => before,
                }
            } else if n == 3 {
                reached(before.0, stmt.columns@, stmt.columns@.len(), column_step::<V>())
            } else {
                reached(
                    before.0,
                    stmt.constraints@,
                    stmt.constraints@.len(),
                    constraint_step::<V>(),
                )
            },
        )
    }
}

/// The outcome of the walk through a create table statement.
pub open spec fn create_table_outcome<V: AstVisitor>(v: V, stmt: CreateTableStmtNode) -> (
    V,
    Result<(), RustubError>,
) {
    create_table_state(v, stmt, 4)
}

/// What the walk leaves of a create table statement.
pub open spec fn create_table_left<V: AstVisitor>(
    v: V,
    before: CreateTableStmtNode,
    after: CreateTableStmtNode,
) -> bool {
    &&& after.if_not_exists == before.if_not_exists
    &&& after.is_temporary == before.is_temporary
    &&& name_left::<V>()(v, before.table, after.table)
    &&& if_reached(
        create_table_state(v, before, 1),
        match (before.refer_table, after.refer_table) {
            (Some(a), Some(b)) => name_left::<V>()(create_table_state(v, before, 1).0, a, b),
            (None, None) => true,
            _ => false,
        },
        after.refer_table == before.refer_table,
    )
    &&& if_reached(
        create_table_state(v, before, 2),
        list_left(
            create_table_state(v, before, 2).0,
            before.columns@,
            after.columns@,
            column_step::<V>(),
            column_left_of::<V>(),
        ),
        after.columns@ == before.columns@,
    )
    &&& if_reached(
        create_table_state(v, before, 3),
        list_left(
            create_table_state(v, before, 3).0,
            before.constraints@,
            after.constraints@,
            constraint_step::<V>(),
            constraint_left::<V>(),
        ),
        after.constraints@ == before.constraints@,
    )
}

/// The outcome of the walk through a drop table statement: the visitor
/// is called at the table names in order.
pub open spec fn drop_table_outcome<V: AstVisitor>(v: V, stmt: DropTableStmtNode) -> (
    V,
    Result<(), RustubError>,
) {
    reached(v, stmt.tables@, stmt.tables@.len(), name_step::<V>())
}

/// What the walk leaves of a drop table statement.
pub open spec fn drop_table_left<V: AstVisitor>(
    v: V,
    before: DropTableStmtNode,
    after: DropTableStmtNode,
) -> bool {
    &&& after.if_exists == before.if_exists
    &&& after.is_view == before.is_view
    &&& after.is_temporary == before.is_temporary
    &&& list_left(v, before.tables@, after.tables@, name_step::<V>(), name_left::<V>())
}

/// The outcome of the walk through an item of a group-by or order-by
/// clause: that of the walk through its expression.
pub open spec fn item_step<V: AstVisitor>() -> spec_fn(V, ByItem) -> (
    V,
    Result<(), RustubError>,
) {
    |v: V, item: ByItem| expression_outcome(v, item.expr)
}

/// What the walk leaves of an item of a group-by or order-by clause.
pub open spec fn item_left<V: AstVisitor>() -> spec_fn(V, ByItem, ByItem) -> bool {
    |v: V, before: ByItem, after: ByItem|
        expression_left(v, before.expr, after.expr) && after.desc == before.desc
}

/// The outcome of the walk through the items of a clause that may be absent.
pub open spec fn optional_items_outcome<V: AstVisitor>(v: V, items: Option<Seq<ByItem>>) -> (
    V,
    Result<(), RustubError>,
) {
    match items {
        Some(list) => reached(v, list, list.len(), item_step::<V>()),
        None => (v, Ok(())),
    }
}

/// What the walk leaves of the items of a clause that may be absent.
pub open spec fn optional_items_left<V: AstVisitor>(
    v: V,
    before: Option<Seq<ByItem>>,
    after: Option<Seq<ByItem>>,
) -> bool {
    match (before, after) {
        (Some(a), Some(b)) => list_left(v, a, b, item_step::<V>(), item_left::<V>()),
        (None, None) => true,
        _ => false,
    }
}

/// The outcome of the walk through a select field: a call of the visitor
/// at a wildcard, the walk through the expression behind an alias.
pub open spec fn field_outcome<V: AstVisitor>(v: V, field: SelectField) -> (
    V,
    Result<(), RustubError>,
) {
    match field {
        SelectField::WildCard(w) => (v.wildcard_seen(w).0, v.wildcard_seen(w).2),
        SelectField::AliasExpr(a) => expression_outcome(v, a.expr),
    }
}

/// What the walk leaves of a select field.
pub open spec fn field_left<V: AstVisitor>(v: V, before: SelectField, after: SelectField) -> bool {
    match (before, after) {
        (SelectField::WildCard(a), SelectField::WildCard(b)) => b == v.wildcard_seen(a).1,
        (SelectField::AliasExpr(a), SelectField::AliasExpr(b)) => expression_left(
            v,
            a.expr,
            b.expr,
        ) && a.as_name == b.as_name,
        _ => false,
    }
}

/// `field_outcome` as the step of a walk through a list.
pub open spec fn field_step<V: AstVisitor>() -> spec_fn(V, SelectField) -> (
    V,
    Result<(), RustubError>,
) {
    |v: V, field: SelectField| field_outcome(v, field)
}

/// `field_left` as what a walk through a list leaves of an item.
pub open spec fn field_left_of<V: AstVisitor>() -> spec_fn(V, SelectField, SelectField) -> bool {
    |v: V, before: SelectField, after: SelectField| field_left(v, before, after)
}

/// The outcome of the walk through a limit clause: the count, then the offset.
pub open spec fn limit_outcome<V: AstVisitor>(v: V, limit: Option<Limit>) -> (
    V,
    Result<(), RustubError>,
) {
    match limit {
        Some(l) => {
            let counted = optional_outcome(v, l.count);
            chain(counted, optional_outcome(counted.0, l.offset))
        },
        None => (v, Ok(())),
    }
}

/// What the walk leaves of a limit clause.
pub open spec fn limit_left<V: AstVisitor>(v: V, before: Option<Limit>, after: Option<Limit>) -> bool {
    match (before, after) {
        (Some(a), Some(b)) => {
            let counted = optional_outcome(v, a.count);
            &&& optional_left(v, a.count, b.count)
            &&& if_reached(counted, optional_left(counted.0, a.offset, b.offset), b.offset == a.offset)
        },
        (None, None) => true,
        _ => false,
    }
}

/// The outcome of the first `n` of the seven parts of the walk through a
/// select statement: the fields, the table reference, the where clause,
/// the group-by clause, the having clause, the order-by clause, the
/// limit clause. A clause that is absent is passed.
pub open spec fn select_state<V: AstVisitor>(v: V, stmt: SelectStmtNode, n: nat) -> (
    V,
    Result<(), RustubError>,
)
    decreases stmt, n,
{
    if n == 0 {
        (v, Ok(()))
    } else {
        let before = select_state(v, stmt, (n - 1) as nat);
        chain(
            before,
            if n == 1 {
                reached(before.0, stmt.fields.fields@, stmt.fields.fields@.len(), field_step::<V>())
            } else if n == 2 {
                table_ref_outcome(before.0, *stmt.from)
            } else if n == 3 {
                optional_outcome(before.0, stmt.whe)
            } else if n == 4 {
                optional_items_outcome(before.0, group_items(stmt.group_by))
            } else if n == 5 {
                optional_outcome(before.0, having_expression(stmt.having))
            } else if n == 6 {
                optional_items_outcome(before.0, order_items(stmt.order_by))
            } else {
                limit_outcome(before.0, stmt.limit)
            },
        )
    }
}

/// The outcome of the walk through a select statement.
pub open spec fn select_outcome<V: AstVisitor>(v: V, stmt: SelectStmtNode) -> (
    V,
    Result<(), RustubError>,
)
    decreases stmt, 8nat,
{
    select_state(v, stmt, 7)
}

/// The outcome of the walk through a table reference: through a nested
/// select statement, through the source behind an alias, a call of the
/// visitor at a table name, or the walk through the left side of a join,
/// its right side and its condition.
pub open spec fn table_ref_outcome<V: AstVisitor>(v: V, table: TableRef) -> (
    V,
    Result<(), RustubError>,
)
    decreases table, 0nat,
{
    match table {
        TableRef::SelectStmt(s) => select_outcome(v, s),
        TableRef::TableSource(s) => table_ref_outcome(v, *s.source),
        TableRef::TableName(n) => name_step::<V>()(v, n),
        TableRef::Join(j) => {
            let first = table_ref_outcome(v, *j.left);
            let second = chain(first, table_ref_outcome(first.0, *j.right));
            chain(second, optional_outcome(second.0, on_expression(j.on)))
        },
    }
}

/// What the walk leaves of a select statement.
pub open spec fn select_left<V: AstVisitor>(v: V, before: SelectStmtNode, after: SelectStmtNode) -> bool
    decreases before,
{
    &&& after.distinct == before.distinct
    &&& list_left(
        v,
        before.fields.fields@,
        after.fields.fields@,
        field_step::<V>(),
        field_left_of::<V>(),
    )
    &&& if_reached(
        select_state(v, before, 1),
        table_ref_left(select_state(v, before, 1).0, *before.from, *after.from),
        *after.from == *before.from,
    )
    &&& if_reached(
        select_state(v, before, 2),
        optional_left(select_state(v, before, 2).0, before.whe, after.whe),
        after.whe == before.whe,
    )
    &&& if_reached(
        select_state(v, before, 3),
        optional_items_left(
            select_state(v, before, 3).0,
            group_items(before.group_by),
            group_items(after.group_by),
        ),
        group_items(after.group_by) == group_items(before.group_by),
    )
    &&& if_reached(
        select_state(v, before, 4),
        optional_left(
            select_state(v, before, 4).0,
            having_expression(before.having),
            having_expression(after.having),
        ),
        having_expression(after.having) == having_expression(before.having),
    )
    &&& if_reached(
        select_state(v, before, 5),
        optional_items_left(
            select_state(v, before, 5).0,
            order_items(before.order_by),
            order_items(after.order_by),
        ),
        order_items(after.order_by) == order_items(before.order_by),
    )
    &&& if_reached(
        select_state(v, before, 6),
        limit_left(select_state(v, before, 6).0, before.limit, after.limit),
        after.limit == before.limit,
    )
}

/// What the walk leaves of a table reference.
pub open spec fn table_ref_left<V: AstVisitor>(v: V, before: TableRef, after: TableRef) -> bool
    decreases before,
{
    match (before, after) {
        (TableRef::SelectStmt(a), TableRef::SelectStmt(b)) => select_left(v, a, b),
        (TableRef::TableSource(a), TableRef::TableSource(b)) => table_ref_left(
            v,
            *a.source,
            *b.source,
        ) && a.as_name == b.as_name,
        (TableRef::TableName(a), TableRef::TableName(b)) => name_left::<V>()(v, a, b),
        (TableRef::Join(a), TableRef::Join(b)) => {
            let first = table_ref_outcome(v, *a.left);
            let second = chain(first, table_ref_outcome(first.0, *a.right));
            &&& a.join_type == b.join_type
            &&& table_ref_left(v, *a.left, *b.left)
            &&& if_reached(first, table_ref_left(first.0, *a.right, *b.right), *b.right == *a.right)
            &&& if_reached(
                second,
                optional_left(second.0, on_expression(a.on), on_expression(b.on)),
                on_expression(b.on) == on_expression(a.on),
            )
        },
        _ => false,
    }
}

/// The outcome of the walk through a statement.
pub open spec fn node_outcome<V: AstVisitor>(v: V, node: AstNode) -> (V, Result<(), RustubError>) {
    match node {
        AstNode::CreateDatabaseStmt(s) => v.create_database_seen(s),
        AstNode::DropDatabaseStmt(s) => v.drop_database_seen(s),
        AstNode::CreateTableStmt(s) => create_table_outcome(v, s),
        AstNode::DropTableStmt(s) => drop_table_outcome(v, s),
        AstNode::AlterTableStmt(s) => (v.alter_table_seen(s).0, v.alter_table_seen(s).2),
        AstNode::TruncateTableStmt(s) => (v.truncate_table_seen(s).0, v.truncate_table_seen(s).2),
        AstNode::CreateIndexStmt(s) => (v.create_index_seen(s).0, v.create_index_seen(s).2),
        AstNode::DropIndexStmt(s) => (v.drop_index_seen(s).0, v.drop_index_seen(s).2),
        AstNode::Expression(e) => expression_outcome(v, e),
        AstNode::SelectStmt(s) => select_outcome(v, s),
    }
}

/// What the walk leaves of a statement.
pub open spec fn node_left<V: AstVisitor>(v: V, before: AstNode, after: AstNode) -> bool {
    match (before, after) {
        (AstNode::CreateDatabaseStmt(a), AstNode::CreateDatabaseStmt(b)) => a == b,
        (AstNode::DropDatabaseStmt(a), AstNode::DropDatabaseStmt(b)) => a == b,
        (AstNode::CreateTableStmt(a), AstNode::CreateTableStmt(b)) => create_table_left(v, a, b),
        (AstNode::DropTableStmt(a), AstNode::DropTableStmt(b)) => drop_table_left(v, a, b),
        (AstNode::AlterTableStmt(a), AstNode::AlterTableStmt(b)) => b == v.alter_table_seen(a).1,
        (AstNode::TruncateTableStmt(a), AstNode::TruncateTableStmt(b)) => b
            == v.truncate_table_seen(a).1,
        (AstNode::CreateIndexStmt(a), AstNode::CreateIndexStmt(b)) => b == v.create_index_seen(a).1,
        (AstNode::DropIndexStmt(a), AstNode::DropIndexStmt(b)) => b == v.drop_index_seen(a).1,
        (AstNode::Expression(a), AstNode::Expression(b)) => expression_left(v, a, b),
        (AstNode::SelectStmt(a), AstNode::SelectStmt(b)) => select_left(v, a, b),
        _ => false,
    }
}

} // verus!
