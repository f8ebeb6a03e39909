use rustub::deprecated::ast as old_ast;
use rustub::deprecated::ast::Node;
use rustub::tiny_planner::ast::{
    AlterTableStmtNode, CreateIndexStmtNode, DropIndexStmtNode, TruncateTableStmtNode,
};
use rustub::tiny_planner::ast::{
    check_count, visit, visit_expression, AggregateFunc, AggregateFuncExpr, AliasExprField,
    AstNode, BetweenExpr, BinaryOperationExpr, ByItem, CheckExpr, CheckVisitor, ColumnDef,
    ColumnOption, CreateDatabaseStmtNode, CreateTableStmtNode, DropTableStmtNode, ExpressionNode,
    FieldList, Func, FuncCallExpr, FuncExpr, GroupByClause, HavingClause, Join, JoinType, Limit,
    OnCondition, Op, OrderByClause, ParenthesesExpr, PatternInExpr, SelectField, SelectStmtNode,
    TableName, TableRef, TableSource, UnaryOperationExpr, VariableExpr, WildCardField,
};
use rustub::common::error::RustubError;

struct DdlCase {
    node: old_ast::AstNode,
    expected_enter_count: i32,
    expected_leave_count: i32,
}

impl DdlCase {
    fn new(node: old_ast::AstNode, enter: i32, leave: i32) -> Self {
        DdlCase { node, expected_enter_count: enter, expected_leave_count: leave }
    }
}

#[test]
fn ddl_visitor_cover() {
    let mut ce = old_ast::CheckExprNode::default();
    let cases = vec![
        DdlCase::new(
            old_ast::AstNode::CreateDatabaseStmt(old_ast::CreateDatabaseStmtNode::default()),
            0,
            0,
        ),
        DdlCase::new(
            old_ast::AstNode::DropDatabaseStmt(old_ast::DropDatabaseStmtNode::default()),
            0,
            0,
        ),
    ];
    let mut v = old_ast::CheckVisitor {};
    for case in cases {
        ce.reset();
        case.node.accept(&mut v);
        assert_eq!(case.expected_enter_count, ce.enter_count());
        assert_eq!(case.expected_leave_count, ce.leave_count());
    }
}

#[test]
fn check_node_counts_enter_and_leave() {
    let mut v = old_ast::CheckVisitor {};
    let node = old_ast::CheckExprNode::new();
    let (after, stop) = node.accept(&mut v);
    assert!(stop);
    match after {
        old_ast::AstNode::Expression(old_ast::ExpressionNode::Check(e)) => {
            assert_eq!(e.enter_count(), 1);
            assert_eq!(e.leave_count(), 1);
        }
        _ => panic!("a check node stays a check node"),
    }
}

#[test]
fn check_node_methods() {
    let mut node = old_ast::CheckExprNode::default();
    node.enter();
    node.enter();
    node.leave();
    assert_eq!(node.enter_count(), 2);
    assert_eq!(node.leave_count(), 1);
    node.reset();
    assert_eq!(node.enter_count(), 0);
    assert_eq!(node.leave_count(), 0);
}

#[test]
fn index_type_keyword() {
    assert_eq!(old_ast::IndexType::Invalid.into_string(), "");
    assert_eq!(old_ast::IndexType::BTree.into_string(), "BTREE");
    assert_eq!(old_ast::IndexType::Hash.into_string(), "HASH");
    assert_eq!(old_ast::IndexType::RTree.into_string(), "RTREE");
}

struct TestCase {
    node: ExpressionNode,
    expected_count: u32,
}

fn wrap_check(check: &CheckExpr) -> Box<ExpressionNode> {
    Box::new(ExpressionNode::Check(check.clone()))
}

#[test]
fn expression_visitor_cover() {
    let mut check = CheckExpr { count: 0 };
    let mut cases = vec![
        TestCase {
            node: ExpressionNode::Between(BetweenExpr {
                expr: wrap_check(&check),
                left: wrap_check(&check),
                right: wrap_check(&check),
                not: false,
            }),
            expected_count: 3,
        },
        TestCase {
            node: ExpressionNode::BinaryOperation(BinaryOperationExpr {
                op: Op::And,
                left: wrap_check(&check),
                right: wrap_check(&check),
            }),
            expected_count: 2,
        },
        TestCase {
            node: ExpressionNode::Parentheses(ParenthesesExpr { expr: wrap_check(&check) }),
            expected_count: 1,
        },
        TestCase {
            node: ExpressionNode::UnaryOperation(UnaryOperationExpr {
                op: Op::LogicAnd,
                expr: wrap_check(&check),
            }),
            expected_count: 1,
        },
        TestCase {
            node: ExpressionNode::Variable(VariableExpr {
                name: "".to_string(),
                is_global: false,
                is_system: false,
                value: wrap_check(&check),
            }),
            expected_count: 1,
        },
    ];
    let mut visitor = CheckVisitor {};
    for case in &mut cases {
        check.reset();
        assert!(visit_expression(&mut visitor, &mut case.node).is_ok());
        assert_eq!(case.expected_count as u64, check_count(&case.node));
    }
}

fn check() -> ExpressionNode {
    ExpressionNode::Check(CheckExpr { count: 0 })
}

#[test]
fn visitor_counts_in_lists_and_functions() {
    let mut visitor = CheckVisitor {};
    let mut node = ExpressionNode::PatternIn(PatternInExpr {
        expr: Box::new(check()),
        list: vec![
            check(),
            ExpressionNode::Func(FuncExpr::FuncCall(FuncCallExpr {
                func: Func::IfNull,
                args: vec![check(), check()],
            })),
            ExpressionNode::Func(FuncExpr::AggregateFunc(AggregateFuncExpr {
                func: AggregateFunc::Sum,
                args: vec![check()],
            })),
        ],
        not: true,
    });
    assert!(visit_expression(&mut visitor, &mut node).is_ok());
    assert_eq!(check_count(&node), 5);
    assert!(visit_expression(&mut visitor, &mut node).is_ok());
    assert_eq!(check_count(&node), 10);
}

#[test]
fn visitor_refuses_placeholders_and_full_counters() {
    let mut visitor = CheckVisitor {};
    let mut values = ExpressionNode::Values;
    assert!(matches!(
        visit_expression(&mut visitor, &mut values),
        Err(RustubError::UnimplementedError(_))
    ));
    let mut column = ExpressionNode::ColumnName;
    assert!(matches!(
        visit_expression(&mut visitor, &mut column),
        Err(RustubError::UnimplementedError(_))
    ));
    let mut full = ExpressionNode::Check(CheckExpr { count: u32::MAX });
    assert!(matches!(
        visit_expression(&mut visitor, &mut full),
        Err(RustubError::AstNodeVisitError(_))
    ));
    assert_eq!(check_count(&full), u32::MAX as u64);
}

#[test]
fn check_expr_reset_and_increment() {
    let mut c = CheckExpr { count: 7 };
    c.increment();
    assert_eq!(c.count, 8);
    c.reset();
    assert_eq!(c.count, 0);
}

fn by_item() -> ByItem {
    ByItem { expr: check(), desc: false }
}

#[test]
fn visitor_walks_a_select_statement() {
    let inner = SelectStmtNode {
        distinct: false,
        from: Box::new(TableRef::TableName(TableName::default())),
        whe: Some(check()),
        fields: FieldList {
            fields: vec![SelectField::WildCard(WildCardField {
                schema: "".to_string(),
                table: "t".to_string(),
            })],
        },
        group_by: None,
        having: None,
        order_by: None,
        limit: None,
    };
    let stmt = SelectStmtNode {
        distinct: true,
        from: Box::new(TableRef::Join(Join {
            left: Box::new(TableRef::TableSource(TableSource {
                source: Box::new(TableRef::SelectStmt(inner)),
                as_name: "s".to_string(),
            })),
            right: Box::new(TableRef::TableName(TableName::default())),
            join_type: JoinType::Left,
            on: Some(OnCondition { expr: check() }),
        })),
        whe: Some(check()),
        fields: FieldList {
            fields: vec![SelectField::AliasExpr(AliasExprField {
                expr: check(),
                as_name: "a".to_string(),
            })],
        },
        group_by: Some(GroupByClause { items: vec![by_item(), by_item()] }),
        having: Some(HavingClause { expr: check() }),
        order_by: Some(OrderByClause { items: vec![by_item()] }),
        limit: Some(Limit { count: Some(check()), offset: Some(check()) }),
    };
    let mut node = AstNode::SelectStmt(stmt);
    let mut visitor = CheckVisitor {};
    assert!(visit(&mut visitor, &mut node).is_ok());
    let stmt = match node {
        AstNode::SelectStmt(s) => s,
        _ => panic!("a select statement stays one"),
    };
    assert_eq!(check_count(stmt.whe.as_ref().unwrap()), 1);
    assert_eq!(check_count(&stmt.having.as_ref().unwrap().expr), 1);
    let limit = stmt.limit.as_ref().unwrap();
    assert_eq!(check_count(limit.count.as_ref().unwrap()), 1);
    assert_eq!(check_count(limit.offset.as_ref().unwrap()), 1);
    for item in &stmt.group_by.as_ref().unwrap().items {
        assert_eq!(check_count(&item.expr), 1);
    }
    assert_eq!(check_count(&stmt.order_by.as_ref().unwrap().items[0].expr), 1);
    match &stmt.fields.fields[0] {
        SelectField::AliasExpr(a) => assert_eq!(check_count(&a.expr), 1),
        _ => panic!("the field stays an alias"),
    }
    match *stmt.from {
        TableRef::Join(ref j) => {
            assert_eq!(check_count(&j.on.as_ref().unwrap().expr), 1);
            match *j.left {
                TableRef::TableSource(ref s) => match *s.source {
                    TableRef::SelectStmt(ref inner) => {
                        assert_eq!(check_count(inner.whe.as_ref().unwrap()), 1)
                    }
                    _ => panic!("the source stays a select statement"),
                },
                _ => panic!("the left side stays a source"),
            }
        }
        _ => panic!("the reference stays a join"),
    }
}

#[test]
fn visitor_walks_table_statements() {
    let mut visitor = CheckVisitor {};
    let mut create = AstNode::CreateTableStmt(CreateTableStmtNode {
        if_not_exists: true,
        is_temporary: false,
        table: TableName::default(),
        refer_table: Some(TableName::default()),
        columns: vec![ColumnDef {
            name: Default::default(),
            field_type: Default::default(),
            options: vec![
                ColumnOption::NotNull,
                ColumnOption::DefaultValue(check()),
                ColumnOption::OnUpdate(check()),
                ColumnOption::Generated(check()),
            ],
        }],
        constraints: vec![],
    });
    assert!(visit(&mut visitor, &mut create).is_ok());
    match create {
        AstNode::CreateTableStmt(s) => {
            let mut total = 0;
            for option in &s.columns[0].options {
                match option {
                    ColumnOption::DefaultValue(e)
                    | ColumnOption::OnUpdate(e)
                    | ColumnOption::Generated(e) => total += check_count(e),
                    _ => {}
                }
            }
            assert_eq!(total, 3);
        }
        _ => panic!("a create table statement stays one"),
    }
    let mut drop = AstNode::DropTableStmt(DropTableStmtNode {
        if_exists: false,
        tables: vec![TableName::default(), TableName::default()],
        is_view: false,
        is_temporary: false,
    });
    assert!(visit(&mut visitor, &mut drop).is_ok());
    let mut database = AstNode::CreateDatabaseStmt(CreateDatabaseStmtNode::default());
    assert!(visit(&mut visitor, &mut database).is_ok());
}

#[test]
fn visitor_refuses_statements_without_content() {
    let mut visitor = CheckVisitor {};
    let mut nodes = vec![
        AstNode::AlterTableStmt(AlterTableStmtNode {}),
        AstNode::TruncateTableStmt(TruncateTableStmtNode {}),
        AstNode::CreateIndexStmt(CreateIndexStmtNode {}),
        AstNode::DropIndexStmt(DropIndexStmtNode {}),
    ];
    for node in &mut nodes {
        assert!(matches!(visit(&mut visitor, node), Err(RustubError::UnimplementedError(_))));
    }
}

/// A visitor with a way of its own: it collects the names of the tables
/// that it meets and renames them.
struct NameCollector {
    names: Vec<String>,
}

impl rustub::tiny_planner::ast::AstVisitor for NameCollector {
    fn visit_table_name(&mut self, name: &mut TableName) -> Result<(), RustubError> {
        self.names.push(name.name.clone());
        name.name.push_str("_seen");
        Ok(())
    }

    fn visit_check_expr(&mut self, _check: &mut CheckExpr) -> Result<(), RustubError> {
        Err(RustubError::AstNodeVisitError("no check expressions, please"))
    }
    fn visit_create_database_stmt(
        &mut self,
        _node: &CreateDatabaseStmtNode,
    ) -> Result<(), RustubError> {
        Ok(())
    }

    fn visit_drop_database_stmt(
        &mut self,
        _node: &rustub::tiny_planner::ast::DropDatabaseStmtNode,
    ) -> Result<(), RustubError> {
        Ok(())
    }

    fn visit_column_name(
        &mut self,
        _col: &rustub::tiny_planner::ast::ColumnName,
    ) -> Result<(), RustubError> {
        Ok(())
    }

    fn visit_table_constraint(
        &mut self,
        _constraint: &mut rustub::tiny_planner::ast::TableConstraint,
    ) -> Result<(), RustubError> {
        Ok(())
    }

    fn visit_alter_table_stmt(&mut self, _stmt: &mut AlterTableStmtNode) -> Result<(), RustubError> {
        Ok(())
    }

    fn visit_truncate_table_stmt(
        &mut self,
        _stmt: &mut TruncateTableStmtNode,
    ) -> Result<(), RustubError> {
        Ok(())
    }

    fn visit_create_index_stmt(
        &mut self,
        _stmt: &mut CreateIndexStmtNode,
    ) -> Result<(), RustubError> {
        Ok(())
    }

    fn visit_drop_index_stmt(&mut self, _stmt: &mut DropIndexStmtNode) -> Result<(), RustubError> {
        Ok(())
    }

    fn visit_select_wildcard_field(
        &mut self,
        _field: &mut WildCardField,
    ) -> Result<(), RustubError> {
        Ok(())
    }
}

fn named(name: &str) -> TableName {
    TableName { schema: "".to_string(), name: name.to_string(), partition_names: vec![] }
}

#[test]
fn a_visitor_with_its_own_hooks_is_called_in_order() {
    let mut collector = NameCollector { names: vec![] };
    let mut node = AstNode::DropTableStmt(DropTableStmtNode {
        if_exists: true,
        tables: vec![named("a"), named("b"), named("c")],
        is_view: false,
        is_temporary: false,
    });
    assert!(visit(&mut collector, &mut node).is_ok());
    assert_eq!(collector.names, vec!["a", "b", "c"]);
    match &node {
        AstNode::DropTableStmt(s) => assert_eq!(s.tables[2].name, "c_seen"),
        _ => panic!("a drop table statement stays one"),
    }
    let mut expression = ExpressionNode::Parentheses(ParenthesesExpr { expr: Box::new(check()) });
    assert!(matches!(
        visit_expression(&mut collector, &mut expression),
        Err(RustubError::AstNodeVisitError(_))
    ));
    assert_eq!(check_count(&expression), 0);
}

/// A visitor of the older trees that counts how often it was asked.
struct Tally {
    entered: std::cell::Cell<u32>,
    left: std::cell::Cell<u32>,
}

impl old_ast::Visitor for Tally {
    fn enter(&self, node: old_ast::AstNode) -> (old_ast::AstNode, bool) {
        self.entered.set(self.entered.get() + 1);
        (node, false)
    }

    fn leave(&self, node: old_ast::AstNode) -> (old_ast::AstNode, bool) {
        self.left.set(self.left.get() + 1);
        (node, false)
    }
}

#[test]
fn every_node_is_entered_and_left_once() {
    let mut tally = Tally { entered: std::cell::Cell::new(0), left: std::cell::Cell::new(0) };
    let (node, stop) = old_ast::CreateDatabaseStmtNode::default().accept(&mut tally);
    assert!(!stop);
    assert!(matches!(node, old_ast::AstNode::CreateDatabaseStmt(_)));
    let (node, _) = node.accept(&mut tally);
    assert!(matches!(node, old_ast::AstNode::CreateDatabaseStmt(_)));
    let (node, _) = old_ast::DropDatabaseStmtNode::default().accept(&mut tally);
    assert!(matches!(node, old_ast::AstNode::DropDatabaseStmt(_)));
    let (node, _) = old_ast::CheckExprNode::new().accept(&mut tally);
    assert!(matches!(node, old_ast::AstNode::Expression(_)));
    assert_eq!(tally.entered.get(), 4);
    assert_eq!(tally.left.get(), 4);
}

#[test]
fn a_plain_visitor_names_the_statement_that_it_refuses() {
    let mut visitor = CheckVisitor {};
    let cases = vec![
        (AstNode::AlterTableStmt(AlterTableStmtNode {}), "alter table statement"),
        (AstNode::TruncateTableStmt(TruncateTableStmtNode {}), "truncate table statement"),
        (AstNode::CreateIndexStmt(CreateIndexStmtNode {}), "create index statement"),
        (AstNode::DropIndexStmt(DropIndexStmtNode {}), "drop index statement"),
    ];
    for (mut node, statement) in cases {
        match visit(&mut visitor, &mut node) {
            Err(RustubError::UnimplementedError(what)) => assert_eq!(what, statement),
            _ => panic!("a statement without content is refused"),
        }
    }
    let mut alter = AlterTableStmtNode {};
    match rustub::tiny_planner::ast::AstVisitor::visit_alter_table_stmt(&mut visitor, &mut alter) {
        Err(e) => assert_eq!(e.to_string(), "Not Implemented :: alter table statement"),
        Ok(()) => panic!("a statement without content is refused"),
    }
}

/// A visitor that refuses every table name and counts how often it was asked.
struct Refuser {
    asked: u32,
}

impl rustub::tiny_planner::ast::AstVisitor for Refuser {
    fn visit_table_name(&mut self, _name: &mut TableName) -> Result<(), RustubError> {
        self.asked += 1;
        Err(RustubError::AstNodeVisitError("no table names, please"))
    }
    fn visit_check_expr(&mut self, check: &mut CheckExpr) -> Result<(), RustubError> {
        self.asked += 1;
        check.count += 10;
        Ok(())
    }

    fn visit_create_database_stmt(
        &mut self,
        _node: &CreateDatabaseStmtNode,
    ) -> Result<(), RustubError> {
        Ok(())
    }

    fn visit_drop_database_stmt(
        &mut self,
        _node: &rustub::tiny_planner::ast::DropDatabaseStmtNode,
    ) -> Result<(), RustubError> {
        Ok(())
    }

    fn visit_column_name(
        &mut self,
        _col: &rustub::tiny_planner::ast::ColumnName,
    ) -> Result<(), RustubError> {
        Ok(())
    }

    fn visit_table_constraint(
        &mut self,
        _constraint: &mut rustub::tiny_planner::ast::TableConstraint,
    ) -> Result<(), RustubError> {
        Ok(())
    }

    fn visit_alter_table_stmt(&mut self, _stmt: &mut AlterTableStmtNode) -> Result<(), RustubError> {
        Ok(())
    }

    fn visit_truncate_table_stmt(
        &mut self,
        _stmt: &mut TruncateTableStmtNode,
    ) -> Result<(), RustubError> {
        Ok(())
    }

    fn visit_create_index_stmt(
        &mut self,
        _stmt: &mut CreateIndexStmtNode,
    ) -> Result<(), RustubError> {
        Ok(())
    }

    fn visit_drop_index_stmt(&mut self, _stmt: &mut DropIndexStmtNode) -> Result<(), RustubError> {
        Ok(())
    }

    fn visit_select_wildcard_field(
        &mut self,
        _field: &mut WildCardField,
    ) -> Result<(), RustubError> {
        Ok(())
    }
}

#[test]
fn a_drop_table_walk_hands_out_the_names_only() {
    let mut refuser = Refuser { asked: 0 };
    let mut empty = DropTableStmtNode {
        if_exists: true,
        tables: vec![],
        is_view: true,
        is_temporary: false,
    };
    assert!(rustub::tiny_planner::ast::visit_drop_table_stmt(&mut refuser, &mut empty).is_ok());
    assert_eq!(refuser.asked, 0);
    let mut two = DropTableStmtNode {
        if_exists: true,
        tables: vec![named("a"), named("b")],
        is_view: false,
        is_temporary: true,
    };
    assert!(matches!(
        rustub::tiny_planner::ast::visit_drop_table_stmt(&mut refuser, &mut two),
        Err(RustubError::AstNodeVisitError(_))
    ));
    // the walk ends at the first name that is refused
    assert_eq!(refuser.asked, 1);
    assert_eq!(two.tables.len(), 2);
    assert!(two.if_exists && !two.is_view && two.is_temporary);

    let mut plain = CheckVisitor {};
    assert!(rustub::tiny_planner::ast::visit_drop_table_stmt(&mut plain, &mut two).is_ok());
    assert_eq!(two.tables[0].name, "a");
    assert_eq!(two.tables[1].name, "b");
}

/// A visitor that writes down the order in which it is called and fails
/// at the call with a given number.
struct Recorder {
    calls: Vec<String>,
    fail_at: usize,
}

impl Recorder {
    fn call(&mut self, what: &str) -> Result<(), RustubError> {
        self.calls.push(what.to_string());
        if self.calls.len() == self.fail_at {
            Err(RustubError::AstNodeVisitError("stop here"))
        } else {
            Ok(())
        }
    }
}

impl rustub::tiny_planner::ast::AstVisitor for Recorder {
    fn visit_create_database_stmt(
        &mut self,
        _node: &CreateDatabaseStmtNode,
    ) -> Result<(), RustubError> {
        self.call("create database")
    }

    fn visit_drop_database_stmt(
        &mut self,
        _node: &rustub::tiny_planner::ast::DropDatabaseStmtNode,
    ) -> Result<(), RustubError> {
        self.call("drop database")
    }

    fn visit_table_name(&mut self, name: &mut TableName) -> Result<(), RustubError> {
        let what = format!("table {}", name.name);
        self.call(&what)
    }

    fn visit_column_name(
        &mut self,
        col: &rustub::tiny_planner::ast::ColumnName,
    ) -> Result<(), RustubError> {
        let what = format!("column {}", col.name);
        self.call(&what)
    }

    fn visit_table_constraint(
        &mut self,
        _constraint: &mut rustub::tiny_planner::ast::TableConstraint,
    ) -> Result<(), RustubError> {
        self.call("constraint")
    }

    fn visit_alter_table_stmt(&mut self, _stmt: &mut AlterTableStmtNode) -> Result<(), RustubError> {
        self.call("alter table")
    }

    fn visit_truncate_table_stmt(
        &mut self,
        _stmt: &mut TruncateTableStmtNode,
    ) -> Result<(), RustubError> {
        self.call("truncate table")
    }

    fn visit_create_index_stmt(
        &mut self,
        _stmt: &mut CreateIndexStmtNode,
    ) -> Result<(), RustubError> {
        self.call("create index")
    }

    fn visit_drop_index_stmt(&mut self, _stmt: &mut DropIndexStmtNode) -> Result<(), RustubError> {
        self.call("drop index")
    }

    fn visit_check_expr(&mut self, check: &mut CheckExpr) -> Result<(), RustubError> {
        let what = format!("check {}", check.count);
        check.count += 100;
        self.call(&what)
    }

    fn visit_select_wildcard_field(
        &mut self,
        field: &mut WildCardField,
    ) -> Result<(), RustubError> {
        let what = format!("wildcard {}", field.table);
        self.call(&what)
    }
}

fn numbered(n: u32) -> ExpressionNode {
    ExpressionNode::Check(CheckExpr { count: n })
}

fn select_with_every_clause() -> SelectStmtNode {
    SelectStmtNode {
        distinct: false,
        from: Box::new(TableRef::Join(Join {
            left: Box::new(TableRef::TableName(named("l"))),
            right: Box::new(TableRef::TableName(named("r"))),
            join_type: JoinType::Cross,
            on: Some(OnCondition { expr: numbered(2) }),
        })),
        whe: Some(numbered(3)),
        fields: FieldList {
            fields: vec![
                SelectField::WildCard(WildCardField {
                    schema: "".to_string(),
                    table: "w".to_string(),
                }),
                SelectField::AliasExpr(AliasExprField { expr: numbered(1), as_name: "a".to_string() }),
            ],
        },
        group_by: Some(GroupByClause {
            items: vec![
                ByItem { expr: numbered(4), desc: false },
                ByItem { expr: numbered(5), desc: true },
            ],
        }),
        having: Some(HavingClause { expr: numbered(6) }),
        order_by: Some(OrderByClause { items: vec![ByItem { expr: numbered(7), desc: false }] }),
        limit: Some(Limit { count: Some(numbered(8)), offset: Some(numbered(9)) }),
    }
}

#[test]
fn the_clauses_of_a_select_statement_are_walked_in_their_order() {
    let mut recorder = Recorder { calls: vec![], fail_at: 0 };
    let mut stmt = select_with_every_clause();
    assert!(rustub::tiny_planner::ast::visit_select_stmt(&mut recorder, &mut stmt).is_ok());
    assert_eq!(
        recorder.calls,
        vec![
            "wildcard w",
            "check 1",
            "table l",
            "table r",
            "check 2",
            "check 3",
            "check 4",
            "check 5",
            "check 6",
            "check 7",
            "check 8",
            "check 9",
        ]
    );
}

#[test]
fn absent_clauses_of_a_select_statement_are_passed() {
    let mut recorder = Recorder { calls: vec![], fail_at: 0 };
    let mut stmt = select_with_every_clause();
    stmt.whe = None;
    stmt.group_by = None;
    stmt.order_by = None;
    stmt.limit = Some(Limit { count: None, offset: Some(numbered(9)) });
    assert!(rustub::tiny_planner::ast::visit_select_stmt(&mut recorder, &mut stmt).is_ok());
    assert_eq!(
        recorder.calls,
        vec!["wildcard w", "check 1", "table l", "table r", "check 2", "check 6", "check 9"]
    );
}

#[test]
fn the_first_failure_ends_the_walk_and_is_its_result() {
    for fail_at in 1..=12 {
        let mut recorder = Recorder { calls: vec![], fail_at };
        let mut stmt = select_with_every_clause();
        match rustub::tiny_planner::ast::visit_select_stmt(&mut recorder, &mut stmt) {
            Err(RustubError::AstNodeVisitError(what)) => assert_eq!(what, "stop here"),
            _ => panic!("the failure of the visitor is the result of the walk"),
        }
        // no call follows the one that failed
        assert_eq!(recorder.calls.len(), fail_at);
    }
    let mut recorder = Recorder { calls: vec![], fail_at: 6 };
    let mut stmt = select_with_every_clause();
    assert!(rustub::tiny_planner::ast::visit_select_stmt(&mut recorder, &mut stmt).is_err());
    // what the walk got to is changed, what lies behind the failure is not
    assert_eq!(check_count(stmt.whe.as_ref().unwrap()), 103);
    assert_eq!(check_count(&stmt.having.as_ref().unwrap().expr), 6);
    assert_eq!(check_count(&stmt.group_by.as_ref().unwrap().items[0].expr), 4);
}

#[test]
fn a_create_table_statement_is_walked_in_its_order() {
    let mut recorder = Recorder { calls: vec![], fail_at: 0 };
    let mut node = AstNode::CreateTableStmt(CreateTableStmtNode {
        if_not_exists: false,
        is_temporary: false,
        table: named("t"),
        refer_table: Some(named("u")),
        columns: vec![
            ColumnDef {
                name: rustub::tiny_planner::ast::ColumnName {
                    schema: "".to_string(),
                    table: "".to_string(),
                    name: "c1".to_string(),
                },
                field_type: Default::default(),
                options: vec![ColumnOption::DefaultValue(numbered(1)), ColumnOption::NotNull],
            },
            ColumnDef {
                name: rustub::tiny_planner::ast::ColumnName {
                    schema: "".to_string(),
                    table: "".to_string(),
                    name: "c2".to_string(),
                },
                field_type: Default::default(),
                options: vec![ColumnOption::Generated(numbered(2))],
            },
        ],
        constraints: vec![
            rustub::tiny_planner::ast::TableConstraint::PrimaryKey,
            rustub::tiny_planner::ast::TableConstraint::Uniq,
        ],
    });
    assert!(visit(&mut recorder, &mut node).is_ok());
    assert_eq!(
        recorder.calls,
        vec![
            "table t",
            "table u",
            "column c1",
            "check 1",
            "column c2",
            "check 2",
            "constraint",
            "constraint",
        ]
    );
}
