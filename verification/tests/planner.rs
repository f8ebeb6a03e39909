use rustub::tiny_planner::expression::{
    BuiltinFunc, Column, Constant, Expression, IsNullFunc, ScalarFunc,
};
use rustub::tiny_planner::types::{DataBox, FieldType};

fn column(id: i64, name: &str) -> Column {
    Column { return_type: FieldType::Unspecified, original_name: name.to_string(), unique_id: id }
}

#[test]
fn columns_are_equal_by_their_unique_id() {
    let a = column(7, "a");
    assert!(a.eq_expr(&Expression::Column(column(7, "another name"))));
    assert!(!a.eq_expr(&Expression::Column(column(8, "a"))));
    assert!(!a.eq_expr(&Expression::Column(column(-7, "a"))));
}

#[test]
fn a_column_equals_no_other_kind_of_expression() {
    let a = column(7, "a");
    let constant = Expression::Constant(Constant {
        return_type: FieldType::Unspecified,
        value: DataBox::Int64(7),
    });
    assert!(!a.eq_expr(&constant));
    let float = Expression::Constant(Constant {
        return_type: FieldType::Unspecified,
        value: DataBox::Float64(7.0f64.to_bits()),
    });
    assert!(!a.eq_expr(&float));
    let function = Expression::ScalarFunc(ScalarFunc::new(
        FieldType::Unspecified,
        BuiltinFunc::IsNull(IsNullFunc {}),
    ));
    assert!(!a.eq_expr(&function));
}

#[test]
fn a_scalar_function_keeps_what_it_is_made_of() {
    let f = ScalarFunc::new(FieldType::Unspecified, BuiltinFunc::IsNull(IsNullFunc {}));
    assert!(matches!(f.return_type, FieldType::Unspecified));
    assert!(matches!(f.func, BuiltinFunc::IsNull(_)));
}
