use sixtyfps::diagnostics::{BuildDiagnostics, ConversionHint, SourceFile, SourceLocation, Span};
use sixtyfps::expression_tree::{BuiltinFunction, Expression, NamedReference, Unit};
use sixtyfps::object_tree::{Element, ElementId, ObjectTree, PropertyDeclaration, RepeatedElementInfo};
use sixtyfps::typeregister::{ObjectField, Type};

fn number(x: f64, unit: Unit) -> Expression {
    Expression::NumberLiteral(x.to_bits(), unit)
}

fn empty_tree() -> ObjectTree {
    ObjectTree { elements: vec![] }
}

fn location() -> SourceLocation {
    SourceLocation { span: Span { offset: 3 }, source_file: Some(SourceFile { path: "a.60".to_string() }) }
}

fn element(id: &str) -> Element {
    Element {
        id: id.to_string(),
        base_type_properties: vec![],
        property_declarations: vec![],
        bindings: vec![],
        children: vec![],
        repeated: None,
    }
}

#[test]
fn type_of_literals_and_operators() {
    let tree = empty_tree();
    assert!(number(1.0, Unit::Px).ty(&tree).same_type(&Type::Length));
    assert!(number(1.0, Unit::S).ty(&tree).same_type(&Type::Duration));
    assert!(Expression::StringLiteral("a".to_string()).ty(&tree).same_type(&Type::String));
    let cmp = Expression::BinaryExpression {
        lhs: Box::new(number(1.0, Unit::Unitless)),
        rhs: Box::new(number(2.0, Unit::Unitless)),
        op: '<',
    };
    assert!(cmp.ty(&tree).same_type(&Type::Bool));
    let area = Expression::BinaryExpression {
        lhs: Box::new(number(1.0, Unit::Px)),
        rhs: Box::new(number(2.0, Unit::Unitless)),
        op: '*',
    };
    assert!(area.ty(&tree).same_type(&Type::Length));
    let empty = Expression::CodeBlock(vec![]);
    assert!(empty.ty(&tree).same_type(&Type::Void));
    let cond = Expression::Condition {
        condition: Box::new(Expression::BoolLiteral(true)),
        true_expr: Box::new(number(1.0, Unit::Px)),
        false_expr: Box::new(Expression::StringLiteral("x".to_string())),
    };
    assert!(cond.ty(&tree).same_type(&Type::Invalid));
}

#[test]
fn type_of_property_reference() {
    let mut root = element("root");
    root.property_declarations.push((
        "counter".to_string(),
        PropertyDeclaration { property_type: Type::Int32 },
    ));
    root.base_type_properties.push(("width".to_string(), Type::Length));
    let tree = ObjectTree { elements: vec![root] };
    let r = |name: &str| Expression::PropertyReference(NamedReference {
        element: ElementId(0),
        name: name.to_string(),
    });
    assert!(r("counter").ty(&tree).same_type(&Type::Int32));
    assert!(r("width").ty(&tree).same_type(&Type::Length));
    assert!(r("nothing").ty(&tree).same_type(&Type::Invalid));
    assert!(tree.lookup_property(ElementId(5), &"width".to_string()).same_type(&Type::Invalid));
}

#[test]
fn type_of_repeater_model_data() {
    let mut repeated = element("rep");
    repeated.repeated = Some(RepeatedElementInfo {
        model: Expression::Cast {
            from: Box::new(Expression::Array {
                element_ty: Type::String,
                values: vec![],
            }),
            to: Type::Model,
        },
    });
    let tree = ObjectTree { elements: vec![repeated] };
    let model = Expression::RepeaterModelReference { element: ElementId(0) };
    assert!(model.ty(&tree).same_type(&Type::String));
    let index = Expression::RepeaterIndexReference { element: ElementId(0) };
    assert!(index.ty(&tree).same_type(&Type::Int32));
}

#[test]
fn same_type_is_left_alone() {
    let tree = empty_tree();
    let mut diag = BuildDiagnostics::new();
    let e = number(2.0, Unit::Px);
    let r = e.maybe_convert_to(Type::Length, &tree, &location(), &mut diag);
    assert!(matches!(r, Expression::NumberLiteral(_, Unit::Px)));
    assert!(!diag.has_error());
}

#[test]
fn length_to_logical_length_divides_by_scale_factor() {
    let tree = empty_tree();
    let mut diag = BuildDiagnostics::new();
    let r = number(2.0, Unit::Px).maybe_convert_to(Type::LogicalLength, &tree, &location(), &mut diag);
    assert!(!diag.has_error());
    match r {
        Expression::Cast { from, to } => {
            assert!(to.same_type(&Type::LogicalLength));
            match *from {
                Expression::BinaryExpression { lhs, rhs, op } => {
                    assert_eq!(op, '/');
                    assert!(matches!(*lhs, Expression::NumberLiteral(_, Unit::Px)));
                    match *rhs {
                        Expression::FunctionCall { function, arguments } => {
                            assert!(matches!(
                                *function,
                                Expression::BuiltinFunctionReference(BuiltinFunction::GetWindowScaleFactor)
                            ));
                            assert!(arguments.is_empty());
                        }
                        other => panic!("unexpected {:?}", other),
                    }
                }
                other => panic!("unexpected {:?}", other),
            }
        }
        other => panic!("unexpected {:?}", other),
    }
}

#[test]
fn logical_length_to_length_multiplies() {
    let tree = empty_tree();
    let mut diag = BuildDiagnostics::new();
    let r = number(2.0, Unit::Lx).maybe_convert_to(Type::Length, &tree, &location(), &mut diag);
    match r {
        Expression::Cast { from, to } => {
            assert!(to.same_type(&Type::Length));
            assert!(matches!(*from, Expression::BinaryExpression { op: '*', .. }));
        }
        other => panic!("unexpected {:?}", other),
    }
}

#[test]
fn number_to_string_is_a_cast() {
    let tree = empty_tree();
    let mut diag = BuildDiagnostics::new();
    let r = number(2.0, Unit::Unitless).maybe_convert_to(Type::String, &tree, &location(), &mut diag);
    match r {
        Expression::Cast { from, to } => {
            assert!(to.same_type(&Type::String));
            assert!(matches!(*from, Expression::NumberLiteral(_, Unit::Unitless)));
        }
        other => panic!("unexpected {:?}", other),
    }
    assert!(!diag.has_error());
}

#[test]
fn length_to_number_reports_divide_hint() {
    let tree = empty_tree();
    let mut diag = BuildDiagnostics::new();
    let r = number(2.0, Unit::Px).maybe_convert_to(Type::Float32, &tree, &location(), &mut diag);
    assert!(matches!(r, Expression::NumberLiteral(_, Unit::Px)));
    assert_eq!(diag.inner.len(), 1);
    let d = &diag.inner[0];
    assert!(d.from.same_type(&Type::Length));
    assert!(d.to.same_type(&Type::Float32));
    assert_eq!(d.hint, ConversionHint::DivideByUnit(Unit::Px));
    assert_eq!(d.location.span, Span { offset: 3 });
    assert_eq!(d.location.source_file.as_ref().map(|f| f.path.clone()), Some("a.60".to_string()));
}

#[test]
fn number_to_duration_reports_multiply_hint() {
    let tree = empty_tree();
    let mut diag = BuildDiagnostics::new();
    number(2.0, Unit::Unitless).maybe_convert_to(Type::Duration, &tree, &location(), &mut diag);
    assert_eq!(diag.inner.len(), 1);
    assert_eq!(diag.inner[0].hint, ConversionHint::MultiplyByUnit(Unit::Ms));
}

#[test]
fn string_to_bool_reports_plain_error() {
    let tree = empty_tree();
    let mut diag = BuildDiagnostics::new();
    Expression::StringLiteral("x".to_string()).maybe_convert_to(Type::Bool, &tree, &location(), &mut diag);
    assert_eq!(diag.inner.len(), 1);
    assert_eq!(diag.inner[0].hint, ConversionHint::NoHint);
}

#[test]
fn invalid_types_report_nothing() {
    let tree = empty_tree();
    let mut diag = BuildDiagnostics::new();
    let r = Expression::Invalid.maybe_convert_to(Type::Bool, &tree, &location(), &mut diag);
    assert!(matches!(r, Expression::Invalid));
    let r = Expression::BoolLiteral(true).maybe_convert_to(Type::Invalid, &tree, &location(), &mut diag);
    assert!(matches!(r, Expression::BoolLiteral(true)));
    assert!(!diag.has_error());
}

#[test]
fn object_literal_converts_field_by_field() {
    let tree = empty_tree();
    let mut diag = BuildDiagnostics::new();
    let from_ty = Type::Object(vec![
        ObjectField { name: "a".to_string(), ty: Type::Float32 },
        ObjectField { name: "extra".to_string(), ty: Type::Bool },
    ]);
    let target = Type::Object(vec![ObjectField { name: "a".to_string(), ty: Type::String }]);
    let literal = Expression::Object {
        ty: from_ty,
        values: vec![
            ("a".to_string(), number(1.0, Unit::Unitless)),
            ("extra".to_string(), Expression::BoolLiteral(true)),
        ],
    };
    let r = literal.maybe_convert_to(target, &tree, &location(), &mut diag);
    assert!(!diag.has_error());
    match r {
        Expression::Object { ty, values } => {
            assert!(matches!(ty, Type::Object(_)));
            assert_eq!(values.len(), 1);
            assert_eq!(values[0].0, "a");
            assert!(matches!(&values[0].1, Expression::Cast { to: Type::String, .. }));
        }
        other => panic!("unexpected {:?}", other),
    }
}

#[test]
fn object_value_converts_through_a_local_variable() {
    let tree = empty_tree();
    let mut diag = BuildDiagnostics::new();
    let from_ty = Type::Object(vec![ObjectField { name: "a".to_string(), ty: Type::Float32 }]);
    let target = Type::Object(vec![ObjectField { name: "a".to_string(), ty: Type::String }]);
    let value = Expression::ReadLocalVariable { name: "v".to_string(), ty: from_ty };
    let r = value.maybe_convert_to(target, &tree, &location(), &mut diag);
    match r {
        Expression::CodeBlock(sub) => {
            assert_eq!(sub.len(), 2);
            assert!(matches!(&sub[0], Expression::StoreLocalVariable { name, .. } if name == "tmpobj"));
            match &sub[1] {
                Expression::Object { values, .. } => {
                    assert_eq!(values.len(), 1);
                    match &values[0].1 {
                        Expression::Cast { from, to } => {
                            assert!(to.same_type(&Type::String));
                            assert!(matches!(&**from, Expression::ObjectAccess { name, .. } if name == "a"));
                        }
                        other => panic!("unexpected {:?}", other),
                    }
                }
                other => panic!("unexpected {:?}", other),
            }
        }
        other => panic!("unexpected {:?}", other),
    }
}

#[test]
fn array_literal_converts_each_value() {
    let tree = empty_tree();
    let mut diag = BuildDiagnostics::new();
    let literal = Expression::Array {
        element_ty: Type::Length,
        values: vec![number(1.0, Unit::Px), number(2.0, Unit::Px)],
    };
    let r = literal.maybe_convert_to(
        Type::Array(Box::new(Type::LogicalLength)),
        &tree,
        &location(),
        &mut diag,
    );
    assert!(!diag.has_error());
    match r {
        Expression::Array { element_ty, values } => {
            assert!(element_ty.same_type(&Type::LogicalLength));
            assert_eq!(values.len(), 2);
            for v in values.iter() {
                assert!(matches!(v, Expression::Cast { to: Type::LogicalLength, .. }));
            }
        }
        other => panic!("unexpected {:?}", other),
    }
}

#[test]
fn array_of_unconvertible_values_is_an_error() {
    let tree = empty_tree();
    let mut diag = BuildDiagnostics::new();
    let literal = Expression::Array { element_ty: Type::Bool, values: vec![Expression::BoolLiteral(true)] };
    let r = literal.maybe_convert_to(Type::Array(Box::new(Type::Length)), &tree, &location(), &mut diag);
    assert!(matches!(r, Expression::Array { .. }));
    assert_eq!(diag.inner.len(), 1);
}

#[test]
fn converting_reaches_the_target_type() {
    let tree = empty_tree();
    let mut diag = BuildDiagnostics::new();
    let r = number(1.0, Unit::Unitless).maybe_convert_to(Type::Int32, &tree, &location(), &mut diag);
    assert!(r.ty(&tree).same_type(&Type::Int32));
    let r = number(1.0, Unit::Px).maybe_convert_to(Type::LogicalLength, &tree, &location(), &mut diag);
    assert!(r.ty(&tree).same_type(&Type::LogicalLength));
    assert!(!diag.has_error());
}

#[test]
fn error_messages() {
    let tree = empty_tree();
    let mut diag = BuildDiagnostics::new();
    number(2.0, Unit::Px).maybe_convert_to(Type::Float32, &tree, &location(), &mut diag);
    number(2.0, Unit::Unitless).maybe_convert_to(Type::Duration, &tree, &location(), &mut diag);
    Expression::StringLiteral("x".to_string()).maybe_convert_to(Type::Bool, &tree, &location(), &mut diag);
    assert_eq!(
        diag.inner[0].message(),
        "Cannot convert length to float. Divide by 1px to convert to a plain number."
    );
    assert_eq!(
        diag.inner[1].message(),
        "Cannot convert float to duration. Use an unit, or multiply by 1ms to convert explicitly."
    );
    assert_eq!(diag.inner[2].message(), "Cannot convert string to bool");
}

#[test]
fn operators_that_the_type_does_not_reach_are_accepted() {
    let tree = empty_tree();
    let mut diag = BuildDiagnostics::new();
    // the condition's operator is not a binary operator, but the type of a condition
    // comes from its branches
    let cond = Expression::Condition {
        condition: Box::new(Expression::BinaryExpression {
            lhs: Box::new(number(1.0, Unit::Unitless)),
            rhs: Box::new(number(2.0, Unit::Unitless)),
            op: '?',
        }),
        true_expr: Box::new(number(1.0, Unit::Px)),
        false_expr: Box::new(number(2.0, Unit::Px)),
    };
    let r = cond.maybe_convert_to(Type::LogicalLength, &tree, &location(), &mut diag);
    assert!(matches!(r, Expression::Cast { to: Type::LogicalLength, .. }));
    assert!(!diag.has_error());
}
