use sixtyfps::diagnostics::{SourceFile, Span, SyntaxNodeWithSourceFile};
use sixtyfps::expression_tree::{
    operator_class, BuiltinFunction, EasingCurve, Expression, ExpressionSpanned, NamedReference,
    OperatorClass, Path, PathElement, Unit,
};
use sixtyfps::object_tree::ElementId;
use sixtyfps::typeregister::{Enumeration, ObjectField, Type};

fn number(x: f64, unit: Unit) -> Expression {
    Expression::NumberLiteral(x.to_bits(), unit)
}

fn string(s: &str) -> Expression {
    Expression::StringLiteral(s.to_string())
}

fn property(element: usize, name: &str) -> Expression {
    Expression::PropertyReference(NamedReference {
        element: ElementId(element),
        name: name.to_string(),
    })
}

#[test]
fn operator_class_of_each_operator() {
    for op in ['=', '!', '<', '>', '≤', '≥'] {
        assert_eq!(operator_class(op), OperatorClass::ComparisonOp);
    }
    for op in ['&', '|'] {
        assert_eq!(operator_class(op), OperatorClass::LogicalOp);
    }
    for op in ['+', '-', '/', '*'] {
        assert_eq!(operator_class(op), OperatorClass::ArithmeticOp);
    }
}

#[test]
fn builtin_function_types() {
    match BuiltinFunction::GetWindowScaleFactor.ty() {
        Type::Function { return_type, args } => {
            assert!(return_type.same_type(&Type::Float32));
            assert!(args.is_empty());
        }
        other => panic!("unexpected {:?}", other),
    }
    match BuiltinFunction::Debug.ty() {
        Type::Function { return_type, args } => {
            assert!(return_type.same_type(&Type::Void));
            assert_eq!(args.len(), 1);
            assert!(args[0].same_type(&Type::String));
        }
        other => panic!("unexpected {:?}", other),
    }
    match BuiltinFunction::SetFocusItem.ty() {
        Type::Function { return_type, args } => {
            assert!(return_type.same_type(&Type::Void));
            assert_eq!(args.len(), 1);
            assert!(args[0].same_type(&Type::ElementReference));
        }
        other => panic!("unexpected {:?}", other),
    }
}

#[test]
fn unit_types() {
    assert!(Unit::Unitless.ty().same_type(&Type::Float32));
    assert!(Unit::Percent.ty().same_type(&Type::Float32));
    assert!(Unit::Px.ty().same_type(&Type::Length));
    assert!(Unit::Lx.ty().same_type(&Type::LogicalLength));
    assert!(Unit::Cm.ty().same_type(&Type::LogicalLength));
    assert!(Unit::Mm.ty().same_type(&Type::LogicalLength));
    assert!(Unit::In.ty().same_type(&Type::LogicalLength));
    assert!(Unit::Pt.ty().same_type(&Type::LogicalLength));
    assert!(Unit::S.ty().same_type(&Type::Duration));
    assert!(Unit::Ms.ty().same_type(&Type::Duration));
}

#[test]
fn unit_strings_read_back() {
    let all = [
        Unit::Unitless,
        Unit::Percent,
        Unit::Px,
        Unit::Lx,
        Unit::Cm,
        Unit::Mm,
        Unit::In,
        Unit::Pt,
        Unit::S,
        Unit::Ms,
    ];
    let written: Vec<String> = all.iter().map(|u| u.to_string()).collect();
    assert_eq!(written, vec!["", "%", "px", "lx", "cm", "mm", "in", "pt", "s", "ms"]);
    for u in all.iter() {
        assert_eq!(Unit::parse(&u.to_string()), Some(*u));
        assert_eq!(u.to_string().parse::<Unit>(), Ok(*u));
    }
    assert_eq!(Unit::parse("kg"), None);
    assert_eq!("PX".parse::<Unit>(), Err(()));
}

#[test]
fn defaults() {
    assert_eq!(Unit::default(), Unit::Unitless);
    assert_eq!(EasingCurve::default(), EasingCurve::Linear);
    assert!(matches!(Expression::default(), Expression::Invalid));
}

#[test]
fn literals_are_constant() {
    assert!(string("hello").is_constant());
    assert!(number(1.0, Unit::Px).is_constant());
    assert!(Expression::BoolLiteral(true).is_constant());
    assert!(Expression::Invalid.is_constant());
    assert!(Expression::EasingCurve(EasingCurve::Linear).is_constant());
}

#[test]
fn references_are_not_constant() {
    assert!(!property(0, "width").is_constant());
    assert!(!Expression::ElementReference(ElementId(0)).is_constant());
    assert!(!Expression::RepeaterIndexReference { element: ElementId(0) }.is_constant());
    assert!(!Expression::FunctionCall {
        function: Box::new(Expression::BuiltinFunctionReference(BuiltinFunction::Debug)),
        arguments: vec![],
    }
    .is_constant());
}

#[test]
fn composite_constness() {
    let sum = Expression::BinaryExpression {
        lhs: Box::new(number(1.0, Unit::Unitless)),
        rhs: Box::new(number(2.0, Unit::Unitless)),
        op: '+',
    };
    assert!(sum.is_constant());
    let with_ref = Expression::BinaryExpression {
        lhs: Box::new(number(1.0, Unit::Unitless)),
        rhs: Box::new(property(1, "x")),
        op: '+',
    };
    assert!(!with_ref.is_constant());
    // a cast to a length depends on the window's scale factor
    let to_length = Expression::Cast { from: Box::new(number(1.0, Unit::Unitless)), to: Type::Length };
    assert!(!to_length.is_constant());
    let to_string = Expression::Cast { from: Box::new(number(1.0, Unit::Unitless)), to: Type::String };
    assert!(to_string.is_constant());
    let one = Expression::CodeBlock(vec![string("a")]);
    assert!(one.is_constant());
    let two = Expression::CodeBlock(vec![string("a"), string("b")]);
    assert!(!two.is_constant());
    let array = Expression::Array {
        element_ty: Type::String,
        values: vec![string("a"), string("b")],
    };
    assert!(array.is_constant());
    let object = Expression::Object {
        ty: Type::Invalid,
        values: vec![("a".to_string(), string("x")), ("b".to_string(), property(0, "y"))],
    };
    assert!(!object.is_constant());
}

#[test]
fn default_values_for_types() {
    match Expression::default_value_for_type(&Type::Float32) {
        Expression::NumberLiteral(bits, Unit::Unitless) => assert_eq!(f64::from_bits(bits), 0.0),
        other => panic!("unexpected {:?}", other),
    }
    match Expression::default_value_for_type(&Type::Length) {
        Expression::NumberLiteral(bits, Unit::Px) => assert_eq!(f64::from_bits(bits), 0.0),
        other => panic!("unexpected {:?}", other),
    }
    match Expression::default_value_for_type(&Type::Duration) {
        Expression::NumberLiteral(_, Unit::Ms) => {}
        other => panic!("unexpected {:?}", other),
    }
    match Expression::default_value_for_type(&Type::String) {
        Expression::StringLiteral(s) => assert_eq!(s, ""),
        other => panic!("unexpected {:?}", other),
    }
    assert!(matches!(
        Expression::default_value_for_type(&Type::Bool),
        Expression::BoolLiteral(false)
    ));
    assert!(matches!(Expression::default_value_for_type(&Type::Void), Expression::Invalid));
    assert!(matches!(Expression::default_value_for_type(&Type::Model), Expression::Invalid));
    match Expression::default_value_for_type(&Type::Color) {
        Expression::Cast { from, to } => {
            assert!(matches!(*from, Expression::NumberLiteral(_, Unit::Unitless)));
            assert!(to.same_type(&Type::Color));
        }
        other => panic!("unexpected {:?}", other),
    }
    let e = Enumeration {
        name: "TextAlign".to_string(),
        values: vec!["left".to_string(), "center".to_string()],
        default_value: 1,
    };
    match Expression::default_value_for_type(&Type::Enumeration(e)) {
        Expression::EnumerationValue(v) => {
            assert_eq!(v.value, 1);
            assert_eq!(v.to_string(), "center");
        }
        other => panic!("unexpected {:?}", other),
    }
}

#[test]
fn default_value_of_object_type() {
    let ty = Type::Object(vec![
        ObjectField { name: "a".to_string(), ty: Type::Int32 },
        ObjectField { name: "b".to_string(), ty: Type::String },
    ]);
    let d = Expression::default_value_for_type(&ty);
    assert!(d.is_constant());
    match d {
        Expression::Object { ty: t, values } => {
            assert!(t.same_type(&ty));
            assert_eq!(values.len(), 2);
            assert_eq!(values[0].0, "a");
            assert!(matches!(values[0].1, Expression::NumberLiteral(_, Unit::Unitless)));
            assert_eq!(values[1].0, "b");
            assert!(matches!(values[1].1, Expression::StringLiteral(_)));
        }
        other => panic!("unexpected {:?}", other),
    }
    let arr = Expression::default_value_for_type(&Type::Array(Box::new(Type::Bool)));
    match arr {
        Expression::Array { element_ty, values } => {
            assert!(element_ty.same_type(&Type::Bool));
            assert!(values.is_empty());
        }
        other => panic!("unexpected {:?}", other),
    }
}

#[test]
fn visit_lists_direct_sub_expressions_in_order() {
    let e = Expression::Condition {
        condition: Box::new(Expression::BoolLiteral(true)),
        true_expr: Box::new(string("yes")),
        false_expr: Box::new(string("no")),
    };
    let subs = e.visit();
    assert_eq!(subs.len(), 3);
    assert!(matches!(subs[0], Expression::BoolLiteral(true)));
    assert!(matches!(subs[1], Expression::StringLiteral(s) if s == "yes"));
    assert!(matches!(subs[2], Expression::StringLiteral(s) if s == "no"));

    let call = Expression::FunctionCall {
        function: Box::new(Expression::BuiltinFunctionReference(BuiltinFunction::Debug)),
        arguments: vec![string("a"), string("b")],
    };
    assert_eq!(call.visit().len(), 3);
    assert!(string("leaf").visit().is_empty());
    // the visit does not recurse
    let nested = Expression::UnaryOp { sub: Box::new(Expression::UnaryOp {
        sub: Box::new(number(1.0, Unit::Unitless)),
        op: '-',
    }), op: '-' };
    assert_eq!(nested.visit().len(), 1);
}

#[test]
fn visit_of_path_elements_lists_bindings() {
    let element = PathElement {
        element_type: "LineTo".to_string(),
        bindings: vec![
            ("x".to_string(), ExpressionSpanned::from(number(1.0, Unit::Unitless))),
            ("y".to_string(), ExpressionSpanned::from(number(2.0, Unit::Unitless))),
        ],
    };
    let e = Expression::PathElements { elements: Path::Elements(vec![element]) };
    assert_eq!(e.visit().len(), 2);
    let events = Expression::PathElements { elements: Path::Events(vec![]) };
    assert!(events.visit().is_empty());
}

#[test]
fn visit_mut_replaces_each_direct_sub_expression() {
    let mut e = Expression::BinaryExpression {
        lhs: Box::new(number(1.0, Unit::Unitless)),
        rhs: Box::new(number(2.0, Unit::Unitless)),
        op: '+',
    };
    e.visit_mut(|sub| Expression::Cast { from: Box::new(sub), to: Type::String });
    match e {
        Expression::BinaryExpression { lhs, rhs, op } => {
            assert_eq!(op, '+');
            assert!(matches!(*lhs, Expression::Cast { .. }));
            assert!(matches!(*rhs, Expression::Cast { .. }));
        }
        other => panic!("unexpected {:?}", other),
    }
}

#[test]
fn visit_mut_keeps_names_and_order() {
    let mut e = Expression::Object {
        ty: Type::Invalid,
        values: vec![("a".to_string(), string("1")), ("b".to_string(), string("2"))],
    };
    e.visit_mut(|sub| match sub {
        Expression::StringLiteral(s) => Expression::StringLiteral(format!("{}!", s)),
        other => other,
    });
    match e {
        Expression::Object { values, .. } => {
            assert_eq!(values[0].0, "a");
            assert!(matches!(&values[0].1, Expression::StringLiteral(s) if s == "1!"));
            assert_eq!(values[1].0, "b");
            assert!(matches!(&values[1].1, Expression::StringLiteral(s) if s == "2!"));
        }
        other => panic!("unexpected {:?}", other),
    }
    let mut leaf = string("x");
    leaf.visit_mut(|_| Expression::Invalid);
    assert!(matches!(leaf, Expression::StringLiteral(s) if s == "x"));
}

#[test]
fn visit_mut_reaches_path_bindings() {
    let element = PathElement {
        element_type: "ArcTo".to_string(),
        bindings: vec![("radius".to_string(), ExpressionSpanned::from(property(2, "r")))],
    };
    let mut e = Expression::PathElements { elements: Path::Elements(vec![element]) };
    e.visit_mut(|_| number(5.0, Unit::Unitless));
    assert!(e.is_constant());
}

#[test]
fn expression_spanned_locations() {
    let plain = ExpressionSpanned::from(Expression::Invalid);
    assert!(plain.source_file().is_none());
    assert_eq!(plain.span(), Span { offset: 0 });

    let node = SyntaxNodeWithSourceFile {
        span: Span { offset: 42 },
        source_file: Some(SourceFile { path: "main.60".to_string() }),
    };
    let spanned = ExpressionSpanned::new_uncompiled(node);
    assert_eq!(spanned.span(), Span { offset: 42 });
    assert_eq!(spanned.source_file().map(|f| f.path.clone()), Some("main.60".to_string()));
    assert!(matches!(spanned.expression, Expression::Uncompiled(_)));

    let orphan = SyntaxNodeWithSourceFile { span: Span { offset: 7 }, source_file: None };
    let spanned = ExpressionSpanned::new_uncompiled(orphan);
    assert!(spanned.source_file().is_none());
    assert_eq!(spanned.span(), Span { offset: 0 });
}

#[test]
fn named_references_compare_by_element_and_name() {
    let a = NamedReference { element: ElementId(1), name: "x".to_string() };
    let b = NamedReference { element: ElementId(1), name: "x".to_string() };
    let c = NamedReference { element: ElementId(2), name: "x".to_string() };
    let d = NamedReference { element: ElementId(1), name: "y".to_string() };
    assert!(a == b);
    assert!(a != c);
    assert!(a != d);
}

#[test]
fn identity_visitor_changes_nothing() {
    let mut e = Expression::FunctionCall {
        function: Box::new(Expression::BuiltinFunctionReference(BuiltinFunction::Debug)),
        arguments: vec![string("a"), number(3.0, Unit::Cm)],
    };
    let before = format!("{:?}", e);
    e.visit_mut(|sub| sub);
    assert_eq!(format!("{:?}", e), before);
}

#[test]
fn visit_and_visit_mut_see_the_same_sub_expressions() {
    let mut e = Expression::Condition {
        condition: Box::new(Expression::BoolLiteral(false)),
        true_expr: Box::new(string("t")),
        false_expr: Box::new(number(1.0, Unit::S)),
    };
    let seen_by_visit: Vec<String> = e.visit().iter().map(|s| format!("{:?}", s)).collect();
    let seen_by_visit_mut = std::cell::RefCell::new(Vec::new());
    e.visit_mut(|sub| {
        seen_by_visit_mut.borrow_mut().push(format!("{:?}", sub));
        sub
    });
    assert_eq!(seen_by_visit, seen_by_visit_mut.into_inner());
}

#[test]
fn default_values_have_their_type() {
    let tree = sixtyfps::object_tree::ObjectTree { elements: vec![] };
    for t in [Type::Float32, Type::String, Type::Color, Type::Duration, Type::Length, Type::Bool, Type::Easing] {
        let d = Expression::default_value_for_type(&t);
        assert!(d.ty(&tree).same_type(&t), "{:?}", t);
    }
    // the default value of an integer is a plain number literal
    let d = Expression::default_value_for_type(&Type::Int32);
    assert!(d.ty(&tree).same_type(&Type::Float32));
}
