use sixtyfps::typeregister::{default_unit, Enumeration, EnumerationValue, ObjectField, Type};
use sixtyfps::expression_tree::Unit;

fn enumeration() -> Enumeration {
    Enumeration {
        name: "Align".to_string(),
        values: vec!["start".to_string(), "end".to_string()],
        default_value: 0,
    }
}

#[test]
fn every_type_converts_to_itself_and_to_void() {
    let types = vec![
        Type::Float32,
        Type::Int32,
        Type::String,
        Type::Length,
        Type::Bool,
        Type::Array(Box::new(Type::Int32)),
        Type::Object(vec![ObjectField { name: "a".to_string(), ty: Type::Int32 }]),
        Type::Enumeration(enumeration()),
    ];
    for t in types.iter() {
        assert!(t.can_convert(&t.clone_type()));
        assert!(t.can_convert(&Type::Void));
        assert!(t.same_type(&t.clone_type()));
    }
}

#[test]
fn numeric_conversions() {
    assert!(Type::Float32.can_convert(&Type::Int32));
    assert!(Type::Int32.can_convert(&Type::Float32));
    assert!(Type::Float32.can_convert(&Type::String));
    assert!(Type::Int32.can_convert(&Type::Model));
    assert!(Type::Length.can_convert(&Type::LogicalLength));
    assert!(Type::LogicalLength.can_convert(&Type::Length));
    assert!(!Type::String.can_convert(&Type::Float32));
    assert!(!Type::Length.can_convert(&Type::Float32));
    assert!(!Type::Bool.can_convert(&Type::Int32));
}

#[test]
fn object_conversion_goes_by_common_fields() {
    let a = Type::Object(vec![
        ObjectField { name: "x".to_string(), ty: Type::Float32 },
        ObjectField { name: "y".to_string(), ty: Type::Bool },
    ]);
    let b = Type::Object(vec![ObjectField { name: "x".to_string(), ty: Type::String }]);
    let c = Type::Object(vec![ObjectField { name: "y".to_string(), ty: Type::Length }]);
    assert!(a.can_convert(&b));
    assert!(!a.can_convert(&c));
}

#[test]
fn default_units() {
    assert_eq!(default_unit(&Type::Duration), Some(Unit::Ms));
    assert_eq!(default_unit(&Type::Length), Some(Unit::Px));
    assert_eq!(default_unit(&Type::LogicalLength), Some(Unit::Lx));
    assert_eq!(default_unit(&Type::Float32), None);
}

#[test]
fn enumeration_values() {
    let e = enumeration();
    let v = e.clone_enumeration().default_value();
    assert_eq!(v.value, 0);
    assert_eq!(v.to_string(), "start");
    let end = EnumerationValue { value: 1, enumeration: e };
    assert_eq!(end.clone_value().to_string(), "end");
    assert!(!Type::Enumeration(enumeration()).same_type(&Type::Int32));
}

#[test]
fn types_as_written_in_messages() {
    assert_eq!(Type::Float32.to_string(), "float");
    assert_eq!(Type::LogicalLength.to_string(), "logical_length");
    assert_eq!(Type::Invalid.to_string(), "<error>");
    assert_eq!(Type::Array(Box::new(Type::Int32)).to_string(), "[int]");
    let object = Type::Object(vec![
        ObjectField { name: "a".to_string(), ty: Type::Bool },
        ObjectField { name: "b".to_string(), ty: Type::String },
    ]);
    assert_eq!(object.to_string(), "{ a: bool,b: string,}");
    let function = Type::Function { return_type: Box::new(Type::Void), args: vec![Type::Int32, Type::Length] };
    assert_eq!(function.to_string(), "function(int,length) -> void");
    assert_eq!(Type::Signal { args: vec![] }.to_string(), "signal");
    assert_eq!(Type::Signal { args: vec![Type::Bool] }.to_string(), "signal(bool)");
    assert_eq!(Type::Enumeration(enumeration()).to_string(), "enum Align");
    let v = EnumerationValue { value: 1, enumeration: enumeration() };
    assert_eq!(Type::EnumerationValue(v).to_string(), "enum Align::end");
}
