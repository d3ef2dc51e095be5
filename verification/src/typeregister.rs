//! The types of the `.60` language and the rules of implicit conversion between them.

use vstd::prelude::*;

use crate::expression_tree::Unit;
use crate::object_tree::ElementId;

verus! {

/// An enumeration declared by the run-time, such as `TextHorizontalAlignment`.
#[derive(Debug)]
pub struct Enumeration {
    pub name: String,
    pub values: Vec<String>,
    /// Index in `values` of the value that a property of this type starts with.
    pub default_value: usize,
}

/// One value of an enumeration.
#[derive(Debug)]
pub struct EnumerationValue {
    /// Index in `enumeration.values`.
    pub value: usize,
    pub enumeration: Enumeration,
}

/// A named field of an object type.
#[derive(Debug)]
pub struct ObjectField {
    pub name: String,
    pub ty: Type,
}

/// The type of a property, an expression or a function.
///
/// Object types list their fields in ascending order of name, without repetition,
/// as a sorted map would hold them: see [`type_wf`].
#[derive(Debug)]
pub enum Type {
    /// Correspond to an uninitialized type, or an error
    Invalid,
    /// The type of an expression that return nothing
    Void,
    /// A component, given by its root element.
    Component(ElementId),
    /// A builtin element, given by its class name.
    Builtin(String),
    /// A native class, given by its class name.
    Native(String),
    Signal { args: Vec<Type> },
    Function { return_type: Box<Type>, args: Vec<Type> },
    Float32,
    Int32,
    String,
    Color,
    Duration,
    Length,
    LogicalLength,
    Resource,
    Bool,
    Model,
    PathElements,
    Array(Box<Type>),
    Object(Vec<ObjectField>),
    Easing,
    Enumeration(Enumeration),
    EnumerationValue(EnumerationValue),
    ElementReference,
}

/// The mathematical model of an [`Enumeration`].
pub struct SpecEnumeration {
    pub name: Seq<char>,
    pub values: Seq<Seq<char>>,
    pub default_value: usize,
}

/// The mathematical model of an [`EnumerationValue`].
pub struct SpecEnumerationValue {
    pub value: usize,
    pub enumeration: SpecEnumeration,
}

/// The mathematical model of a [`Type`]: names are character sequences and
/// lists are sequences.
pub enum SpecType {
    Invalid,
    Void,
    Component(ElementId),
    Builtin(Seq<char>),
    Native(Seq<char>),
    Signal { args: Seq<SpecType> },
    Function { return_type: Box<SpecType>, args: Seq<SpecType> },
    Float32,
    Int32,
    String,
    Color,
    Duration,
    Length,
    LogicalLength,
    Resource,
    Bool,
    Model,
    PathElements,
    Array(Box<SpecType>),
    Object(Seq<(Seq<char>, SpecType)>),
    Easing,
    Enumeration(SpecEnumeration),
    EnumerationValue(SpecEnumerationValue),
    ElementReference,
}

impl View for Enumeration {
    type V = SpecEnumeration;

    open spec fn view(&self) -> SpecEnumeration {
        SpecEnumeration {
            name: self.name@,
            values: self.values@.map_values(|s: String| s@),
            default_value: self.default_value,
        }
    }
}

impl View for EnumerationValue {
    type V = SpecEnumerationValue;

    open spec fn view(&self) -> SpecEnumerationValue {
        SpecEnumerationValue { value: self.value, enumeration: self.enumeration@ }
    }
}

/// The model of each type of a sequence.
pub open spec fn types_view(s: Seq<Type>) -> Seq<SpecType>
    decreases s,
{
    if s.len() == 0 {
        Seq::empty()
    } else {
        types_view(s.subrange(0, s.len() - 1)).push(type_view(s[s.len() - 1]))
    }
}

/// The model of each field of an object type.
pub open spec fn fields_view(s: Seq<ObjectField>) -> Seq<(Seq<char>, SpecType)>
    decreases s,
{
    if s.len() == 0 {
        Seq::empty()
    } else {
        fields_view(s.subrange(0, s.len() - 1)).push(
            (s[s.len() - 1].name@, type_view(s[s.len() - 1].ty)),
        )
    }
}

/// The model of a type.
pub open spec fn type_view(t: Type) -> SpecType
    decreases t,
{
    match t {
        Type::Invalid => SpecType::Invalid,
        Type::Void => SpecType::Void,
        Type::Component(c) => SpecType::Component(c),
        Type::Builtin(n) => SpecType::Builtin(n@),
        Type::Native(n) => SpecType::Native(n@),
        Type::Signal { args } => SpecType::Signal { args: types_view(args@) },
        Type::Function { return_type, args } => SpecType::Function {
            return_type: Box::new(type_view(*return_type)),
            args: types_view(args@),
        },
        Type::Float32 => SpecType::Float32,
        Type::Int32 => SpecType::Int32,
        Type::String => SpecType::String,
        Type::Color => SpecType::Color,
        Type::Duration => SpecType::Duration,
        Type::Length => SpecType::Length,
        Type::LogicalLength => SpecType::LogicalLength,
        Type::Resource => SpecType::Resource,
        Type::Bool => SpecType::Bool,
        Type::Model => SpecType::Model,
        Type::PathElements => SpecType::PathElements,
        Type::Array(e) => SpecType::Array(Box::new(type_view(*e))),
        Type::Object(fields) => SpecType::Object(fields_view(fields@)),
        Type::Easing => SpecType::Easing,
        Type::Enumeration(e) => SpecType::Enumeration(e@),
        Type::EnumerationValue(v) => SpecType::EnumerationValue(v@),
        Type::ElementReference => SpecType::ElementReference,
    }
}

/// The models of a sequence of types are the sequence of their models.
pub proof fn lemma_types_view(s: Seq<Type>)
    ensures
        types_view(s).len() == s.len(),
        forall|i: int| 0 <= i < s.len() ==> #[trigger] types_view(s)[i] == type_view(s[i]),
    decreases s.len(),
{
    if s.len() > 0 {
        lemma_types_view(s.subrange(0, s.len() - 1));
    }
}

/// The models of the fields of an object type are the fields' names and types' models.
pub proof fn lemma_fields_view(s: Seq<ObjectField>)
    ensures
        fields_view(s).len() == s.len(),
        forall|i: int|
            0 <= i < s.len() ==> #[trigger] fields_view(s)[i] == (s[i].name@, type_view(s[i].ty)),
    decreases s.len(),
{
    if s.len() > 0 {
        lemma_fields_view(s.subrange(0, s.len() - 1));
    }
}

impl View for Type {
    type V = SpecType;

    open spec fn view(&self) -> SpecType {
        type_view(*self)
    }
}

/// Whether every field that both object types have converts, and, where `b` has a
/// field that `a` lacks, `a` has no field that `b` lacks.
pub open spec fn can_convert_object(
    a: Seq<(Seq<char>, SpecType)>,
    b: Seq<(Seq<char>, SpecType)>,
) -> bool
    decreases a,
{
    &&& forall|i: int, j: int|
        #![trigger a[i], b[j]]
        0 <= i < a.len() && 0 <= j < b.len() && a[i].0 == b[j].0 ==> can_convert(a[i].1, b[j].1)
    &&& (exists|j: int| 0 <= j < b.len() && !field_names(a).contains(#[trigger] b[j].0)) ==> (
    forall|i: int| 0 <= i < a.len() ==> field_names(b).contains(#[trigger] a[i].0))
}

/// The names of the fields of an object type.
pub open spec fn field_names(fields: Seq<(Seq<char>, SpecType)>) -> Seq<Seq<char>> {
    fields.map_values(|f: (Seq<char>, SpecType)| f.0)
}

/// Whether a value of type `a` converts implicitly to type `b`.
pub open spec fn can_convert(a: SpecType, b: SpecType) -> bool
    decreases a,
{
    if a == b {
        true
    } else {
        match (a, b) {
            (_, SpecType::Void) => true,
            (SpecType::Float32, SpecType::Int32) => true,
            (SpecType::Float32, SpecType::String) => true,
            (SpecType::Int32, SpecType::Float32) => true,
            (SpecType::Int32, SpecType::String) => true,
            (SpecType::Array(_), SpecType::Model) => true,
            (SpecType::Float32, SpecType::Model) => true,
            (SpecType::Int32, SpecType::Model) => true,
            (SpecType::Length, SpecType::LogicalLength) => true,
            (SpecType::LogicalLength, SpecType::Length) => true,
            (SpecType::Object(fa), SpecType::Object(fb)) => can_convert_object(fa, fb),
            _ => false,
        }
    }
}

/// Every type converts to itself and to `Void`.
pub proof fn law_can_convert_to_itself_and_void(t: SpecType)
    ensures
        can_convert(t, t),
        can_convert(t, SpecType::Void),
{
}

/// The unit that a number literal of this type is written with by default.
pub open spec fn spec_default_unit(t: SpecType) -> Option<Unit> {
    match t {
        SpecType::Duration => Some(Unit::Ms),
        SpecType::Length => Some(Unit::Px),
        SpecType::LogicalLength => Some(Unit::Lx),
        _ => None,
    }
}

/// The first field of an object type with the given name.
pub open spec fn lookup_field(fields: Seq<(Seq<char>, SpecType)>, name: Seq<char>) -> Option<
    SpecType,
>
    decreases fields.len(),
{
    if fields.len() == 0 {
        None
    } else if fields[0].0 == name {
        Some(fields[0].1)
    } else {
        lookup_field(fields.drop_first(), name)
    }
}

impl Enumeration {
    /// The value that a property of this enumeration type starts with.
    pub fn default_value(self) -> (v: EnumerationValue)
        ensures
            v@ == (SpecEnumerationValue { value: self.default_value, enumeration: self@ }),
    {
        let value = self.default_value;
        EnumerationValue { value, enumeration: self }
    }

    /// A copy of this enumeration with the same model.
    pub fn clone_enumeration(&self) -> (r: Enumeration)
        ensures
            r@ == self@,
    {
        let mut values: Vec<String> = Vec::new();
        let mut i: usize = 0;
        while i < self.values.len()
            invariant
                0 <= i <= self.values.len(),
                values.len() == i,
                forall|j: int| 0 <= j < i ==> (#[trigger] values@[j])@ == self.values@[j]@,
            decreases self.values.len() - i,
        {
            values.push(self.values[i].clone());
            i += 1;
        }
        let r = Enumeration { name: self.name.clone(), values, default_value: self.default_value };
        assert(r@.values =~= self@.values);
        r
    }
}

impl EnumerationValue {
    /// A copy of this value with the same model.
    pub fn clone_value(&self) -> (r: EnumerationValue)
        ensures
            r@ == self@,
    {
        EnumerationValue { value: self.value, enumeration: self.enumeration.clone_enumeration() }
    }

    /// The name of this value, as it is written in `.60` code.
    pub fn to_string(&self) -> (s: String)
        requires
            self.value < self.enumeration.values.len(),
        ensures
            s@ == self@.enumeration.values[self.value as int],
    {
        self.enumeration.values[self.value].clone()
    }
}

/// Copies of each type of `v`, with the same models.
fn clone_types(v: &Vec<Type>) -> (r: Vec<Type>)
    ensures
        r.len() == v.len(),
        forall|i: int| 0 <= i < v.len() ==> (#[trigger] r@[i])@ == v@[i]@,
    decreases v, 0nat,
{
    let mut r: Vec<Type> = Vec::new();
    let mut i: usize = 0;
    while i < v.len()
        invariant
            0 <= i <= v.len(),
            r.len() == i,
            forall|j: int| 0 <= j < i ==> (#[trigger] r@[j])@ == v@[j]@,
        decreases v.len() - i,
    {
        proof {
            assert(decreases_to!(*v => v@));
            assert(decreases_to!(v@ => v@[i as int]));
        }
        r.push(v[i].clone_type());
        i += 1;
    }
    r
}

impl Type {
    /// A copy of this type with the same model.
    pub fn clone_type(&self) -> (r: Type)
        ensures
            r@ == self@,
        decreases self, 1nat,
    {
        match self {
            Type::Invalid => Type::Invalid,
            Type::Void => Type::Void,
            Type::Component(c) => Type::Component(*c),
            Type::Builtin(n) => Type::Builtin(n.clone()),
            Type::Native(n) => Type::Native(n.clone()),
            Type::Signal { args } => {
                proof {
                    assert(decreases_to!(*self => self->Signal_args));
                }
                let a = clone_types(args);
                let r = Type::Signal { args: a };
                proof {
                    lemma_types_view(a@);
                    lemma_types_view(args@);
                    assert(r@->Signal_args =~= self@->Signal_args);
                }
                r
            },
            Type::Function { return_type, args } => {
                proof {
                    assert(decreases_to!(*self => self->Function_args));
                    assert(decreases_to!(*self => self->return_type));
                }
                let rt = return_type.clone_type();
                let a = clone_types(args);
                let r = Type::Function { return_type: Box::new(rt), args: a };
                proof {
                    lemma_types_view(a@);
                    lemma_types_view(args@);
                    assert(r@->Function_args =~= self@->Function_args);
                }
                r
            },
            Type::Float32 => Type::Float32,
            Type::Int32 => Type::Int32,
            Type::String => Type::String,
            Type::Color => Type::Color,
            Type::Duration => Type::Duration,
            Type::Length => Type::Length,
            Type::LogicalLength => Type::LogicalLength,
            Type::Resource => Type::Resource,
            Type::Bool => Type::Bool,
            Type::Model => Type::Model,
            Type::PathElements => Type::PathElements,
            Type::Array(t) => {
                proof {
                    assert(decreases_to!(*self => self->Array_0));
                }
                Type::Array(Box::new(t.clone_type()))
            },
            Type::Object(fields) => {
                let mut v: Vec<ObjectField> = Vec::new();
                let mut i: usize = 0;
                while i < fields.len()
                    invariant
                        0 <= i <= fields.len(),
                        v.len() == i,
                        *self == Type::Object(*fields),
                        forall|j: int|
                            0 <= j < i ==> (#[trigger] v@[j]).name@ == fields@[j].name@ && v@[j].ty@
                                == fields@[j].ty@,
                    decreases fields.len() - i,
                {
                    proof {
                        assert(decreases_to!(*self => self->Object_0));
                        assert(decreases_to!(*fields => fields@));
                        assert(decreases_to!(fields@ => fields@[i as int]));
                        assert(decreases_to!(fields@[i as int] => fields@[i as int].ty));
                    }
                    let t = fields[i].ty.clone_type();
                    v.push(ObjectField { name: fields[i].name.clone(), ty: t });
                    i += 1;
                }
                let r = Type::Object(v);
                proof {
                    lemma_fields_view(v@);
                    lemma_fields_view(fields@);
                    assert(r@->Object_0 =~= self@->Object_0);
                }
                r
            },
            Type::Easing => Type::Easing,
            Type::Enumeration(e) => Type::Enumeration(e.clone_enumeration()),
            Type::EnumerationValue(e) => Type::EnumerationValue(e.clone_value()),
            Type::ElementReference => Type::ElementReference,
        }
    }
}


/// Whether two lists of strings hold the same texts.
fn same_strings(a: &Vec<String>, b: &Vec<String>) -> (r: bool)
    ensures
        r == (a@.map_values(|s: String| s@) == b@.map_values(|s: String| s@)),
{
    if a.len() != b.len() {
        assert(a@.map_values(|s: String| s@).len() != b@.map_values(|s: String| s@).len());
        return false;
    }
    let mut i: usize = 0;
    while i < a.len()
        invariant
            0 <= i <= a.len(),
            a.len() == b.len(),
            forall|j: int| 0 <= j < i ==> (#[trigger] a@[j])@ == b@[j]@,
        decreases a.len() - i,
    {
        if !(a[i] == b[i]) {
            assert(a@.map_values(|s: String| s@)[i as int] != b@.map_values(|s: String| s@)[i as int]);
            return false;
        }
        i += 1;
    }
    assert(a@.map_values(|s: String| s@) =~= b@.map_values(|s: String| s@));
    true
}

impl Enumeration {
    /// Whether two enumerations have the same model.
    pub fn same_enumeration(&self, other: &Enumeration) -> (r: bool)
        ensures
            r == (self@ == other@),
    {
        self.name == other.name && self.default_value == other.default_value && same_strings(
            &self.values,
            &other.values,
        )
    }
}

/// Whether two lists of types have the same models.
fn same_types(a: &Vec<Type>, b: &Vec<Type>) -> (r: bool)
    ensures
        r == (types_view(a@) == types_view(b@)),
    decreases a, 0nat,
{
    proof {
        lemma_types_view(a@);
        lemma_types_view(b@);
    }
    if a.len() != b.len() {
        return false;
    }
    let mut i: usize = 0;
    while i < a.len()
        invariant
            0 <= i <= a.len(),
            a.len() == b.len(),
            types_view(a@).len() == a.len(),
            types_view(b@).len() == b.len(),
            forall|j: int| 0 <= j < a.len() ==> #[trigger] types_view(a@)[j] == type_view(a@[j]),
            forall|j: int| 0 <= j < b.len() ==> #[trigger] types_view(b@)[j] == type_view(b@[j]),
            forall|j: int| 0 <= j < i ==> types_view(a@)[j] == types_view(b@)[j],
        decreases a.len() - i,
    {
        proof {
            assert(decreases_to!(*a => a@));
            assert(decreases_to!(a@ => a@[i as int]));
        }
        if !a[i].same_type(&b[i]) {
            assert(types_view(a@)[i as int] != types_view(b@)[i as int]);
            return false;
        }
        i += 1;
    }
    assert(types_view(a@) =~= types_view(b@));
    true
}

/// Whether two lists of object fields have the same models.
fn same_fields(a: &Vec<ObjectField>, b: &Vec<ObjectField>) -> (r: bool)
    ensures
        r == (fields_view(a@) == fields_view(b@)),
    decreases a, 0nat,
{
    proof {
        lemma_fields_view(a@);
        lemma_fields_view(b@);
    }
    if a.len() != b.len() {
        return false;
    }
    let mut i: usize = 0;
    while i < a.len()
        invariant
            0 <= i <= a.len(),
            a.len() == b.len(),
            fields_view(a@).len() == a.len(),
            fields_view(b@).len() == b.len(),
            forall|j: int|
                0 <= j < a.len() ==> #[trigger] fields_view(a@)[j] == (a@[j].name@, type_view(
                    a@[j].ty,
                )),
            forall|j: int|
                0 <= j < b.len() ==> #[trigger] fields_view(b@)[j] == (b@[j].name@, type_view(
                    b@[j].ty,
                )),
            forall|j: int| 0 <= j < i ==> fields_view(a@)[j] == fields_view(b@)[j],
        decreases a.len() - i,
    {
        proof {
            assert(decreases_to!(*a => a@));
            assert(decreases_to!(a@ => a@[i as int]));
            assert(decreases_to!(a@[i as int] => a@[i as int].ty));
        }
        if !(a[i].name == b[i].name) || !a[i].ty.same_type(&b[i].ty) {
            assert(fields_view(a@)[i as int] != fields_view(b@)[i as int]);
            return false;
        }
        i += 1;
    }
    assert(fields_view(a@) =~= fields_view(b@));
    true
}

impl Type {
    /// Whether two types are the same type.
    pub fn same_type(&self, other: &Type) -> (r: bool)
        ensures
            r == (self@ == other@),
        decreases self, 1nat,
    {
        match (self, other) {
            (Type::Invalid, Type::Invalid) => true,
            (Type::Void, Type::Void) => true,
            (Type::Component(a), Type::Component(b)) => *a == *b,
            (Type::Builtin(a), Type::Builtin(b)) => *a == *b,
            (Type::Native(a), Type::Native(b)) => *a == *b,
            (Type::Signal { args: a }, Type::Signal { args: b }) => {
                proof {
                    assert(decreases_to!(*self => self->Signal_args));
                }
                same_types(a, b)
            },
            (
                Type::Function { return_type: ra, args: a },
                Type::Function { return_type: rb, args: b },
            ) => {
                proof {
                    assert(decreases_to!(*self => self->Function_args));
                    assert(decreases_to!(*self => self->return_type));
                }
                ra.same_type(rb) && same_types(a, b)
            },
            (Type::Float32, Type::Float32) => true,
            (Type::Int32, Type::Int32) => true,
            (Type::String, Type::String) => true,
            (Type::Color, Type::Color) => true,
            (Type::Duration, Type::Duration) => true,
            (Type::Length, Type::Length) => true,
            (Type::LogicalLength, Type::LogicalLength) => true,
            (Type::Resource, Type::Resource) => true,
            (Type::Bool, Type::Bool) => true,
            (Type::Model, Type::Model) => true,
            (Type::PathElements, Type::PathElements) => true,
            (Type::Array(a), Type::Array(b)) => {
                proof {
                    assert(decreases_to!(*self => self->Array_0));
                }
                a.same_type(b)
            },
            (Type::Object(a), Type::Object(b)) => {
                proof {
                    assert(decreases_to!(*self => self->Object_0));
                }
                same_fields(a, b)
            },
            (Type::Easing, Type::Easing) => true,
            (Type::Enumeration(a), Type::Enumeration(b)) => a.same_enumeration(b),
            (Type::EnumerationValue(a), Type::EnumerationValue(b)) => {
                a.value == b.value && a.enumeration.same_enumeration(&b.enumeration)
            },
            (Type::ElementReference, Type::ElementReference) => true,
            _ => false,
        }
    }
}

/// Whether an object type has a field of the given name.
fn has_field(fields: &Vec<ObjectField>, name: &String) -> (r: bool)
    ensures
        r == field_names(fields_view(fields@)).contains(name@),
{
    proof {
        lemma_fields_view(fields@);
    }
    let ghost names = field_names(fields_view(fields@));
    let mut i: usize = 0;
    while i < fields.len()
        invariant
            0 <= i <= fields.len(),
            names == field_names(fields_view(fields@)),
            names.len() == fields.len(),
            forall|j: int| 0 <= j < fields.len() ==> #[trigger] names[j] == fields@[j].name@,
            forall|j: int| 0 <= j < i ==> names[j] != name@,
        decreases fields.len() - i,
    {
        if fields[i].name == *name {
            assert(names[i as int] == name@);
            return true;
        }
        i += 1;
    }
    false
}

/// Whether every field of `a` whose name `b` also has converts to that field of `b`.
fn shared_fields_convert(a: &Vec<ObjectField>, b: &Vec<ObjectField>, Ghost(whole): Ghost<Type>) -> (r: bool)
    requires
        whole == Type::Object(*a),
    ensures
        r == (forall|i: int, j: int|
            #![trigger fields_view(a@)[i], fields_view(b@)[j]]
            0 <= i < a.len() && 0 <= j < b.len() && fields_view(a@)[i].0 == fields_view(b@)[j].0
                ==> can_convert(fields_view(a@)[i].1, fields_view(b@)[j].1)),
    decreases whole, 0nat,
{
    proof {
        lemma_fields_view(a@);
        lemma_fields_view(b@);
    }
    let ghost fa = fields_view(a@);
    let ghost fb = fields_view(b@);
    let mut j: usize = 0;
    while j < b.len()
        invariant
            0 <= j <= b.len(),
            whole == Type::Object(*a),
            fa == fields_view(a@),
            fb == fields_view(b@),
            fa.len() == a.len(),
            fb.len() == b.len(),
            forall|k: int| 0 <= k < a.len() ==> #[trigger] fa[k] == (a@[k].name@, type_view(a@[k].ty)),
            forall|k: int| 0 <= k < b.len() ==> #[trigger] fb[k] == (b@[k].name@, type_view(b@[k].ty)),
            forall|i: int, k: int|
                #![trigger fa[i], fb[k]]
                0 <= i < a.len() && 0 <= k < j && fa[i].0 == fb[k].0 ==> can_convert(fa[i].1, fb[k].1),
        decreases b.len() - j,
    {
        let mut i: usize = 0;
        while i < a.len()
            invariant
                0 <= i <= a.len(),
                0 <= j < b.len(),
                whole == Type::Object(*a),
                fa == fields_view(a@),
                fb == fields_view(b@),
                fa.len() == a.len(),
                fb.len() == b.len(),
                forall|k: int| 0 <= k < a.len() ==> #[trigger] fa[k] == (a@[k].name@, type_view(a@[k].ty)),
                forall|k: int| 0 <= k < b.len() ==> #[trigger] fb[k] == (b@[k].name@, type_view(b@[k].ty)),
                forall|l: int, k: int|
                    #![trigger fa[l], fb[k]]
                    0 <= l < a.len() && 0 <= k < j && fa[l].0 == fb[k].0 ==> can_convert(fa[l].1, fb[k].1),
                forall|l: int|
                    0 <= l < i && #[trigger] fa[l].0 == fb[j as int].0 ==> can_convert(fa[l].1, fb[j as int].1),
            decreases a.len() - i,
        {
            proof {
                assert(decreases_to!(whole => whole->Object_0));
                assert(decreases_to!(*a => a@));
                assert(decreases_to!(a@ => a@[i as int]));
                assert(decreases_to!(a@[i as int] => a@[i as int].ty));
            }
            if a[i].name == b[j].name && !a[i].ty.can_convert(&b[j].ty) {
                assert(fa[i as int].0 == fb[j as int].0);
                return false;
            }
            i += 1;
        }
        j += 1;
    }
    true
}

/// Whether every field of `a` has a field of the same name in `b`.
fn all_fields_in(a: &Vec<ObjectField>, b: &Vec<ObjectField>) -> (r: bool)
    ensures
        r == (forall|i: int|
            0 <= i < a.len() ==> field_names(fields_view(b@)).contains(#[trigger] fields_view(a@)[i].0)),
{
    proof {
        lemma_fields_view(a@);
    }
    let mut i: usize = 0;
    while i < a.len()
        invariant
            0 <= i <= a.len(),
            fields_view(a@).len() == a.len(),
            forall|k: int| 0 <= k < a.len() ==> #[trigger] fields_view(a@)[k] == (a@[k].name@, type_view(a@[k].ty)),
            forall|k: int| 0 <= k < i ==> field_names(fields_view(b@)).contains(#[trigger] fields_view(a@)[k].0),
        decreases a.len() - i,
    {
        if !has_field(b, &a[i].name) {
            assert(!field_names(fields_view(b@)).contains(fields_view(a@)[i as int].0));
            return false;
        }
        i += 1;
    }
    true
}

/// Whether `b` has a field whose name `a` lacks.
fn has_extra_field(a: &Vec<ObjectField>, b: &Vec<ObjectField>) -> (r: bool)
    ensures
        r == (exists|j: int|
            0 <= j < b.len() && !field_names(fields_view(a@)).contains(#[trigger] fields_view(b@)[j].0)),
{
    proof {
        lemma_fields_view(b@);
    }
    let mut j: usize = 0;
    while j < b.len()
        invariant
            0 <= j <= b.len(),
            fields_view(b@).len() == b.len(),
            forall|k: int| 0 <= k < b.len() ==> #[trigger] fields_view(b@)[k] == (b@[k].name@, type_view(b@[k].ty)),
            forall|k: int| 0 <= k < j ==> field_names(fields_view(a@)).contains(#[trigger] fields_view(b@)[k].0),
        decreases b.len() - j,
    {
        if !has_field(a, &b[j].name) {
            assert(!field_names(fields_view(a@)).contains(fields_view(b@)[j as int].0));
            return true;
        }
        j += 1;
    }
    false
}

/// The unit that a number literal of this type is written with by default.
pub fn default_unit(t: &Type) -> (u: Option<Unit>)
    ensures
        u == spec_default_unit(t@),
{
    match t {
        Type::Duration => Some(Unit::Ms),
        Type::Length => Some(Unit::Px),
        Type::LogicalLength => Some(Unit::Lx),
        _ => None,
    }
}

impl Type {
    /// Whether a value of this type converts implicitly to `other`.
    pub fn can_convert(&self, other: &Type) -> (r: bool)
        ensures
            r == can_convert(self@, other@),
        decreases self, 2nat,
    {
        if self.same_type(other) {
            return true;
        }
        match (self, other) {
            (_, Type::Void) => true,
            (Type::Float32, Type::Int32) => true,
            (Type::Float32, Type::String) => true,
            (Type::Int32, Type::Float32) => true,
            (Type::Int32, Type::String) => true,
            (Type::Array(_), Type::Model) => true,
            (Type::Float32, Type::Model) => true,
            (Type::Int32, Type::Model) => true,
            (Type::Length, Type::LogicalLength) => true,
            (Type::LogicalLength, Type::Length) => true,
            (Type::Object(a), Type::Object(b)) => {
                assert(self@ == SpecType::Object(fields_view(a@)));
                assert(other@ == SpecType::Object(fields_view(b@)));
                let ghost fa = fields_view(a@);
                let ghost fb = fields_view(b@);
                assert(self@ != other@);
                proof {
                    lemma_fields_view(a@);
                    lemma_fields_view(b@);
                }
                assert(can_convert(self@, other@) == can_convert_object(fa, fb));
                if !shared_fields_convert(a, b, Ghost(*self)) {
                    return false;
                }
                if has_extra_field(a, b) {
                    all_fields_in(a, b)
                } else {
                    true
                }
            },
            _ => false,
        }
    }
}

/// How a list of types is written: the types, separated by commas.
pub open spec fn written_types(ts: Seq<SpecType>) -> Seq<char>
    decreases ts,
{
    if ts.len() == 0 {
        Seq::empty()
    } else if ts.len() == 1 {
        written_type(ts[0])
    } else {
        written_types(ts.subrange(0, ts.len() - 1)) + ","@ + written_type(ts[ts.len() - 1])
    }
}

/// How the fields of an object type are written: each name, a colon and the type,
/// each followed by a comma.
pub open spec fn written_fields(fs: Seq<(Seq<char>, SpecType)>) -> Seq<char>
    decreases fs,
{
    if fs.len() == 0 {
        Seq::empty()
    } else {
        written_fields(fs.subrange(0, fs.len() - 1)) + fs[fs.len() - 1].0 + ": "@ + written_type(
            fs[fs.len() - 1].1,
        ) + ","@
    }
}

/// The name of the value of an enumeration, or nothing where the value is not one of
/// the enumeration's.
pub open spec fn value_name(v: SpecEnumerationValue) -> Seq<char> {
    if v.value < v.enumeration.values.len() {
        v.enumeration.values[v.value as int]
    } else {
        Seq::empty()
    }
}

/// How a type is written in messages. A component type holds only its root element,
/// so it is written `component`.
pub open spec fn written_type(t: SpecType) -> Seq<char>
    decreases t,
{
    match t {
        SpecType::Invalid => "<error>"@,
        SpecType::Void => "void"@,
        SpecType::Component(_) => "component"@,
        SpecType::Builtin(n) => n,
        SpecType::Native(n) => n,
        SpecType::Signal { args } => if args.len() == 0 {
            "signal"@
        } else {
            "signal("@ + written_types(args) + ")"@
        },
        SpecType::Function { return_type, args } => "function("@ + written_types(args) + ") -> "@
            + written_type(*return_type),
        SpecType::Float32 => "float"@,
        SpecType::Int32 => "int"@,
        SpecType::String => "string"@,
        SpecType::Color => "color"@,
        SpecType::Duration => "duration"@,
        SpecType::Length => "length"@,
        SpecType::LogicalLength => "logical_length"@,
        SpecType::Resource => "resource"@,
        SpecType::Bool => "bool"@,
        SpecType::Model => "model"@,
        SpecType::PathElements => "pathelements"@,
        SpecType::Array(e) => "["@ + written_type(*e) + "]"@,
        SpecType::Object(fs) => "{ "@ + written_fields(fs) + "}"@,
        SpecType::Easing => "easing"@,
        SpecType::Enumeration(e) => "enum "@ + e.name,
        SpecType::EnumerationValue(v) => "enum "@ + v.enumeration.name + "::"@ + value_name(v),
        SpecType::ElementReference => "element ref"@,
    }
}

impl Type {
    /// How this type is written in messages.
    pub fn to_string(&self) -> (s: String)
        ensures
            s@ == written_type(self@),
        decreases self,
    {
        match self {
            Type::Invalid => String::from_str("<error>"),
            Type::Void => String::from_str("void"),
            Type::Component(_) => String::from_str("component"),
            Type::Builtin(n) => n.clone(),
            Type::Native(n) => n.clone(),
            Type::Signal { args } => {
                if args.len() == 0 {
                    proof {
                        lemma_types_view(args@);
                    }
                    return String::from_str("signal");
                }
                let mut out = String::from_str("signal(");
                proof {
                    assert(decreases_to!(*self => self->Signal_args));
                }
                let list = written_list(args);
                out.append(list.as_str());
                out.append(")");
                out
            },
            Type::Function { return_type, args } => {
                proof {
                    assert(decreases_to!(*self => self->Function_args));
                    assert(decreases_to!(*self => self->return_type));
                }
                let mut out = String::from_str("function(");
                let list = written_list(args);
                out.append(list.as_str());
                out.append(") -> ");
                let r = return_type.to_string();
                out.append(r.as_str());
                out
            },
            Type::Float32 => String::from_str("float"),
            Type::Int32 => String::from_str("int"),
            Type::String => String::from_str("string"),
            Type::Color => String::from_str("color"),
            Type::Duration => String::from_str("duration"),
            Type::Length => String::from_str("length"),
            Type::LogicalLength => String::from_str("logical_length"),
            Type::Resource => String::from_str("resource"),
            Type::Bool => String::from_str("bool"),
            Type::Model => String::from_str("model"),
            Type::PathElements => String::from_str("pathelements"),
            Type::Array(e) => {
                proof {
                    assert(decreases_to!(*self => self->Array_0));
                }
                let mut out = String::from_str("[");
                let inner = e.to_string();
                out.append(inner.as_str());
                out.append("]");
                out
            },
            Type::Object(fields) => {
                let ghost fv = fields_view(fields@);
                proof {
                    lemma_fields_view(fields@);
                }
                let mut out = String::from_str("{ ");
                let ghost start = out@;
                let mut i: usize = 0;
                assert(fv.subrange(0, 0) =~= Seq::<(Seq<char>, SpecType)>::empty());
                while i < fields.len()
                    invariant
                        0 <= i <= fields.len(),
                        *self == Type::Object(*fields),
                        fv == fields_view(fields@),
                        fv.len() == fields.len(),
                        forall|j: int|
                            0 <= j < fields.len() ==> #[trigger] fv[j] == (
                                fields@[j].name@,
                                type_view(fields@[j].ty),
                            ),
                        out@ == start + written_fields(fv.subrange(0, i as int)),
                    decreases fields.len() - i,
                {
                    proof {
                        assert(decreases_to!(*self => self->Object_0));
                        assert(decreases_to!(*fields => fields@));
                        assert(decreases_to!(fields@ => fields@[i as int]));
                        assert(decreases_to!(fields@[i as int] => fields@[i as int].ty));
                    }
                    let t = fields[i].ty.to_string();
                    out.append(fields[i].name.as_str());
                    out.append(": ");
                    out.append(t.as_str());
                    out.append(",");
                    proof {
                        let sub = fv.subrange(0, i + 1);
                        assert(sub.subrange(0, i as int) =~= fv.subrange(0, i as int));
                        assert(sub[i as int] == fv[i as int]);
                        assert(out@ =~= start + written_fields(sub));
                    }
                    i += 1;
                }
                assert(fv.subrange(0, fields.len() as int) =~= fv);
                out.append("}");
                out
            },
            Type::Easing => String::from_str("easing"),
            Type::Enumeration(e) => {
                let mut out = String::from_str("enum ");
                out.append(e.name.as_str());
                out
            },
            Type::EnumerationValue(v) => {
                let mut out = String::from_str("enum ");
                out.append(v.enumeration.name.as_str());
                out.append("::");
                if v.value < v.enumeration.values.len() {
                    out.append(v.enumeration.values[v.value].as_str());
                }
                out
            },
            Type::ElementReference => String::from_str("element ref"),
        }
    }
}

/// How a list of types is written: the types, separated by commas.
fn written_list(ts: &Vec<Type>) -> (s: String)
    ensures
        s@ == written_types(types_view(ts@)),
    decreases ts,
{
    let ghost tv = types_view(ts@);
    proof {
        lemma_types_view(ts@);
    }
    let mut out = String::new();
    let mut i: usize = 0;
    assert(tv.subrange(0, 0) =~= Seq::<SpecType>::empty());
    while i < ts.len()
        invariant
            0 <= i <= ts.len(),
            tv == types_view(ts@),
            tv.len() == ts.len(),
            forall|j: int| 0 <= j < ts.len() ==> #[trigger] tv[j] == type_view(ts@[j]),
            out@ == written_types(tv.subrange(0, i as int)),
        decreases ts.len() - i,
    {
        proof {
            assert(decreases_to!(*ts => ts@));
            assert(decreases_to!(ts@ => ts@[i as int]));
        }
        if i > 0 {
            out.append(",");
        }
        let t = ts[i].to_string();
        out.append(t.as_str());
        proof {
            let sub = tv.subrange(0, i + 1);
            assert(sub.subrange(0, i as int) =~= tv.subrange(0, i as int));
            assert(sub[i as int] == tv[i as int]);
            if i == 0 {
                assert(out@ =~= written_types(sub));
            } else {
                assert(out@ =~= written_types(sub));
            }
        }
        i += 1;
    }
    assert(tv.subrange(0, ts.len() as int) =~= tv);
    out
}

/// No two entries have the same name.
pub open spec fn unique_names<V>(entries: Seq<(Seq<char>, V)>) -> bool {
    forall|i: int, j: int|
        0 <= i < j < entries.len() ==> #[trigger] entries[i].0 != #[trigger] entries[j].0
}

/// Whether the name `a` comes before the name `b` in the order of their characters.
pub open spec fn name_less(a: Seq<char>, b: Seq<char>) -> bool
    decreases a.len(),
{
    if b.len() == 0 {
        false
    } else if a.len() == 0 {
        true
    } else if a[0] != b[0] {
        (a[0] as u32) < (b[0] as u32)
    } else {
        name_less(a.drop_first(), b.drop_first())
    }
}

/// No name comes before itself.
pub proof fn lemma_name_less_irreflexive(a: Seq<char>)
    ensures
        !name_less(a, a),
    decreases a.len(),
{
    if a.len() > 0 {
        lemma_name_less_irreflexive(a.drop_first());
    }
}

/// Whether the fields of an object type are in ascending order of name.
pub open spec fn fields_sorted(fs: Seq<(Seq<char>, SpecType)>) -> bool {
    forall|i: int, j: int| 0 <= i < j < fs.len() ==> name_less(#[trigger] fs[i].0, #[trigger] fs[j].0)
}

/// Fields in ascending order of name have unique names.
pub proof fn law_sorted_fields_unique(fs: Seq<(Seq<char>, SpecType)>)
    requires
        fields_sorted(fs),
    ensures
        unique_names(fs),
{
    assert forall|i: int, j: int| 0 <= i < j < fs.len() implies #[trigger] fs[i].0 != #[trigger] fs[j].0 by {
        lemma_name_less_irreflexive(fs[i].0);
        assert(name_less(fs[i].0, fs[j].0));
    }
}

/// Whether the fields of every object type within `t` are in ascending order of name,
/// as the compiler builds them.
pub open spec fn type_wf(t: SpecType) -> bool
    decreases t,
{
    match t {
        SpecType::Signal { args } => types_wf(args),
        SpecType::Function { return_type, args } => type_wf(*return_type) && types_wf(args),
        SpecType::Array(e) => type_wf(*e),
        SpecType::Object(fs) => fields_sorted(fs) && fields_wf(fs),
        _ => true,
    }
}

/// Whether every type of a list is well-formed.
pub open spec fn types_wf(ts: Seq<SpecType>) -> bool
    decreases ts,
{
    forall|i: int| 0 <= i < ts.len() ==> type_wf(#[trigger] ts[i])
}

/// Whether the type of every field of an object type is well-formed.
pub open spec fn fields_wf(fs: Seq<(Seq<char>, SpecType)>) -> bool
    decreases fs,
{
    forall|i: int| 0 <= i < fs.len() ==> type_wf(#[trigger] fs[i].1)
}

/// Which types convert implicitly: every type to itself and to `void`; a plain number,
/// float or integer, to the other kind of number, to a string and to a model; an
/// array to a model; a length to a logical length and back; an object type to one
/// whose fields of shared names convert. Nothing else: in particular, no string or
/// boolean converts to a number, and no length or duration to a plain number.
pub proof fn law_implicit_conversions(a: SpecType, b: SpecType)
    ensures
        !(a is Object && b is Object) ==> (can_convert(a, b) <==> (a == b || b is Void || (
        a is Float32 && (b is Int32 || b is String || b is Model)) || (a is Int32 && (b is Float32
            || b is String || b is Model)) || (a is Array && b is Model) || (a is Length
            && b is LogicalLength) || (a is LogicalLength && b is Length))),
{
}

} // verus!
