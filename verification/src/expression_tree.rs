//! The expression tree: what a binding, a signal handler or a code block holds once
//! its syntax has been resolved.

use vstd::prelude::*;

use crate::diagnostics::{Span, SourceFile, SpecSyntaxNode, SyntaxNodeWithSourceFile};
use crate::object_tree::ElementId;
use crate::typeregister::{
    fields_view, lemma_fields_view, lemma_types_view, type_view, EnumerationValue,
    SpecEnumerationValue, SpecType, Type,
};

verus! {

/// Reference to a property or signal of a given name within an element.
///
/// Two references are equal when they name the same property of the same element.
#[derive(Debug, Hash)]
pub struct NamedReference {
    pub element: ElementId,
    pub name: String,
}

impl PartialEq for NamedReference {
    fn eq(&self, other: &Self) -> (r: bool) {
        self.name == other.name && self.element == other.element
    }
}

impl Eq for NamedReference {

}

impl vstd::std_specs::cmp::PartialEqSpecImpl for NamedReference {
    open spec fn obeys_eq_spec() -> bool {
        true
    }

    open spec fn eq_spec(&self, other: &NamedReference) -> bool {
        self.name@ == other.name@ && self.element == other.element
    }
}

/// The mathematical model of a [`NamedReference`].
pub struct SpecNamedReference {
    pub element: ElementId,
    pub name: Seq<char>,
}

impl View for NamedReference {
    type V = SpecNamedReference;

    open spec fn view(&self) -> SpecNamedReference {
        SpecNamedReference { element: self.element, name: self.name@ }
    }
}

impl NamedReference {
    /// A copy of this reference with the same model.
    pub fn clone_reference(&self) -> (r: NamedReference)
        ensures
            r@ == self@,
    {
        NamedReference { element: self.element, name: self.name.clone() }
    }
}

/// A function built into the run-time
#[derive(Debug, Clone, Copy, PartialEq, Eq, Structural)]
pub enum BuiltinFunction {
    GetWindowScaleFactor,
    Debug,
    SetFocusItem,
}

/// The type of a built-in function.
pub open spec fn builtin_function_type(f: BuiltinFunction) -> SpecType {
    match f {
        BuiltinFunction::GetWindowScaleFactor => SpecType::Function {
            return_type: Box::new(SpecType::Float32),
            args: Seq::empty(),
        },
        BuiltinFunction::Debug => SpecType::Function {
            return_type: Box::new(SpecType::Void),
            args: seq![SpecType::String],
        },
        BuiltinFunction::SetFocusItem => SpecType::Function {
            return_type: Box::new(SpecType::Void),
            args: seq![SpecType::ElementReference],
        },
    }
}

impl BuiltinFunction {
    /// The type of this function: what it takes and what it returns.
    pub fn ty(&self) -> (t: Type)
        ensures
            t@ == builtin_function_type(*self),
    {
        match self {
            BuiltinFunction::GetWindowScaleFactor => {
                let r = Type::Float32;
                assert(r@ == SpecType::Float32);
                let args: Vec<Type> = Vec::new();
                proof {
                    lemma_types_view(args@);
                }
                let t = Type::Function { return_type: Box::new(r), args };
                assert(t@->Function_args =~= Seq::<SpecType>::empty());
                t
            },
            BuiltinFunction::Debug => {
                let a = Type::String;
                assert(a@ == SpecType::String);
                let mut args = Vec::new();
                args.push(a);
                proof {
                    lemma_types_view(args@);
                }
                let r = Type::Void;
                assert(r@ == SpecType::Void);
                let t = Type::Function { return_type: Box::new(r), args };
                assert(t@->Function_args =~= seq![SpecType::String]);
                t
            },
            BuiltinFunction::SetFocusItem => {
                let a = Type::ElementReference;
                assert(a@ == SpecType::ElementReference);
                let mut args = Vec::new();
                args.push(a);
                proof {
                    lemma_types_view(args@);
                }
                let r = Type::Void;
                assert(r@ == SpecType::Void);
                let t = Type::Function { return_type: Box::new(r), args };
                assert(t@->Function_args =~= seq![SpecType::ElementReference]);
                t
            },
        }
    }
}

/// The class of a binary operator.
#[derive(Debug, Clone, Copy, PartialEq, Eq, Structural)]
pub enum OperatorClass {
    ComparisonOp,
    LogicalOp,
    ArithmeticOp,
}

/// The comparison operators: `=` and `!` stand for equality and inequality.
pub open spec fn is_comparison_operator(op: char) -> bool {
    op == '=' || op == '!' || op == '<' || op == '>' || op == '≤' || op == '≥'
}

/// The logical operators: and, or.
pub open spec fn is_logical_operator(op: char) -> bool {
    op == '&' || op == '|'
}

/// The arithmetic operators.
pub open spec fn is_arithmetic_operator(op: char) -> bool {
    op == '+' || op == '-' || op == '/' || op == '*'
}

/// The operators that a binary expression can hold.
pub open spec fn is_binary_operator(op: char) -> bool {
    is_comparison_operator(op) || is_logical_operator(op) || is_arithmetic_operator(op)
}

/// The class of a binary operator, on the operators that a binary expression can hold.
pub open spec fn spec_operator_class(op: char) -> OperatorClass {
    if is_comparison_operator(op) {
        OperatorClass::ComparisonOp
    } else if is_logical_operator(op) {
        OperatorClass::LogicalOp
    } else {
        OperatorClass::ArithmeticOp
    }
}

/// the class of for this (binary) operation
pub fn operator_class(op: char) -> (c: OperatorClass)
    requires
        is_binary_operator(op),
    ensures
        c == spec_operator_class(op),
        c == OperatorClass::ComparisonOp <==> is_comparison_operator(op),
        c == OperatorClass::LogicalOp <==> is_logical_operator(op),
        c == OperatorClass::ArithmeticOp <==> is_arithmetic_operator(op),
{
    match op {
        '=' | '!' | '<' | '>' | '≤' | '≥' => OperatorClass::ComparisonOp,
        '&' | '|' => OperatorClass::LogicalOp,
        _ => OperatorClass::ArithmeticOp,
    }
}

/// The units that can be used after numbers in the language
#[derive(Debug, Clone, Copy, PartialEq, Eq, Structural)]
pub enum Unit {
    /// No unit was given
    Unitless,
    ///
    Percent,
    /// Physical pixels
    Px,
    /// Logical pixels
    Lx,
    /// Centimeters
    Cm,
    /// Milimeters
    Mm,
    /// inches
    In,
    /// Points
    Pt,
    /// Seconds
    S,
    /// Milliseconds
    Ms,
}

/// The type of a number written with a unit.
pub open spec fn unit_type(u: Unit) -> SpecType {
    match u {
        Unit::Unitless => SpecType::Float32,
        Unit::Percent => SpecType::Float32,
        Unit::Px => SpecType::Length,
        Unit::Lx => SpecType::LogicalLength,
        Unit::Cm => SpecType::LogicalLength,
        Unit::Mm => SpecType::LogicalLength,
        Unit::In => SpecType::LogicalLength,
        Unit::Pt => SpecType::LogicalLength,
        Unit::S => SpecType::Duration,
        Unit::Ms => SpecType::Duration,
    }
}

/// How a unit is written after a number.
pub open spec fn unit_suffix(u: Unit) -> Seq<char> {
    match u {
        Unit::Unitless => seq![],
        Unit::Percent => seq!['%'],
        Unit::Px => seq!['p', 'x'],
        Unit::Lx => seq!['l', 'x'],
        Unit::Cm => seq!['c', 'm'],
        Unit::Mm => seq!['m', 'm'],
        Unit::In => seq!['i', 'n'],
        Unit::Pt => seq!['p', 't'],
        Unit::S => seq!['s'],
        Unit::Ms => seq!['m', 's'],
    }
}

impl Unit {
    /// The type of a number written with this unit.
    pub fn ty(self) -> (t: Type)
        ensures
            t@ == unit_type(self),
    {
        match self {
            Unit::Unitless => Type::Float32,
            Unit::Percent => Type::Float32,
            Unit::Px => Type::Length,
            Unit::Lx => Type::LogicalLength,
            Unit::Cm => Type::LogicalLength,
            Unit::Mm => Type::LogicalLength,
            Unit::In => Type::LogicalLength,
            Unit::Pt => Type::LogicalLength,
            Unit::S => Type::Duration,
            Unit::Ms => Type::Duration,
        }
    }
}

/// Whether two strings hold the same characters.
fn same_str(a: &str, b: &str) -> (r: bool)
    ensures
        r == (a@ == b@),
{
    let n = a.unicode_len();
    if n != b.unicode_len() {
        return false;
    }
    let mut i: usize = 0;
    while i < n
        invariant
            0 <= i <= n,
            n == a@.len(),
            n == b@.len(),
            forall|k: int| 0 <= k < i ==> a@[k] == b@[k],
        decreases n - i,
    {
        if a.get_char(i) != b.get_char(i) {
            return false;
        }
        i += 1;
    }
    assert(a@ =~= b@);
    true
}

impl Unit {
    /// How this unit is written after a number.
    pub fn to_string(self) -> (s: String)
        ensures
            s@ == unit_suffix(self),
    {
        proof {
            reveal_strlit("");
            reveal_strlit("%");
            reveal_strlit("px");
            reveal_strlit("lx");
            reveal_strlit("cm");
            reveal_strlit("mm");
            reveal_strlit("in");
            reveal_strlit("pt");
            reveal_strlit("s");
            reveal_strlit("ms");
        }
        match self {
            Unit::Unitless => String::from_str(""),
            Unit::Percent => String::from_str("%"),
            Unit::Px => String::from_str("px"),
            Unit::Lx => String::from_str("lx"),
            Unit::Cm => String::from_str("cm"),
            Unit::Mm => String::from_str("mm"),
            Unit::In => String::from_str("in"),
            Unit::Pt => String::from_str("pt"),
            Unit::S => String::from_str("s"),
            Unit::Ms => String::from_str("ms"),
        }
    }

    /// The unit written as `s`, if there is one.
    pub fn parse(s: &str) -> (r: Option<Unit>)
        ensures
            match r {
                Some(u) => unit_suffix(u) == s@,
                None => forall|u: Unit| unit_suffix(u) != s@,
            },
    {
        proof {
            reveal_strlit("");
            reveal_strlit("%");
            reveal_strlit("px");
            reveal_strlit("lx");
            reveal_strlit("cm");
            reveal_strlit("mm");
            reveal_strlit("in");
            reveal_strlit("pt");
            reveal_strlit("s");
            reveal_strlit("ms");
            assert(""@ =~= unit_suffix(Unit::Unitless));
            assert("%"@ =~= unit_suffix(Unit::Percent));
            assert("px"@ =~= unit_suffix(Unit::Px));
            assert("lx"@ =~= unit_suffix(Unit::Lx));
            assert("cm"@ =~= unit_suffix(Unit::Cm));
            assert("mm"@ =~= unit_suffix(Unit::Mm));
            assert("in"@ =~= unit_suffix(Unit::In));
            assert("pt"@ =~= unit_suffix(Unit::Pt));
            assert("s"@ =~= unit_suffix(Unit::S));
            assert("ms"@ =~= unit_suffix(Unit::Ms));
        }
        if same_str(s, "") {
            Some(Unit::Unitless)
        } else if same_str(s, "%") {
            Some(Unit::Percent)
        } else if same_str(s, "px") {
            Some(Unit::Px)
        } else if same_str(s, "lx") {
            Some(Unit::Lx)
        } else if same_str(s, "cm") {
            Some(Unit::Cm)
        } else if same_str(s, "mm") {
            Some(Unit::Mm)
        } else if same_str(s, "in") {
            Some(Unit::In)
        } else if same_str(s, "pt") {
            Some(Unit::Pt)
        } else if same_str(s, "s") {
            Some(Unit::S)
        } else if same_str(s, "ms") {
            Some(Unit::Ms)
        } else {
            None
        }
    }
}

impl std::str::FromStr for Unit {
    type Err = ();

    fn from_str(s: &str) -> (r: Result<Self, ()>)
        ensures
            match r {
                Ok(u) => unit_suffix(u) == s@,
                Err(_) => forall|u: Unit| unit_suffix(u) != s@,
            },
    {
        match Unit::parse(s) {
            Some(u) => Ok(u),
            None => Err(()),
        }
    }
}

impl Default for Unit {
    fn default() -> (u: Self)
        ensures
            u == Unit::Unitless,
    {
        Self::Unitless
    }
}

/// A point of a path, each coordinate given by the bits of its `f32` value.
#[derive(Debug, Clone, Copy, PartialEq, Eq, Structural)]
pub struct PathPoint {
    pub x_bits: u32,
    pub y_bits: u32,
}

/// One step of a path given as a list of events.
#[derive(Debug, Clone, Copy, PartialEq, Eq, Structural)]
pub enum PathEvent {
    Begin { at: PathPoint },
    Line { from: PathPoint, to: PathPoint },
    Quadratic { from: PathPoint, ctrl: PathPoint, to: PathPoint },
    Cubic { from: PathPoint, ctrl1: PathPoint, ctrl2: PathPoint, to: PathPoint },
    End { last: PathPoint, first: PathPoint, close: bool },
}

/// An animation curve; the control points are given by the bits of their `f32` values.
#[derive(Debug, Clone, Copy, PartialEq, Eq, Structural)]
pub enum EasingCurve {
    Linear,
    CubicBezier(u32, u32, u32, u32),
}

impl Default for EasingCurve {
    fn default() -> (c: Self)
        ensures
            c == EasingCurve::Linear,
    {
        Self::Linear
    }
}

/// The Expression is hold by properties, so it should not hold any strong references to node from the object_tree
#[derive(Debug)]
pub enum Expression {
    /// Something went wrong (and an error will be reported)
    Invalid,
    /// We haven't done the lookup yet
    Uncompiled(SyntaxNodeWithSourceFile),
    /// Special expression that can be the value of a two way binding
    TwoWayBinding(NamedReference),
    /// A string literal. The .0 is the content of the string, without the quotes
    StringLiteral(String),
    /// Number, given by the bits of its `f64` value, and its unit
    NumberLiteral(u64, Unit),
    ///
    BoolLiteral(bool),
    /// Reference to the signal <name> in the <element>
    SignalReference(NamedReference),
    /// Reference to the property <name> in the <element>
    PropertyReference(NamedReference),
    /// Reference to a function built into the run-time, implemented natively
    BuiltinFunctionReference(BuiltinFunction),
    /// A reference to a specific element.
    ElementReference(ElementId),
    /// Reference to the index variable of a repeater
    RepeaterIndexReference { element: ElementId },
    /// Reference to the model variable of a repeater
    RepeaterModelReference { element: ElementId },
    /// Reference the parameter at the given index of the current function.
    FunctionParameterReference { index: usize, ty: Type },
    /// Should be directly within a CodeBlock expression, and store the value of the expression in a local variable
    StoreLocalVariable { name: String, value: Box<Expression> },
    /// a reference to the local variable with the given name.
    ReadLocalVariable { name: String, ty: Type },
    /// Access to a field of the given name within a object.
    ObjectAccess {
        /// This expression should have Type::Object type
        base: Box<Expression>,
        name: String,
    },
    /// Cast an expression to the given type
    Cast { from: Box<Expression>, to: Type },
    /// a code block with different expression
    CodeBlock(Vec<Expression>),
    /// A function call
    FunctionCall { function: Box<Expression>, arguments: Vec<Expression> },
    /// A SelfAssignment or an Assignment.  When op is '=' this is a signel assignment.
    SelfAssignment {
        lhs: Box<Expression>,
        rhs: Box<Expression>,
        /// '+', '-', '/', '*', or '='
        op: char,
    },
    BinaryExpression {
        lhs: Box<Expression>,
        rhs: Box<Expression>,
        /// '+', '-', '/', '*', '=', '!', '<', '>', '≤', '≥', '&', '|'
        op: char,
    },
    UnaryOp {
        sub: Box<Expression>,
        /// '+', '-', '!'
        op: char,
    },
    ResourceReference { absolute_source_path: String },
    Condition {
        condition: Box<Expression>,
        true_expr: Box<Expression>,
        false_expr: Box<Expression>,
    },
    Array { element_ty: Type, values: Vec<Expression> },
    /// An object literal, naming each value once (see [`names_unique`]).
    Object { ty: Type, values: Vec<(String, Expression)> },
    PathElements { elements: Path },
    EasingCurve(EasingCurve),
    EnumerationValue(EnumerationValue),
}

/// An expression and, where known, the place in the sources that it was written at.
#[derive(Debug)]
pub struct ExpressionSpanned {
    pub expression: Expression,
    pub span: Option<(SourceFile, Span)>,
}

/// A path: a list of elements, or a list of events.
#[derive(Debug)]
pub enum Path {
    Elements(Vec<PathElement>),
    Events(Vec<PathEvent>),
}

/// An element of a path, given by the class name of its builtin element type, and
/// its bindings.
#[derive(Debug)]
pub struct PathElement {
    pub element_type: String,
    pub bindings: Vec<(String, ExpressionSpanned)>,
}

/// The mathematical model of an [`Expression`].
pub enum SpecExpression {
    Invalid,
    Uncompiled(SpecSyntaxNode),
    TwoWayBinding(SpecNamedReference),
    StringLiteral(Seq<char>),
    NumberLiteral(u64, Unit),
    BoolLiteral(bool),
    SignalReference(SpecNamedReference),
    PropertyReference(SpecNamedReference),
    BuiltinFunctionReference(BuiltinFunction),
    ElementReference(ElementId),
    RepeaterIndexReference { element: ElementId },
    RepeaterModelReference { element: ElementId },
    FunctionParameterReference { index: usize, ty: SpecType },
    StoreLocalVariable { name: Seq<char>, value: Box<SpecExpression> },
    ReadLocalVariable { name: Seq<char>, ty: SpecType },
    ObjectAccess { base: Box<SpecExpression>, name: Seq<char> },
    Cast { from: Box<SpecExpression>, to: SpecType },
    CodeBlock(Seq<SpecExpression>),
    FunctionCall { function: Box<SpecExpression>, arguments: Seq<SpecExpression> },
    SelfAssignment { lhs: Box<SpecExpression>, rhs: Box<SpecExpression>, op: char },
    BinaryExpression { lhs: Box<SpecExpression>, rhs: Box<SpecExpression>, op: char },
    UnaryOp { sub: Box<SpecExpression>, op: char },
    ResourceReference { absolute_source_path: Seq<char> },
    Condition {
        condition: Box<SpecExpression>,
        true_expr: Box<SpecExpression>,
        false_expr: Box<SpecExpression>,
    },
    Array { element_ty: SpecType, values: Seq<SpecExpression> },
    Object { ty: SpecType, values: Seq<(Seq<char>, SpecExpression)> },
    PathElements { elements: SpecPath },
    EasingCurve(EasingCurve),
    EnumerationValue(SpecEnumerationValue),
}

/// The mathematical model of an [`ExpressionSpanned`].
pub struct SpecExpressionSpanned {
    pub expression: SpecExpression,
    pub span: Option<(Seq<char>, Span)>,
}

/// The mathematical model of a [`Path`].
pub enum SpecPath {
    Elements(Seq<SpecPathElement>),
    Events(Seq<PathEvent>),
}

/// The mathematical model of a [`PathElement`].
pub struct SpecPathElement {
    pub element_type: Seq<char>,
    pub bindings: Seq<(Seq<char>, SpecExpressionSpanned)>,
}

/// The model of each expression of a sequence.
pub open spec fn exprs_view(s: Seq<Expression>) -> Seq<SpecExpression>
    decreases s,
{
    if s.len() == 0 {
        Seq::empty()
    } else {
        exprs_view(s.subrange(0, s.len() - 1)).push(expr_view(s[s.len() - 1]))
    }
}

/// The model of each named value of an object literal.
pub open spec fn entries_view(s: Seq<(String, Expression)>) -> Seq<(Seq<char>, SpecExpression)>
    decreases s,
{
    if s.len() == 0 {
        Seq::empty()
    } else {
        entries_view(s.subrange(0, s.len() - 1)).push(
            (s[s.len() - 1].0@, expr_view(s[s.len() - 1].1)),
        )
    }
}

/// The model of each binding of a path element.
pub open spec fn bindings_view(s: Seq<(String, ExpressionSpanned)>) -> Seq<
    (Seq<char>, SpecExpressionSpanned),
>
    decreases s,
{
    if s.len() == 0 {
        Seq::empty()
    } else {
        bindings_view(s.subrange(0, s.len() - 1)).push(
            (s[s.len() - 1].0@, spanned_view(s[s.len() - 1].1)),
        )
    }
}

/// The model of each element of a path.
pub open spec fn path_elements_view(s: Seq<PathElement>) -> Seq<SpecPathElement>
    decreases s,
{
    if s.len() == 0 {
        Seq::empty()
    } else {
        path_elements_view(s.subrange(0, s.len() - 1)).push(
            SpecPathElement {
                element_type: s[s.len() - 1].element_type@,
                bindings: bindings_view(s[s.len() - 1].bindings@),
            },
        )
    }
}

/// The model of an expression with its place in the sources.
pub open spec fn spanned_view(e: ExpressionSpanned) -> SpecExpressionSpanned
    decreases e,
{
    SpecExpressionSpanned {
        expression: expr_view(e.expression),
        span: match e.span {
            Some(s) => Some((s.0.path@, s.1)),
            None => None,
        },
    }
}

/// The model of a path.
pub open spec fn path_view(p: Path) -> SpecPath
    decreases p,
{
    match p {
        Path::Elements(els) => SpecPath::Elements(path_elements_view(els@)),
        Path::Events(evs) => SpecPath::Events(evs@),
    }
}

/// The model of an expression.
pub open spec fn expr_view(e: Expression) -> SpecExpression
    decreases e,
{
    match e {
        Expression::Invalid => SpecExpression::Invalid,
        Expression::Uncompiled(n) => SpecExpression::Uncompiled(n@),
        Expression::TwoWayBinding(r) => SpecExpression::TwoWayBinding(r@),
        Expression::StringLiteral(s) => SpecExpression::StringLiteral(s@),
        Expression::NumberLiteral(n, u) => SpecExpression::NumberLiteral(n, u),
        Expression::BoolLiteral(b) => SpecExpression::BoolLiteral(b),
        Expression::SignalReference(r) => SpecExpression::SignalReference(r@),
        Expression::PropertyReference(r) => SpecExpression::PropertyReference(r@),
        Expression::BuiltinFunctionReference(f) => SpecExpression::BuiltinFunctionReference(f),
        Expression::ElementReference(el) => SpecExpression::ElementReference(el),
        Expression::RepeaterIndexReference { element } => SpecExpression::RepeaterIndexReference {
            element,
        },
        Expression::RepeaterModelReference { element } => SpecExpression::RepeaterModelReference {
            element,
        },
        Expression::FunctionParameterReference { index, ty } =>
            SpecExpression::FunctionParameterReference { index, ty: ty@ },
        Expression::StoreLocalVariable { name, value } => SpecExpression::StoreLocalVariable {
            name: name@,
            value: Box::new(expr_view(*value)),
        },
        Expression::ReadLocalVariable { name, ty } => SpecExpression::ReadLocalVariable {
            name: name@,
            ty: ty@,
        },
        Expression::ObjectAccess { base, name } => SpecExpression::ObjectAccess {
            base: Box::new(expr_view(*base)),
            name: name@,
        },
        Expression::Cast { from, to } => SpecExpression::Cast {
            from: Box::new(expr_view(*from)),
            to: to@,
        },
        Expression::CodeBlock(sub) => SpecExpression::CodeBlock(exprs_view(sub@)),
        Expression::FunctionCall { function, arguments } => SpecExpression::FunctionCall {
            function: Box::new(expr_view(*function)),
            arguments: exprs_view(arguments@),
        },
        Expression::SelfAssignment { lhs, rhs, op } => SpecExpression::SelfAssignment {
            lhs: Box::new(expr_view(*lhs)),
            rhs: Box::new(expr_view(*rhs)),
            op,
        },
        Expression::BinaryExpression { lhs, rhs, op } => SpecExpression::BinaryExpression {
            lhs: Box::new(expr_view(*lhs)),
            rhs: Box::new(expr_view(*rhs)),
            op,
        },
        Expression::UnaryOp { sub, op } => SpecExpression::UnaryOp {
            sub: Box::new(expr_view(*sub)),
            op,
        },
        Expression::ResourceReference { absolute_source_path } =>
            SpecExpression::ResourceReference { absolute_source_path: absolute_source_path@ },
        Expression::Condition { condition, true_expr, false_expr } => SpecExpression::Condition {
            condition: Box::new(expr_view(*condition)),
            true_expr: Box::new(expr_view(*true_expr)),
            false_expr: Box::new(expr_view(*false_expr)),
        },
        Expression::Array { element_ty, values } => SpecExpression::Array {
            element_ty: element_ty@,
            values: exprs_view(values@),
        },
        Expression::Object { ty, values } => SpecExpression::Object {
            ty: ty@,
            values: entries_view(values@),
        },
        Expression::PathElements { elements } => SpecExpression::PathElements {
            elements: path_view(elements),
        },
        Expression::EasingCurve(c) => SpecExpression::EasingCurve(c),
        Expression::EnumerationValue(v) => SpecExpression::EnumerationValue(v@),
    }
}

impl View for Expression {
    type V = SpecExpression;

    open spec fn view(&self) -> SpecExpression {
        expr_view(*self)
    }
}

impl View for ExpressionSpanned {
    type V = SpecExpressionSpanned;

    open spec fn view(&self) -> SpecExpressionSpanned {
        spanned_view(*self)
    }
}

impl Default for Expression {
    fn default() -> (e: Self)
        ensures
            e@ == SpecExpression::Invalid,
    {
        Expression::Invalid
    }
}

impl From<Expression> for ExpressionSpanned {
    fn from(expression: Expression) -> (r: Self) {
        Self { expression, span: None }
    }
}

impl vstd::std_specs::convert::FromSpecImpl<Expression> for ExpressionSpanned {
    open spec fn obeys_from_spec() -> bool {
        true
    }

    open spec fn from_spec(v: Expression) -> ExpressionSpanned {
        ExpressionSpanned { expression: v, span: None }
    }
}

impl ExpressionSpanned {
    /// An expression whose lookup has not been done yet, spanned where the syntax
    /// node is, if it knows its source file.
    pub fn new_uncompiled(node: SyntaxNodeWithSourceFile) -> (r: Self)
        ensures
            r@ == (SpecExpressionSpanned {
                expression: SpecExpression::Uncompiled(node@),
                span: match node@.source_file {
                    Some(path) => Some((path, node.span)),
                    None => None,
                },
            }),
    {
        let span = match &node.source_file {
            Some(f) => Some((f.clone_file(), node.span)),
            None => None,
        };
        let r = Self { expression: Expression::Uncompiled(node), span };
        proof {
            assert(r@.expression == SpecExpression::Uncompiled(node@));
        }
        r
    }

    /// The source file that the expression was written in, if known.
    pub fn source_file(&self) -> (r: Option<&SourceFile>)
        ensures
            match (r, self.span) {
                (Some(f), Some(s)) => f == &s.0,
                (None, None) => true,
                _ => false,
            },
    {
        match &self.span {
            Some(s) => Some(&s.0),
            None => None,
        }
    }

    /// Where in its source file the expression was written; the start of the file
    /// where that is not known.
    pub fn span(&self) -> (r: Span)
        ensures
            r == match self.span {
                Some(s) => s.1,
                None => Span { offset: 0 },
            },
    {
        match &self.span {
            Some(s) => s.1,
            None => Span { offset: 0 },
        }
    }
}

impl View for Path {
    type V = SpecPath;

    open spec fn view(&self) -> SpecPath {
        path_view(*self)
    }
}

/// The models of a sequence of expressions are the sequence of their models.
pub proof fn lemma_exprs_view(s: Seq<Expression>)
    ensures
        exprs_view(s).len() == s.len(),
        forall|i: int| 0 <= i < s.len() ==> #[trigger] exprs_view(s)[i] == expr_view(s[i]),
    decreases s.len(),
{
    if s.len() > 0 {
        lemma_exprs_view(s.subrange(0, s.len() - 1));
    }
}

/// The models of the entries of an object literal are their names and values' models.
pub proof fn lemma_entries_view(s: Seq<(String, Expression)>)
    ensures
        entries_view(s).len() == s.len(),
        forall|i: int|
            0 <= i < s.len() ==> #[trigger] entries_view(s)[i] == (s[i].0@, expr_view(s[i].1)),
    decreases s.len(),
{
    if s.len() > 0 {
        lemma_entries_view(s.subrange(0, s.len() - 1));
    }
}

/// The models of the bindings of a path element are their names and values' models.
pub proof fn lemma_bindings_view(s: Seq<(String, ExpressionSpanned)>)
    ensures
        bindings_view(s).len() == s.len(),
        forall|i: int|
            0 <= i < s.len() ==> #[trigger] bindings_view(s)[i] == (s[i].0@, spanned_view(s[i].1)),
    decreases s.len(),
{
    if s.len() > 0 {
        lemma_bindings_view(s.subrange(0, s.len() - 1));
    }
}

/// The models of the elements of a path.
pub proof fn lemma_path_elements_view(s: Seq<PathElement>)
    ensures
        path_elements_view(s).len() == s.len(),
        forall|i: int|
            0 <= i < s.len() ==> #[trigger] path_elements_view(s)[i] == (SpecPathElement {
                element_type: s[i].element_type@,
                bindings: bindings_view(s[i].bindings@),
            }),
    decreases s.len(),
{
    if s.len() > 0 {
        lemma_path_elements_view(s.subrange(0, s.len() - 1));
    }
}

/// Whether each expression of a sequence is constant.
pub open spec fn all_constant(s: Seq<SpecExpression>) -> bool
    decreases s,
{
    forall|i: int| 0 <= i < s.len() ==> spec_is_constant(#[trigger] s[i])
}

/// Whether each value of an object literal is constant.
pub open spec fn entries_constant(s: Seq<(Seq<char>, SpecExpression)>) -> bool
    decreases s,
{
    forall|i: int| 0 <= i < s.len() ==> spec_is_constant(#[trigger] s[i].1)
}

/// Whether each binding of a path element is constant.
pub open spec fn bindings_constant(s: Seq<(Seq<char>, SpecExpressionSpanned)>) -> bool
    decreases s,
{
    forall|i: int| 0 <= i < s.len() ==> spec_is_constant(#[trigger] s[i].1.expression)
}

/// Whether each binding of each element of a path is constant.
pub open spec fn path_elements_constant(s: Seq<SpecPathElement>) -> bool
    decreases s,
{
    forall|i: int| 0 <= i < s.len() ==> bindings_constant(#[trigger] s[i].bindings)
}

/// Whether each expression of a sequence keeps its object literals' names unique.
pub open spec fn all_names_unique(s: Seq<SpecExpression>) -> bool
    decreases s,
{
    forall|i: int| 0 <= i < s.len() ==> names_unique(#[trigger] s[i])
}

/// Whether each value of an object literal keeps its object literals' names unique.
pub open spec fn entries_names_unique(s: Seq<(Seq<char>, SpecExpression)>) -> bool
    decreases s,
{
    forall|i: int| 0 <= i < s.len() ==> names_unique(#[trigger] s[i].1)
}

/// Whether each element of a path binds each property once, and each bound
/// expression keeps its object literals' names unique.
pub open spec fn path_names_unique(s: Seq<SpecPathElement>) -> bool
    decreases s,
{
    forall|i: int|
        0 <= i < s.len() ==> crate::typeregister::unique_names(#[trigger] s[i].bindings)
            && forall|j: int|
            0 <= j < s[i].bindings.len() ==> names_unique(#[trigger] s[i].bindings[j].1.expression)
}

/// Whether every object literal within an expression names each of its values once,
/// as a map from names holds them.
pub open spec fn names_unique(e: SpecExpression) -> bool
    decreases e,
{
    match e {
        SpecExpression::ObjectAccess { base, .. } => names_unique(*base),
        SpecExpression::Cast { from, .. } => names_unique(*from),
        SpecExpression::CodeBlock(sub) => all_names_unique(sub),
        SpecExpression::FunctionCall { function, arguments } => names_unique(*function)
            && all_names_unique(arguments),
        SpecExpression::SelfAssignment { lhs, rhs, .. } => names_unique(*lhs) && names_unique(*rhs),
        SpecExpression::Condition { condition, true_expr, false_expr } => names_unique(*condition)
            && names_unique(*true_expr) && names_unique(*false_expr),
        SpecExpression::BinaryExpression { lhs, rhs, .. } => names_unique(*lhs) && names_unique(
            *rhs,
        ),
        SpecExpression::UnaryOp { sub, .. } => names_unique(*sub),
        SpecExpression::Array { values, .. } => all_names_unique(values),
        SpecExpression::Object { values, .. } => crate::typeregister::unique_names(values)
            && entries_names_unique(values),
        SpecExpression::PathElements { elements } => match elements {
            SpecPath::Elements(els) => path_names_unique(els),
            SpecPath::Events(_) => true,
        },
        SpecExpression::StoreLocalVariable { value, .. } => names_unique(*value),
        _ => true,
    }
}

/// Whether an expression always evaluates to the same value.
pub open spec fn spec_is_constant(e: SpecExpression) -> bool
    decreases e,
{
    match e {
        SpecExpression::Invalid => true,
        SpecExpression::Uncompiled(_) => false,
        SpecExpression::TwoWayBinding(_) => false,
        SpecExpression::StringLiteral(_) => true,
        SpecExpression::NumberLiteral(_, _) => true,
        SpecExpression::BoolLiteral(_) => true,
        SpecExpression::SignalReference(_) => false,
        SpecExpression::PropertyReference(_) => false,
        SpecExpression::BuiltinFunctionReference(_) => false,
        SpecExpression::ElementReference(_) => false,
        SpecExpression::RepeaterIndexReference { .. } => false,
        SpecExpression::RepeaterModelReference { .. } => false,
        SpecExpression::FunctionParameterReference { .. } => false,
        SpecExpression::ObjectAccess { base, .. } => spec_is_constant(*base),
        SpecExpression::Cast { from, to } => spec_is_constant(*from) && !(to is Length
            || to is LogicalLength),
        SpecExpression::CodeBlock(sub) => sub.len() == 1 && spec_is_constant(sub[0]),
        SpecExpression::FunctionCall { .. } => false,
        SpecExpression::SelfAssignment { .. } => false,
        SpecExpression::ResourceReference { .. } => true,
        SpecExpression::Condition { .. } => false,
        SpecExpression::BinaryExpression { lhs, rhs, .. } => spec_is_constant(*lhs)
            && spec_is_constant(*rhs),
        SpecExpression::UnaryOp { sub, .. } => spec_is_constant(*sub),
        SpecExpression::Array { values, .. } => all_constant(values),
        SpecExpression::Object { values, .. } => entries_constant(values),
        SpecExpression::PathElements { elements } => match elements {
            SpecPath::Elements(els) => path_elements_constant(els),
            SpecPath::Events(_) => true,
        },
        SpecExpression::StoreLocalVariable { .. } => false,
        SpecExpression::ReadLocalVariable { .. } => false,
        SpecExpression::EasingCurve(_) => true,
        SpecExpression::EnumerationValue(_) => true,
    }
}

/// Whether each expression of `v` is constant.
fn exprs_are_constant(v: &Vec<Expression>) -> (r: bool)
    ensures
        r == all_constant(exprs_view(v@)),
    decreases v, 0nat,
{
    proof {
        lemma_exprs_view(v@);
    }
    let mut i: usize = 0;
    while i < v.len()
        invariant
            0 <= i <= v.len(),
            exprs_view(v@).len() == v.len(),
            forall|j: int| 0 <= j < v.len() ==> #[trigger] exprs_view(v@)[j] == expr_view(v@[j]),
            forall|j: int| 0 <= j < i ==> spec_is_constant(#[trigger] exprs_view(v@)[j]),
        decreases v.len() - i,
    {
        proof {
            assert(decreases_to!(*v => v@));
            assert(decreases_to!(v@ => v@[i as int]));
        }
        if !v[i].is_constant() {
            assert(!spec_is_constant(exprs_view(v@)[i as int]));
            return false;
        }
        i += 1;
    }
    true
}

/// Whether each value of the object literal `v` is constant.
fn entries_are_constant(v: &Vec<(String, Expression)>) -> (r: bool)
    ensures
        r == entries_constant(entries_view(v@)),
    decreases v, 0nat,
{
    proof {
        lemma_entries_view(v@);
    }
    let mut i: usize = 0;
    while i < v.len()
        invariant
            0 <= i <= v.len(),
            entries_view(v@).len() == v.len(),
            forall|j: int|
                0 <= j < v.len() ==> #[trigger] entries_view(v@)[j] == (v@[j].0@, expr_view(
                    v@[j].1,
                )),
            forall|j: int| 0 <= j < i ==> spec_is_constant(#[trigger] entries_view(v@)[j].1),
        decreases v.len() - i,
    {
        proof {
            assert(decreases_to!(*v => v@));
            assert(decreases_to!(v@ => v@[i as int]));
            assert(decreases_to!(v@[i as int] => v@[i as int].1));
        }
        if !v[i].1.is_constant() {
            assert(!spec_is_constant(entries_view(v@)[i as int].1));
            return false;
        }
        i += 1;
    }
    true
}

/// Whether each binding of `v` is constant.
fn bindings_are_constant(v: &Vec<(String, ExpressionSpanned)>) -> (r: bool)
    ensures
        r == bindings_constant(bindings_view(v@)),
    decreases v, 0nat,
{
    proof {
        lemma_bindings_view(v@);
    }
    let mut i: usize = 0;
    while i < v.len()
        invariant
            0 <= i <= v.len(),
            bindings_view(v@).len() == v.len(),
            forall|j: int|
                0 <= j < v.len() ==> #[trigger] bindings_view(v@)[j] == (v@[j].0@, spanned_view(
                    v@[j].1,
                )),
            forall|j: int|
                0 <= j < i ==> spec_is_constant(#[trigger] bindings_view(v@)[j].1.expression),
        decreases v.len() - i,
    {
        proof {
            assert(decreases_to!(*v => v@));
            assert(decreases_to!(v@ => v@[i as int]));
            assert(decreases_to!(v@[i as int] => v@[i as int].1));
            assert(decreases_to!(v@[i as int].1 => v@[i as int].1.expression));
        }
        if !v[i].1.expression.is_constant() {
            assert(!spec_is_constant(bindings_view(v@)[i as int].1.expression));
            return false;
        }
        i += 1;
    }
    true
}

/// Whether each binding of each element of `v` is constant.
fn path_elements_are_constant(v: &Vec<PathElement>) -> (r: bool)
    ensures
        r == path_elements_constant(path_elements_view(v@)),
    decreases v, 1nat,
{
    proof {
        lemma_path_elements_view(v@);
    }
    let mut i: usize = 0;
    while i < v.len()
        invariant
            0 <= i <= v.len(),
            path_elements_view(v@).len() == v.len(),
            forall|j: int|
                0 <= j < v.len() ==> #[trigger] path_elements_view(v@)[j] == (SpecPathElement {
                    element_type: v@[j].element_type@,
                    bindings: bindings_view(v@[j].bindings@),
                }),
            forall|j: int|
                0 <= j < i ==> bindings_constant(#[trigger] path_elements_view(v@)[j].bindings),
        decreases v.len() - i,
    {
        proof {
            assert(decreases_to!(*v => v@));
            assert(decreases_to!(v@ => v@[i as int]));
            assert(decreases_to!(v@[i as int] => v@[i as int].bindings));
        }
        if !bindings_are_constant(&v[i].bindings) {
            assert(!bindings_constant(path_elements_view(v@)[i as int].bindings));
            return false;
        }
        i += 1;
    }
    true
}

impl Expression {
    /// Whether this expression always evaluates to the same value.
    pub fn is_constant(&self) -> (r: bool)
        ensures
            r == spec_is_constant(self@),
        decreases self, 2nat,
    {
        match self {
            Expression::Invalid => true,
            Expression::Uncompiled(_) => false,
            Expression::TwoWayBinding(_) => false,
            Expression::StringLiteral(_) => true,
            Expression::NumberLiteral(_, _) => true,
            Expression::BoolLiteral(_) => true,
            Expression::SignalReference(_) => false,
            Expression::PropertyReference(_) => false,
            Expression::BuiltinFunctionReference(_) => false,
            Expression::ElementReference(_) => false,
            Expression::RepeaterIndexReference { .. } => false,
            Expression::RepeaterModelReference { .. } => false,
            Expression::FunctionParameterReference { .. } => false,
            Expression::ObjectAccess { base, .. } => {
                proof {
                    assert(decreases_to!(*self => self->base));
                }
                base.is_constant()
            },
            Expression::Cast { from, to } => {
                proof {
                    assert(decreases_to!(*self => self->from));
                }
                from.is_constant() && !matches!(to, Type::Length | Type::LogicalLength)
            },
            Expression::CodeBlock(sub) => {
                proof {
                    assert(decreases_to!(*self => self->CodeBlock_0));
                    lemma_exprs_view(sub@);
                }
                if sub.len() == 1 {
                    proof {
                        assert(decreases_to!(*sub => sub@));
                        assert(decreases_to!(sub@ => sub@[0]));
                    }
                    sub[0].is_constant()
                } else {
                    false
                }
            },
            Expression::FunctionCall { .. } => false,
            Expression::SelfAssignment { .. } => false,
            Expression::ResourceReference { .. } => true,
            Expression::Condition { .. } => false,
            Expression::BinaryExpression { lhs, rhs, .. } => {
                proof {
                    assert(decreases_to!(*self => self->BinaryExpression_lhs));
                    assert(decreases_to!(*self => self->BinaryExpression_rhs));
                }
                lhs.is_constant() && rhs.is_constant()
            },
            Expression::UnaryOp { sub, .. } => {
                proof {
                    assert(decreases_to!(*self => self->UnaryOp_sub));
                }
                sub.is_constant()
            },
            Expression::Array { values, .. } => {
                proof {
                    assert(decreases_to!(*self => self->Array_values));
                }
                exprs_are_constant(values)
            },
            Expression::Object { values, .. } => {
                proof {
                    assert(decreases_to!(*self => self->Object_values));
                }
                entries_are_constant(values)
            },
            Expression::PathElements { elements } => {
                proof {
                    assert(decreases_to!(*self => self->elements));
                }
                match elements {
                    Path::Elements(els) => {
                        proof {
                            assert(decreases_to!(*elements => elements->Elements_0));
                            assert(path_view(*elements) == SpecPath::Elements(path_elements_view(els@)));
                        }
                        path_elements_are_constant(els)
                    },
                    Path::Events(_) => true,
                }
            },
            Expression::StoreLocalVariable { .. } => false,
            Expression::ReadLocalVariable { .. } => false,
            Expression::EasingCurve(_) => true,
            Expression::EnumerationValue(_) => true,
        }
    }
}

/// The default values of the fields of an object type.
pub open spec fn default_fields(m: Seq<(Seq<char>, SpecType)>) -> Seq<(Seq<char>, SpecExpression)>
    decreases m,
{
    if m.len() == 0 {
        Seq::empty()
    } else {
        default_fields(m.subrange(0, m.len() - 1)).push(
            (m[m.len() - 1].0, default_value(m[m.len() - 1].1)),
        )
    }
}

/// The value that a property of the given type starts with.
pub open spec fn default_value(t: SpecType) -> SpecExpression
    decreases t,
{
    match t {
        SpecType::Invalid => SpecExpression::Invalid,
        SpecType::Component(_) => SpecExpression::Invalid,
        SpecType::Builtin(_) => SpecExpression::Invalid,
        SpecType::Native(_) => SpecExpression::Invalid,
        SpecType::Signal { .. } => SpecExpression::Invalid,
        SpecType::Function { .. } => SpecExpression::Invalid,
        SpecType::Void => SpecExpression::Invalid,
        SpecType::ElementReference => SpecExpression::Invalid,
        SpecType::Float32 => SpecExpression::NumberLiteral(0, Unit::Unitless),
        SpecType::Int32 => SpecExpression::NumberLiteral(0, Unit::Unitless),
        SpecType::String => SpecExpression::StringLiteral(Seq::empty()),
        SpecType::Color => SpecExpression::Cast {
            from: Box::new(SpecExpression::NumberLiteral(0, Unit::Unitless)),
            to: SpecType::Color,
        },
        SpecType::Duration => SpecExpression::NumberLiteral(0, Unit::Ms),
        SpecType::Length => SpecExpression::NumberLiteral(0, Unit::Px),
        SpecType::LogicalLength => SpecExpression::NumberLiteral(0, Unit::Lx),
        SpecType::Resource => SpecExpression::ResourceReference { absolute_source_path: Seq::empty() },
        SpecType::Bool => SpecExpression::BoolLiteral(false),
        SpecType::Model => SpecExpression::Invalid,
        SpecType::PathElements => SpecExpression::PathElements {
            elements: SpecPath::Elements(Seq::empty()),
        },
        SpecType::Array(element_ty) => SpecExpression::Array {
            element_ty: *element_ty,
            values: Seq::empty(),
        },
        SpecType::Object(map) => SpecExpression::Object { ty: t, values: default_fields(map) },
        SpecType::Easing => SpecExpression::EasingCurve(EasingCurve::Linear),
        SpecType::Enumeration(e) => SpecExpression::EnumerationValue(
            SpecEnumerationValue { value: e.default_value, enumeration: e },
        ),
        SpecType::EnumerationValue(_) => SpecExpression::Invalid,
    }
}

impl Expression {
    /// Return the default value for the given type
    pub fn default_value_for_type(ty: &Type) -> (e: Expression)
        ensures
            e@ == default_value(ty@),
        decreases ty,
    {
        match ty {
            Type::Invalid => Expression::Invalid,
            Type::Component(_) => Expression::Invalid,
            Type::Builtin(_) => Expression::Invalid,
            Type::Native(_) => Expression::Invalid,
            Type::Signal { .. } => Expression::Invalid,
            Type::Function { .. } => Expression::Invalid,
            Type::Void => Expression::Invalid,
            Type::ElementReference => Expression::Invalid,
            Type::Float32 => Expression::NumberLiteral(0, Unit::Unitless),
            Type::Int32 => Expression::NumberLiteral(0, Unit::Unitless),
            Type::String => Expression::StringLiteral(String::new()),
            Type::Color => {
                let zero = Expression::NumberLiteral(0, Unit::Unitless);
                assert(zero@ == SpecExpression::NumberLiteral(0, Unit::Unitless));
                let to = Type::Color;
                assert(to@ == SpecType::Color);
                Expression::Cast { from: Box::new(zero), to }
            },
            Type::Duration => Expression::NumberLiteral(0, Unit::Ms),
            Type::Length => Expression::NumberLiteral(0, Unit::Px),
            Type::LogicalLength => Expression::NumberLiteral(0, Unit::Lx),
            Type::Resource => Expression::ResourceReference { absolute_source_path: String::new() },
            Type::Bool => Expression::BoolLiteral(false),
            Type::Model => Expression::Invalid,
            Type::PathElements => {
                let els: Vec<PathElement> = Vec::new();
                proof {
                    lemma_path_elements_view(els@);
                }
                let elements = Path::Elements(els);
                assert(elements@ == SpecPath::Elements(Seq::empty()));
                Expression::PathElements { elements }
            },
            Type::Array(element_ty) => {
                let values: Vec<Expression> = Vec::new();
                proof {
                    lemma_exprs_view(values@);
                }
                let e = Expression::Array { element_ty: element_ty.clone_type(), values };
                assert(e@->Array_values =~= Seq::<SpecExpression>::empty());
                e
            },
            Type::Object(map) => {
                proof {
                    lemma_fields_view(map@);
                }
                let ghost fv = fields_view(map@);
                let mut values: Vec<(String, Expression)> = Vec::new();
                let mut i: usize = 0;
                proof {
                    lemma_entries_view(values@);
                    assert(fv.subrange(0, 0) =~= Seq::empty());
                    assert(entries_view(values@) =~= default_fields(fv.subrange(0, 0)));
                }
                while i < map.len()
                    invariant
                        0 <= i <= map.len(),
                        *ty == Type::Object(*map),
                        fv == fields_view(map@),
                        fv.len() == map.len(),
                        forall|j: int|
                            0 <= j < map.len() ==> #[trigger] fv[j] == (map@[j].name@, type_view(
                                map@[j].ty,
                            )),
                        entries_view(values@) == default_fields(fv.subrange(0, i as int)),
                    decreases map.len() - i,
                {
                    proof {
                        assert(decreases_to!(*ty => ty->Object_0));
                        assert(decreases_to!(*map => map@));
                        assert(decreases_to!(map@ => map@[i as int]));
                        assert(decreases_to!(map@[i as int] => map@[i as int].ty));
                    }
                    let ghost before = values@;
                    let v = Expression::default_value_for_type(&map[i].ty);
                    values.push((map[i].name.clone(), v));
                    proof {
                        lemma_entries_view(values@);
                        assert(values@.subrange(0, values@.len() - 1) =~= before);
                        assert(fv.subrange(0, i + 1).subrange(0, i as int) =~= fv.subrange(0, i as int));
                        assert(entries_view(values@) =~= default_fields(fv.subrange(0, i + 1)));
                    }
                    i += 1;
                }
                assert(fv.subrange(0, map.len() as int) =~= fv);
                let t = ty.clone_type();
                Expression::Object { ty: t, values }
            },
            Type::Easing => Expression::EasingCurve(EasingCurve::default()),
            Type::Enumeration(enumeration) => Expression::EnumerationValue(
                enumeration.clone_enumeration().default_value(),
            ),
            Type::EnumerationValue(_) => Expression::Invalid,
        }
    }
}

/// The expressions bound to the properties of a path element, in order.
pub open spec fn binding_expressions(b: Seq<(Seq<char>, SpecExpressionSpanned)>) -> Seq<SpecExpression> {
    b.map_values(|x: (Seq<char>, SpecExpressionSpanned)| x.1.expression)
}

/// The expressions bound to the properties of the elements of a path, element by
/// element.
pub open spec fn path_sub_expressions(els: Seq<SpecPathElement>) -> Seq<SpecExpression>
    decreases els.len(),
{
    if els.len() == 0 {
        Seq::empty()
    } else {
        path_sub_expressions(els.subrange(0, els.len() - 1)) + binding_expressions(
            els[els.len() - 1].bindings,
        )
    }
}

/// The direct sub-expressions of an expression, in the order in which they are visited.
pub open spec fn sub_expressions(e: SpecExpression) -> Seq<SpecExpression> {
    match e {
        SpecExpression::ObjectAccess { base, .. } => seq![*base],
        SpecExpression::Cast { from, .. } => seq![*from],
        SpecExpression::CodeBlock(sub) => sub,
        SpecExpression::FunctionCall { function, arguments } => seq![*function] + arguments,
        SpecExpression::SelfAssignment { lhs, rhs, .. } => seq![*lhs, *rhs],
        SpecExpression::Condition { condition, true_expr, false_expr } => seq![
            *condition,
            *true_expr,
            *false_expr,
        ],
        SpecExpression::BinaryExpression { lhs, rhs, .. } => seq![*lhs, *rhs],
        SpecExpression::UnaryOp { sub, .. } => seq![*sub],
        SpecExpression::Array { values, .. } => values,
        SpecExpression::Object { values, .. } => values.map_values(
            |x: (Seq<char>, SpecExpression)| x.1,
        ),
        SpecExpression::PathElements { elements } => match elements {
            SpecPath::Elements(els) => path_sub_expressions(els),
            SpecPath::Events(_) => Seq::empty(),
        },
        SpecExpression::StoreLocalVariable { value, .. } => seq![*value],
        _ => Seq::empty(),
    }
}

/// The models of the expressions that a sequence of references points to.
pub open spec fn refs_view(s: Seq<&Expression>) -> Seq<SpecExpression> {
    s.map_values(|e: &Expression| expr_view(*e))
}

/// Pushing a reference pushes the model of what it points to.
proof fn lemma_refs_push(prev: Seq<&Expression>, r: &Expression)
    ensures
        refs_view(prev.push(r)) == refs_view(prev).push(expr_view(*r)),
{
    let out = prev.push(r);
    assert(forall|k: int| 0 <= k < prev.len() ==> out[k] == prev[k]);
    assert(refs_view(out) =~= refs_view(prev).push(expr_view(*r)));
}

/// Appends a reference to an expression.
fn push_one<'a>(out: &mut Vec<&'a Expression>, r: &'a Expression)
    ensures
        refs_view(final(out)@) == refs_view(old(out)@).push(expr_view(*r)),
{
    let ghost prev = out@;
    out.push(r);
    proof {
        lemma_refs_push(prev, r);
    }
}

/// Appends a reference to each expression of `v`.
fn push_all<'a>(out: &mut Vec<&'a Expression>, v: &'a Vec<Expression>)
    ensures
        refs_view(final(out)@) == refs_view(old(out)@) + exprs_view(v@),
{
    proof {
        lemma_exprs_view(v@);
    }
    let mut i: usize = 0;
    while i < v.len()
        invariant
            0 <= i <= v.len(),
            exprs_view(v@).len() == v.len(),
            forall|j: int| 0 <= j < v.len() ==> #[trigger] exprs_view(v@)[j] == expr_view(v@[j]),
            refs_view(out@) == refs_view(old(out)@) + exprs_view(v@).subrange(0, i as int),
        decreases v.len() - i,
    {
        let ghost prev = out@;
        let r = &v[i];
        out.push(r);
        proof {
            lemma_refs_push(prev, r);
        }
        assert(refs_view(out@) =~= refs_view(old(out)@) + exprs_view(v@).subrange(0, i + 1));
        i += 1;
    }
    assert(exprs_view(v@).subrange(0, v.len() as int) =~= exprs_view(v@));
}

/// Appends a reference to the expression bound to each binding of `v`.
fn push_bindings<'a>(out: &mut Vec<&'a Expression>, v: &'a Vec<(String, ExpressionSpanned)>)
    ensures
        refs_view(final(out)@) == refs_view(old(out)@) + binding_expressions(bindings_view(v@)),
{
    proof {
        lemma_bindings_view(v@);
    }
    let ghost be = binding_expressions(bindings_view(v@));
    let mut i: usize = 0;
    while i < v.len()
        invariant
            0 <= i <= v.len(),
            be == binding_expressions(bindings_view(v@)),
            be.len() == v.len(),
            forall|j: int| 0 <= j < v.len() ==> #[trigger] be[j] == expr_view(v@[j].1.expression),
            refs_view(out@) == refs_view(old(out)@) + be.subrange(0, i as int),
        decreases v.len() - i,
    {
        let ghost prev = out@;
        let r = &v[i].1.expression;
        out.push(r);
        proof {
            lemma_refs_push(prev, r);
        }
        assert(refs_view(out@) =~= refs_view(old(out)@) + be.subrange(0, i + 1));
        i += 1;
    }
    assert(be.subrange(0, v.len() as int) =~= be);
}

impl Expression {
    /// The direct sub-expressions of this expression, in the order in which they are
    /// visited.  (note: this function does not recurse)
    pub fn visit(&self) -> (r: Vec<&Expression>)
        ensures
            refs_view(r@) == sub_expressions(self@),
    {
        let mut out: Vec<&Expression> = Vec::new();
        assert(refs_view(out@) =~= Seq::empty());
        match self {
            Expression::ObjectAccess { base, .. } => {
                push_one(&mut out, &**base);
                assert(refs_view(out@) =~= sub_expressions(self@));
            },
            Expression::Cast { from, .. } => {
                push_one(&mut out, &**from);
                assert(refs_view(out@) =~= sub_expressions(self@));
            },
            Expression::CodeBlock(sub) => {
                push_all(&mut out, sub);
                assert(refs_view(out@) =~= sub_expressions(self@));
            },
            Expression::FunctionCall { function, arguments } => {
                push_one(&mut out, &**function);
                push_all(&mut out, arguments);
                assert(refs_view(out@) =~= sub_expressions(self@));
            },
            Expression::SelfAssignment { lhs, rhs, .. } => {
                push_one(&mut out, &**lhs);
                push_one(&mut out, &**rhs);
                assert(refs_view(out@) =~= sub_expressions(self@));
            },
            Expression::Condition { condition, true_expr, false_expr } => {
                push_one(&mut out, &**condition);
                push_one(&mut out, &**true_expr);
                push_one(&mut out, &**false_expr);
                assert(refs_view(out@) =~= sub_expressions(self@));
            },
            Expression::BinaryExpression { lhs, rhs, .. } => {
                push_one(&mut out, &**lhs);
                push_one(&mut out, &**rhs);
                assert(refs_view(out@) =~= sub_expressions(self@));
            },
            Expression::UnaryOp { sub, .. } => {
                push_one(&mut out, &**sub);
                assert(refs_view(out@) =~= sub_expressions(self@));
            },
            Expression::Array { values, .. } => {
                push_all(&mut out, values);
                assert(refs_view(out@) =~= sub_expressions(self@));
            },
            Expression::Object { values, .. } => {
                proof {
                    lemma_entries_view(values@);
                }
                let mut i: usize = 0;
                while i < values.len()
                    invariant
                        0 <= i <= values.len(),
                        entries_view(values@).len() == values.len(),
                        forall|j: int|
                            0 <= j < values.len() ==> #[trigger] entries_view(values@)[j] == (
                            values@[j].0@,
                            expr_view(values@[j].1),
                        ),
                        refs_view(out@) == entries_view(values@).map_values(
                            |x: (Seq<char>, SpecExpression)| x.1,
                        ).subrange(0, i as int),
                    decreases values.len() - i,
                {
                    let ghost prev = out@;
                    let r = &values[i].1;
                    out.push(r);
                    proof {
                        lemma_refs_push(prev, r);
                    }
                    assert(refs_view(out@) =~= entries_view(values@).map_values(
                        |x: (Seq<char>, SpecExpression)| x.1,
                    ).subrange(0, i + 1));
                    i += 1;
                }
                assert(refs_view(out@) =~= sub_expressions(self@));
            },
            Expression::PathElements { elements } => {
                match elements {
                    Path::Elements(els) => {
                        proof {
                            lemma_path_elements_view(els@);
                        }
                        let ghost pv = path_elements_view(els@);
                        let mut i: usize = 0;
                        assert(pv.subrange(0, 0) =~= Seq::<SpecPathElement>::empty());
                        while i < els.len()
                            invariant
                                0 <= i <= els.len(),
                                pv == path_elements_view(els@),
                                pv.len() == els.len(),
                                forall|j: int|
                                    0 <= j < els.len() ==> #[trigger] pv[j] == (SpecPathElement {
                                        element_type: els@[j].element_type@,
                                        bindings: bindings_view(els@[j].bindings@),
                                    }),
                                refs_view(out@) == path_sub_expressions(pv.subrange(0, i as int)),
                            decreases els.len() - i,
                        {
                            push_bindings(&mut out, &els[i].bindings);
                            assert(pv.subrange(0, i + 1).subrange(0, i as int) =~= pv.subrange(
                                0,
                                i as int,
                            ));
                            i += 1;
                        }
                        assert(pv.subrange(0, els.len() as int) =~= pv);
                        assert(path_view(*elements) == SpecPath::Elements(pv));
                    },
                    Path::Events(evs) => {
                        assert(path_view(*elements) == SpecPath::Events(evs@));
                    },
                }
                assert(refs_view(out@) =~= sub_expressions(self@));
            },
            Expression::StoreLocalVariable { value, .. } => {
                push_one(&mut out, &**value);
                assert(refs_view(out@) =~= sub_expressions(self@));
            },
            _ => {
                assert(refs_view(out@) =~= sub_expressions(self@));
            },
        }
        assert(refs_view(out@) =~= sub_expressions(self@));
        out
    }
}

/// The default value of each field is the default value of the field's type.
pub proof fn lemma_default_fields(m: Seq<(Seq<char>, SpecType)>)
    ensures
        default_fields(m).len() == m.len(),
        forall|i: int|
            0 <= i < m.len() ==> #[trigger] default_fields(m)[i] == (m[i].0, default_value(m[i].1)),
    decreases m.len(),
{
    if m.len() > 0 {
        lemma_default_fields(m.subrange(0, m.len() - 1));
    }
}

/// The default value of every type is a constant expression.
pub proof fn law_default_value_is_constant(t: SpecType)
    ensures
        spec_is_constant(default_value(t)),
    decreases t,
{
    match t {
        SpecType::Object(map) => {
            lemma_default_fields(map);
            let d = default_fields(map);
            assert forall|i: int| 0 <= i < d.len() implies spec_is_constant(#[trigger] d[i].1) by {
                assert(decreases_to!(t => map));
                assert(decreases_to!(map => map[i]));
                assert(decreases_to!(map[i] => map[i].1));
                law_default_value_is_constant(map[i].1);
            }
            assert(entries_constant(d));
            assert(default_value(t) == SpecExpression::Object { ty: t, values: d });
        },
        SpecType::Color => {
            assert(spec_is_constant(SpecExpression::NumberLiteral(0, Unit::Unitless)));
        },
        SpecType::Array(_) => {
            assert(all_constant(Seq::<SpecExpression>::empty()));
        },
        SpecType::PathElements => {
            assert(path_elements_constant(Seq::<SpecPathElement>::empty()));
        },
        _ => {},
    }
}

/// Two units are written alike only if they are the same unit: reading back how a
/// unit is written gives that unit.
pub proof fn law_unit_suffix_injective(a: Unit, b: Unit)
    ensures
        unit_suffix(a) == unit_suffix(b) ==> a == b,
{
    if unit_suffix(a) == unit_suffix(b) {
        let s = unit_suffix(a);
        assert(s.len() == unit_suffix(b).len());
        if s.len() > 0 {
            assert(s[0] == unit_suffix(b)[0]);
        }
        if s.len() > 1 {
            assert(s[1] == unit_suffix(b)[1]);
        }
    }
}

/// The default value of a type whose object types have their fields in ascending
/// order of name names each value of each of its object literals once.
pub proof fn law_default_value_names_unique(t: SpecType)
    requires
        crate::typeregister::type_wf(t),
    ensures
        names_unique(default_value(t)),
    decreases t,
{
    match t {
        SpecType::Object(map) => {
            lemma_default_fields(map);
            assert(crate::typeregister::fields_sorted(map) && crate::typeregister::fields_wf(map));
            crate::typeregister::law_sorted_fields_unique(map);
            let d = default_fields(map);
            assert forall|i: int| 0 <= i < d.len() implies names_unique(#[trigger] d[i].1) by {
                assert(crate::typeregister::type_wf(map[i].1));
                assert(decreases_to!(t => map));
                assert(decreases_to!(map => map[i]));
                assert(decreases_to!(map[i] => map[i].1));
                law_default_value_names_unique(map[i].1);
            }
            assert forall|i: int, j: int| 0 <= i < j < d.len() implies #[trigger] d[i].0
                != #[trigger] d[j].0 by {
                assert(d[i].0 == map[i].0 && d[j].0 == map[j].0);
            }
            assert(entries_names_unique(d));
            assert(default_value(t) == SpecExpression::Object { ty: t, values: d });
        },
        SpecType::Color => {
            assert(names_unique(SpecExpression::NumberLiteral(0, Unit::Unitless)));
        },
        SpecType::Array(_) => {
            assert(all_names_unique(Seq::<SpecExpression>::empty()));
        },
        SpecType::PathElements => {
            assert(path_names_unique(Seq::<SpecPathElement>::empty()));
        },
        _ => {},
    }
}

/// The bindings of the elements of a path are all constant exactly when every
/// expression they bind is.
proof fn lemma_path_constant(els: Seq<SpecPathElement>)
    ensures
        path_elements_constant(els) <==> all_constant(path_sub_expressions(els)),
    decreases els.len(),
{
    if els.len() > 0 {
        let n = els.len() - 1;
        let prefix = els.subrange(0, n);
        lemma_path_constant(prefix);
        let p = path_sub_expressions(prefix);
        let be = binding_expressions(els[n].bindings);
        let all = path_sub_expressions(els);
        assert(all == p + be);
        if path_elements_constant(els) {
            assert forall|i: int| 0 <= i < prefix.len() implies bindings_constant(
                #[trigger] prefix[i].bindings,
            ) by {
                assert(prefix[i] == els[i]);
            }
            assert(bindings_constant(els[n].bindings));
            assert forall|i: int| 0 <= i < all.len() implies spec_is_constant(#[trigger] all[i]) by {
                if i < p.len() {
                    assert(all[i] == p[i]);
                } else {
                    assert(all[i] == be[i - p.len()]);
                }
            }
        }
        if all_constant(all) {
            assert forall|i: int| 0 <= i < p.len() implies spec_is_constant(#[trigger] p[i]) by {
                assert(all[i] == p[i]);
            }
            assert forall|j: int| 0 <= j < els[n].bindings.len() implies spec_is_constant(
                #[trigger] els[n].bindings[j].1.expression,
            ) by {
                assert(all[p.len() + j] == be[j]);
            }
            assert forall|i: int| 0 <= i < els.len() implies bindings_constant(
                #[trigger] els[i].bindings,
            ) by {
                if i < n {
                    assert(prefix[i] == els[i]);
                }
            }
        }
    }
}

/// A constant expression has only constant sub-expressions, and an expression made
/// of an operator, an access, an array or an object over its sub-expressions is
/// constant exactly when they all are. Literals are constant; references to
/// properties, signals, elements, parameters, variables or repeaters, and calls,
/// assignments, conditions and code that stores variables, are not.
pub proof fn law_constant_parts(e: SpecExpression)
    ensures
        spec_is_constant(e) ==> forall|i: int|
            0 <= i < sub_expressions(e).len() ==> spec_is_constant(#[trigger] sub_expressions(e)[i]),
        (e is UnaryOp || e is ObjectAccess || e is BinaryExpression || e is Array || e is Object
            || e is PathElements) ==> (spec_is_constant(e) <==> forall|i: int|
            0 <= i < sub_expressions(e).len() ==> spec_is_constant(#[trigger] sub_expressions(e)[i])),
        (e is StringLiteral || e is NumberLiteral || e is BoolLiteral || e is ResourceReference
            || e is EasingCurve || e is EnumerationValue) ==> spec_is_constant(e),
        (e is PropertyReference || e is SignalReference || e is TwoWayBinding || e is ElementReference
            || e is BuiltinFunctionReference || e is RepeaterIndexReference
            || e is RepeaterModelReference || e is FunctionParameterReference
            || e is ReadLocalVariable || e is StoreLocalVariable || e is FunctionCall
            || e is SelfAssignment || e is Condition || e is Uncompiled) ==> !spec_is_constant(e),
        e matches SpecExpression::Cast { from, to } ==> (spec_is_constant(e) <==> spec_is_constant(
            *from,
        ) && !(to is Length || to is LogicalLength)),
        e matches SpecExpression::CodeBlock(sub) ==> (spec_is_constant(e) <==> sub.len() == 1
            && spec_is_constant(sub[0])),
{
    let subs = sub_expressions(e);
    match e {
        SpecExpression::Object { values, .. } => {
            assert(subs.len() == values.len());
            assert forall|i: int| 0 <= i < values.len() implies subs[i] == values[i].1 by {}
            if spec_is_constant(e) {
                assert(entries_constant(values));
                assert forall|i: int| 0 <= i < subs.len() implies spec_is_constant(
                    #[trigger] subs[i],
                ) by {
                    assert(subs[i] == values[i].1);
                }
            }
            if forall|i: int| 0 <= i < subs.len() ==> spec_is_constant(#[trigger] subs[i]) {
                assert forall|i: int| 0 <= i < values.len() implies spec_is_constant(
                    #[trigger] values[i].1,
                ) by {
                    assert(spec_is_constant(subs[i]));
                    assert(subs[i] == values[i].1);
                }
                assert(entries_constant(values));
            }
        },
        SpecExpression::PathElements { elements } => match elements {
            SpecPath::Elements(els) => {
                lemma_path_constant(els);
            },
            SpecPath::Events(_) => {},
        },
        SpecExpression::CodeBlock(sub) => {
            assert(subs == sub);
            if spec_is_constant(e) {
                assert(sub.len() == 1 && spec_is_constant(sub[0]));
                assert forall|i: int| 0 <= i < subs.len() implies spec_is_constant(
                    #[trigger] subs[i],
                ) by {
                    assert(i == 0);
                }
            }
        },
        SpecExpression::Array { values, .. } => {
            assert(subs == values);
            if spec_is_constant(e) {
                assert(all_constant(values));
            }
            if forall|i: int| 0 <= i < subs.len() ==> spec_is_constant(#[trigger] subs[i]) {
                assert(all_constant(values));
            }
        },
        SpecExpression::BinaryExpression { lhs, rhs, .. } => {
            assert(subs[0] == *lhs && subs[1] == *rhs);
        },
        SpecExpression::UnaryOp { sub, .. } => {
            assert(subs[0] == *sub);
        },
        SpecExpression::ObjectAccess { base, .. } => {
            assert(subs[0] == *base);
        },
        SpecExpression::Cast { from, .. } => {
            assert(subs[0] == *from);
        },
        _ => {},
    }
}

/// A number property starts at zero (the bits of `0.0` are all zero), in the unit
/// that its type is measured in, or without unit for plain numbers; a string starts
/// empty, a boolean false, an array without values, an object with each field, in
/// order, at the start value of its type, and an enumeration at its default value.
pub proof fn law_start_values(t: SpecType)
    ensures
        (t is Int32 || t is Float32) ==> default_value(t) == SpecExpression::NumberLiteral(
            0,
            Unit::Unitless,
        ),
        (t is Length || t is LogicalLength || t is Duration) ==> (default_value(t) matches SpecExpression::NumberLiteral(bits, unit)
            && bits == 0 && unit_type(unit) == t),
        t is String ==> (default_value(t) matches SpecExpression::StringLiteral(s) && s.len() == 0),
        t is Bool ==> default_value(t) == SpecExpression::BoolLiteral(false),
        t is Array ==> (default_value(t) matches SpecExpression::Array { element_ty, values }
            && element_ty == *t->Array_0 && values.len() == 0),
        t is Object ==> (default_value(t) matches SpecExpression::Object { ty, values } && ty == t
            && values.len() == t->Object_0.len() && forall|i: int|
            0 <= i < values.len() ==> #[trigger] values[i] == (t->Object_0[i].0, default_value(
                t->Object_0[i].1,
            ))),
        t is Enumeration ==> (default_value(t) matches SpecExpression::EnumerationValue(v)
            && v.enumeration == t->Enumeration_0 && v.value == t->Enumeration_0.default_value),
{
    if let SpecType::Object(fields) = t {
        lemma_default_fields(fields);
    }
}

/// The class of each binary operator: equality, inequality and the four orderings
/// compare, `&` and `|` are logical, and the four arithmetic operators compute.
pub proof fn law_operator_classes(op: char)
    ensures
        (op == '=' || op == '!' || op == '<' || op == '>' || op == '≤' || op == '≥')
            ==> spec_operator_class(op) == OperatorClass::ComparisonOp,
        (op == '&' || op == '|') ==> spec_operator_class(op) == OperatorClass::LogicalOp,
        (op == '+' || op == '-' || op == '*' || op == '/') ==> spec_operator_class(op)
            == OperatorClass::ArithmeticOp,
        is_binary_operator(op) <==> (op == '=' || op == '!' || op == '<' || op == '>' || op == '≤'
            || op == '≥' || op == '&' || op == '|' || op == '+' || op == '-' || op == '*' || op
            == '/'),
{
}

/// The functions built into the run-time: the window's scale factor takes nothing
/// and gives a float; debug output takes a string and focusing takes an element, and
/// neither gives anything.
pub proof fn law_builtin_function_types(f: BuiltinFunction)
    ensures
        builtin_function_type(f) == match f {
            BuiltinFunction::GetWindowScaleFactor => SpecType::Function {
                return_type: Box::new(SpecType::Float32),
                args: Seq::<SpecType>::empty(),
            },
            BuiltinFunction::Debug => SpecType::Function {
                return_type: Box::new(SpecType::Void),
                args: seq![SpecType::String],
            },
            BuiltinFunction::SetFocusItem => SpecType::Function {
                return_type: Box::new(SpecType::Void),
                args: seq![SpecType::ElementReference],
            },
        },
{
}

/// How each unit is written after a number.
pub proof fn law_unit_suffixes(u: Unit)
    ensures
        unit_suffix(u) == match u {
            Unit::Unitless => Seq::<char>::empty(),
            Unit::Percent => seq!['%'],
            Unit::Px => seq!['p', 'x'],
            Unit::Lx => seq!['l', 'x'],
            Unit::Cm => seq!['c', 'm'],
            Unit::Mm => seq!['m', 'm'],
            Unit::In => seq!['i', 'n'],
            Unit::Pt => seq!['p', 't'],
            Unit::S => seq!['s'],
            Unit::Ms => seq!['m', 's'],
        },
{
}

/// The order in which the direct sub-expressions are visited: a condition, then the
/// value when true, then the value when false; the called function before its
/// arguments, in order; the left operand before the right one; the values of an
/// array or an object in order; literals and references have none.
pub proof fn law_visit_order(e: SpecExpression)
    ensures
        e matches SpecExpression::Condition { condition, true_expr, false_expr }
            ==> sub_expressions(e) == seq![*condition, *true_expr, *false_expr],
        e matches SpecExpression::FunctionCall { function, arguments } ==> sub_expressions(e)
            == seq![*function] + arguments,
        e matches SpecExpression::BinaryExpression { lhs, rhs, .. } ==> sub_expressions(e)
            == seq![*lhs, *rhs],
        e matches SpecExpression::SelfAssignment { lhs, rhs, .. } ==> sub_expressions(e)
            == seq![*lhs, *rhs],
        e matches SpecExpression::Array { values, .. } ==> sub_expressions(e) == values,
        e matches SpecExpression::CodeBlock(sub) ==> sub_expressions(e) == sub,
        e matches SpecExpression::Object { values, .. } ==> sub_expressions(e).len() == values.len()
            && forall|i: int| 0 <= i < values.len() ==> #[trigger] sub_expressions(e)[i] == values[i].1,
        (e is StringLiteral || e is NumberLiteral || e is BoolLiteral || e is PropertyReference
            || e is SignalReference || e is ElementReference || e is Invalid) ==> sub_expressions(
            e,
        ).len() == 0,
{
}

} // verus!
