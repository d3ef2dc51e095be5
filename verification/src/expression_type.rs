//! The type of an expression.

use vstd::prelude::*;

use crate::expression_tree::{
    builtin_function_type, default_value, is_arithmetic_operator, is_binary_operator, lemma_exprs_view,
    operator_class, spec_operator_class, unit_type, Expression, OperatorClass, SpecExpression,
    SpecExpressionSpanned, SpecPath, SpecPathElement, Unit,
};
use crate::object_tree::{repeated_model, spec_lookup_property, ObjectTree};
use crate::typeregister::{
    fields_view, lemma_fields_view, lookup_field, type_view, ObjectField, SpecType, Type,
};

verus! {

/// The type of an arithmetic operation on two values of which one has the given
/// unit type, if the operation keeps or drops that unit.
pub open spec fn unit_rule(op: char, lhs: SpecType, rhs: SpecType, unit: SpecType) -> Option<
    SpecType,
> {
    if op == '+' && lhs == unit && rhs == unit {
        Some(unit)
    } else if op == '-' && lhs == unit && rhs == unit {
        Some(unit)
    } else if op == '*' && lhs == unit {
        Some(unit)
    } else if op == '*' && rhs == unit {
        Some(unit)
    } else if op == '/' && lhs == unit && rhs == unit {
        Some(SpecType::Float32)
    } else if op == '/' && lhs == unit {
        Some(unit)
    } else {
        None
    }
}

/// The type of an arithmetic operation: durations, then lengths, then logical
/// lengths keep their unit as [`unit_rule`] says; anything else is a plain number.
pub open spec fn arithmetic_type(op: char, lhs: SpecType, rhs: SpecType) -> SpecType {
    match unit_rule(op, lhs, rhs, SpecType::Duration) {
        Some(t) => t,
        None => match unit_rule(op, lhs, rhs, SpecType::Length) {
            Some(t) => t,
            None => match unit_rule(op, lhs, rhs, SpecType::LogicalLength) {
                Some(t) => t,
                None => SpecType::Float32,
            },
        },
    }
}

/// The type of the model data of a repeater whose model is cast from a value of
/// type `source`.
pub open spec fn model_data_type(source: SpecType) -> SpecType {
    match source {
        SpecType::Float32 => SpecType::Int32,
        SpecType::Int32 => SpecType::Int32,
        SpecType::Array(elem) => *elem,
        _ => SpecType::Invalid,
    }
}

/// The type of an expression in the given object tree. `budget` bounds how many
/// repeater models are looked through; where it runs out, the type is `Invalid`.
pub open spec fn ty_within(e: SpecExpression, tree: ObjectTree, budget: nat) -> SpecType
    decreases budget, e,
{
    match e {
        SpecExpression::Invalid => SpecType::Invalid,
        SpecExpression::Uncompiled(_) => SpecType::Invalid,
        SpecExpression::StringLiteral(_) => SpecType::String,
        SpecExpression::NumberLiteral(_, unit) => unit_type(unit),
        SpecExpression::BoolLiteral(_) => SpecType::Bool,
        SpecExpression::TwoWayBinding(r) => spec_lookup_property(tree, r.element, r.name),
        SpecExpression::SignalReference(r) => spec_lookup_property(tree, r.element, r.name),
        SpecExpression::PropertyReference(r) => spec_lookup_property(tree, r.element, r.name),
        SpecExpression::BuiltinFunctionReference(f) => builtin_function_type(f),
        SpecExpression::ElementReference(_) => SpecType::ElementReference,
        SpecExpression::RepeaterIndexReference { .. } => SpecType::Int32,
        SpecExpression::RepeaterModelReference { element } => match repeated_model(tree, element) {
            Some(SpecExpression::Cast { from, .. }) => if budget == 0 {
                SpecType::Invalid
            } else {
                model_data_type(ty_within(*from, tree, (budget - 1) as nat))
            },
            _ => SpecType::Invalid,
        },
        SpecExpression::FunctionParameterReference { ty, .. } => ty,
        SpecExpression::ObjectAccess { base, name } => match ty_within(*base, tree, budget) {
            SpecType::Object(o) => match lookup_field(o, name) {
                Some(t) => t,
                None => SpecType::Invalid,
            },
            SpecType::Component(c) => spec_lookup_property(tree, c, name),
            _ => SpecType::Invalid,
        },
        SpecExpression::Cast { to, .. } => to,
        SpecExpression::CodeBlock(sub) => if sub.len() == 0 {
            SpecType::Void
        } else {
            ty_within(sub[sub.len() - 1], tree, budget)
        },
        SpecExpression::FunctionCall { function, .. } => ty_within(*function, tree, budget),
        SpecExpression::SelfAssignment { .. } => SpecType::Void,
        SpecExpression::ResourceReference { .. } => SpecType::Resource,
        SpecExpression::Condition { true_expr, false_expr, .. } => {
            let true_type = ty_within(*true_expr, tree, budget);
            let false_type = ty_within(*false_expr, tree, budget);
            if true_type == false_type {
                true_type
            } else {
                SpecType::Invalid
            }
        },
        SpecExpression::BinaryExpression { op, lhs, rhs } => if spec_operator_class(op)
            == OperatorClass::ArithmeticOp {
            arithmetic_type(op, ty_within(*lhs, tree, budget), ty_within(*rhs, tree, budget))
        } else {
            SpecType::Bool
        },
        SpecExpression::UnaryOp { sub, .. } => ty_within(*sub, tree, budget),
        SpecExpression::Array { element_ty, .. } => SpecType::Array(Box::new(element_ty)),
        SpecExpression::Object { ty, .. } => ty,
        SpecExpression::PathElements { .. } => SpecType::PathElements,
        SpecExpression::StoreLocalVariable { .. } => SpecType::Void,
        SpecExpression::ReadLocalVariable { ty, .. } => ty,
        SpecExpression::EasingCurve(_) => SpecType::Easing,
        SpecExpression::EnumerationValue(v) => SpecType::Enumeration(v.enumeration),
    }
}

/// Whether every binary expression that the type computation meets holds a binary
/// operator.
pub open spec fn ty_operators_valid(e: SpecExpression, tree: ObjectTree, budget: nat) -> bool
    decreases budget, e,
{
    match e {
        SpecExpression::RepeaterModelReference { element } => match repeated_model(tree, element) {
            Some(SpecExpression::Cast { from, .. }) => budget == 0 || ty_operators_valid(
                *from,
                tree,
                (budget - 1) as nat,
            ),
            _ => true,
        },
        SpecExpression::ObjectAccess { base, .. } => ty_operators_valid(*base, tree, budget),
        SpecExpression::CodeBlock(sub) => sub.len() == 0 || ty_operators_valid(
            sub[sub.len() - 1],
            tree,
            budget,
        ),
        SpecExpression::FunctionCall { function, .. } => ty_operators_valid(*function, tree, budget),
        SpecExpression::Condition { true_expr, false_expr, .. } => ty_operators_valid(
            *true_expr,
            tree,
            budget,
        ) && ty_operators_valid(*false_expr, tree, budget),
        SpecExpression::BinaryExpression { op, lhs, rhs } => is_binary_operator(op) && (
        is_arithmetic_operator(op) ==> ty_operators_valid(*lhs, tree, budget)
            && ty_operators_valid(*rhs, tree, budget)),
        SpecExpression::UnaryOp { sub, .. } => ty_operators_valid(*sub, tree, budget),
        _ => true,
    }
}

/// The type of an expression in the given object tree, looking through as many
/// repeater models as the tree has elements.
pub open spec fn spec_ty(e: SpecExpression, tree: ObjectTree) -> SpecType {
    ty_within(e, tree, tree.elements.len() as nat)
}

/// Whether the operators that the type of `e` depends on are binary operators.
pub open spec fn ty_defined(e: SpecExpression, tree: ObjectTree) -> bool {
    ty_operators_valid(e, tree, tree.elements.len() as nat)
}

/// The type of the first field of an object type with the given name, or `Invalid`.
fn object_field_type(fields: &Vec<ObjectField>, name: &String) -> (t: Type)
    ensures
        t@ == match lookup_field(fields_view(fields@), name@) {
            Some(t) => t,
            None => SpecType::Invalid,
        },
{
    proof {
        lemma_fields_view(fields@);
    }
    let ghost fv = fields_view(fields@);
    assert(fv.subrange(0, fv.len() as int) =~= fv);
    let mut i: usize = 0;
    while i < fields.len()
        invariant
            0 <= i <= fields.len(),
            fv == fields_view(fields@),
            fv.len() == fields.len(),
            forall|j: int| 0 <= j < fields.len() ==> #[trigger] fv[j] == (fields@[j].name@, type_view(fields@[j].ty)),
            lookup_field(fv, name@) == lookup_field(fv.subrange(i as int, fv.len() as int), name@),
        decreases fields.len() - i,
    {
        let ghost rest = fv.subrange(i as int, fv.len() as int);
        assert(rest.drop_first() =~= fv.subrange(i + 1, fv.len() as int));
        assert(rest[0] == fv[i as int]);
        if fields[i].name == *name {
            return fields[i].ty.clone_type();
        }
        i += 1;
    }
    Type::Invalid
}

/// The type of an arithmetic operation, as [`arithmetic_type`] says.
fn arithmetic_result_type(op: char, lhs: Type, rhs: Type) -> (t: Type)
    ensures
        t@ == arithmetic_type(op, lhs@, rhs@),
{
    let l = &lhs;
    let r = &rhs;
    // durations
    if op == '+' && matches!(l, Type::Duration) && matches!(r, Type::Duration) {
        return Type::Duration;
    }
    if op == '-' && matches!(l, Type::Duration) && matches!(r, Type::Duration) {
        return Type::Duration;
    }
    if op == '*' && matches!(l, Type::Duration) {
        return Type::Duration;
    }
    if op == '*' && matches!(r, Type::Duration) {
        return Type::Duration;
    }
    if op == '/' && matches!(l, Type::Duration) && matches!(r, Type::Duration) {
        return Type::Float32;
    }
    if op == '/' && matches!(l, Type::Duration) {
        return Type::Duration;
    }
    // lengths
    if op == '+' && matches!(l, Type::Length) && matches!(r, Type::Length) {
        return Type::Length;
    }
    if op == '-' && matches!(l, Type::Length) && matches!(r, Type::Length) {
        return Type::Length;
    }
    if op == '*' && matches!(l, Type::Length) {
        return Type::Length;
    }
    if op == '*' && matches!(r, Type::Length) {
        return Type::Length;
    }
    if op == '/' && matches!(l, Type::Length) && matches!(r, Type::Length) {
        return Type::Float32;
    }
    if op == '/' && matches!(l, Type::Length) {
        return Type::Length;
    }
    // logical lengths
    if op == '+' && matches!(l, Type::LogicalLength) && matches!(r, Type::LogicalLength) {
        return Type::LogicalLength;
    }
    if op == '-' && matches!(l, Type::LogicalLength) && matches!(r, Type::LogicalLength) {
        return Type::LogicalLength;
    }
    if op == '*' && matches!(l, Type::LogicalLength) {
        return Type::LogicalLength;
    }
    if op == '*' && matches!(r, Type::LogicalLength) {
        return Type::LogicalLength;
    }
    if op == '/' && matches!(l, Type::LogicalLength) && matches!(r, Type::LogicalLength) {
        return Type::Float32;
    }
    if op == '/' && matches!(l, Type::LogicalLength) {
        return Type::LogicalLength;
    }
    Type::Float32
}

impl Expression {
    /// The type of this expression, looking through at most `budget` repeater models.
    fn ty_within(&self, tree: &ObjectTree, budget: usize) -> (t: Type)
        requires
            ty_operators_valid(self@, *tree, budget as nat),
        ensures
            t@ == ty_within(self@, *tree, budget as nat),
        decreases budget, self,
    {
        match self {
            Expression::Invalid => Type::Invalid,
            Expression::Uncompiled(_) => Type::Invalid,
            Expression::StringLiteral(_) => Type::String,
            Expression::NumberLiteral(_, unit) => unit.ty(),
            Expression::BoolLiteral(_) => Type::Bool,
            Expression::TwoWayBinding(r) => tree.lookup_property(r.element, &r.name),
            Expression::SignalReference(r) => tree.lookup_property(r.element, &r.name),
            Expression::PropertyReference(r) => tree.lookup_property(r.element, &r.name),
            Expression::BuiltinFunctionReference(f) => f.ty(),
            Expression::ElementReference(_) => Type::ElementReference,
            Expression::RepeaterIndexReference { .. } => Type::Int32,
            Expression::RepeaterModelReference { element } => {
                if element.0 >= tree.elements.len() {
                    return Type::Invalid;
                }
                match &tree.elements[element.0].repeated {
                    Some(info) => match &info.model {
                        Expression::Cast { from, .. } => {
                            if budget == 0 {
                                Type::Invalid
                            } else {
                                match from.ty_within(tree, budget - 1) {
                                    Type::Float32 => Type::Int32,
                                    Type::Int32 => Type::Int32,
                                    Type::Array(elem) => *elem,
                                    _ => Type::Invalid,
                                }
                            }
                        },
                        _ => Type::Invalid,
                    },
                    None => Type::Invalid,
                }
            },
            Expression::FunctionParameterReference { ty, .. } => ty.clone_type(),
            Expression::ObjectAccess { base, name } => {
                proof {
                    assert(decreases_to!(*self => self->base));
                }
                match base.ty_within(tree, budget) {
                    Type::Object(o) => object_field_type(&o, name),
                    Type::Component(c) => tree.lookup_property(c, name),
                    _ => Type::Invalid,
                }
            },
            Expression::Cast { to, .. } => to.clone_type(),
            Expression::CodeBlock(sub) => {
                proof {
                    lemma_exprs_view(sub@);
                }
                if sub.len() == 0 {
                    Type::Void
                } else {
                    proof {
                        assert(decreases_to!(*self => self->CodeBlock_0));
                        assert(decreases_to!(*sub => sub@));
                        assert(decreases_to!(sub@ => sub@[sub.len() - 1]));
                    }
                    sub[sub.len() - 1].ty_within(tree, budget)
                }
            },
            Expression::FunctionCall { function, .. } => {
                proof {
                    assert(decreases_to!(*self => self->function));
                }
                function.ty_within(tree, budget)
            },
            Expression::SelfAssignment { .. } => Type::Void,
            Expression::ResourceReference { .. } => Type::Resource,
            Expression::Condition { true_expr, false_expr, .. } => {
                proof {
                    assert(decreases_to!(*self => self->true_expr));
                    assert(decreases_to!(*self => self->false_expr));
                }
                let true_type = true_expr.ty_within(tree, budget);
                let false_type = false_expr.ty_within(tree, budget);
                if true_type.same_type(&false_type) {
                    true_type
                } else {
                    Type::Invalid
                }
            },
            Expression::BinaryExpression { op, lhs, rhs } => {
                if operator_class(*op) == OperatorClass::ArithmeticOp {
                    proof {
                        assert(decreases_to!(*self => self->BinaryExpression_lhs));
                        assert(decreases_to!(*self => self->BinaryExpression_rhs));
                    }
                    let l = lhs.ty_within(tree, budget);
                    let r = rhs.ty_within(tree, budget);
                    arithmetic_result_type(*op, l, r)
                } else {
                    Type::Bool
                }
            },
            Expression::UnaryOp { sub, .. } => {
                proof {
                    assert(decreases_to!(*self => self->UnaryOp_sub));
                }
                sub.ty_within(tree, budget)
            },
            Expression::Array { element_ty, .. } => Type::Array(Box::new(element_ty.clone_type())),
            Expression::Object { ty, .. } => ty.clone_type(),
            Expression::PathElements { .. } => Type::PathElements,
            Expression::StoreLocalVariable { .. } => Type::Void,
            Expression::ReadLocalVariable { ty, .. } => ty.clone_type(),
            Expression::EasingCurve(_) => Type::Easing,
            Expression::EnumerationValue(value) => Type::Enumeration(
                value.enumeration.clone_enumeration(),
            ),
        }
    }

    /// Return the type of this property
    pub fn ty(&self, tree: &ObjectTree) -> (t: Type)
        requires
            ty_defined(self@, *tree),
        ensures
            t@ == spec_ty(self@, *tree),
    {
        self.ty_within(tree, tree.elements.len())
    }
}

/// Whether each expression of a sequence has valid operators.
pub open spec fn all_operators_valid(s: Seq<SpecExpression>) -> bool
    decreases s,
{
    forall|i: int| 0 <= i < s.len() ==> operators_valid(#[trigger] s[i])
}

/// Whether each value of an object literal has valid operators.
pub open spec fn entries_operators_valid(s: Seq<(Seq<char>, SpecExpression)>) -> bool
    decreases s,
{
    forall|i: int| 0 <= i < s.len() ==> operators_valid(#[trigger] s[i].1)
}

/// Whether each binding of a path element has valid operators.
pub open spec fn bindings_operators_valid(s: Seq<(Seq<char>, SpecExpressionSpanned)>) -> bool
    decreases s,
{
    forall|i: int| 0 <= i < s.len() ==> operators_valid(#[trigger] s[i].1.expression)
}

/// Whether each binding of each element of a path has valid operators.
pub open spec fn path_elements_operators_valid(s: Seq<SpecPathElement>) -> bool
    decreases s,
{
    forall|i: int| 0 <= i < s.len() ==> bindings_operators_valid(#[trigger] s[i].bindings)
}

/// Whether every binary expression within an expression holds one of the binary
/// operators.
pub open spec fn operators_valid(e: SpecExpression) -> bool
    decreases e,
{
    match e {
        SpecExpression::StoreLocalVariable { value, .. } => operators_valid(*value),
        SpecExpression::ObjectAccess { base, .. } => operators_valid(*base),
        SpecExpression::Cast { from, .. } => operators_valid(*from),
        SpecExpression::CodeBlock(sub) => all_operators_valid(sub),
        SpecExpression::FunctionCall { function, arguments } => operators_valid(*function)
            && all_operators_valid(arguments),
        SpecExpression::SelfAssignment { lhs, rhs, .. } => operators_valid(*lhs) && operators_valid(
            *rhs,
        ),
        SpecExpression::BinaryExpression { op, lhs, rhs } => is_binary_operator(op)
            && operators_valid(*lhs) && operators_valid(*rhs),
        SpecExpression::UnaryOp { sub, .. } => operators_valid(*sub),
        SpecExpression::Condition { condition, true_expr, false_expr } => operators_valid(
            *condition,
        ) && operators_valid(*true_expr) && operators_valid(*false_expr),
        SpecExpression::Array { values, .. } => all_operators_valid(values),
        SpecExpression::Object { values, .. } => entries_operators_valid(values),
        SpecExpression::PathElements { elements } => match elements {
            SpecPath::Elements(els) => path_elements_operators_valid(els),
            SpecPath::Events(_) => true,
        },
        _ => true,
    }
}

/// Whether the model of every repeated element of the tree has valid operators.
pub open spec fn tree_operators_valid(tree: ObjectTree) -> bool {
    forall|i: int|
        0 <= i < tree.elements.len() ==> match (#[trigger] tree.elements@[i]).repeated {
            Some(info) => operators_valid(info.model@),
            None => true,
        }
}

/// Where an expression and the models of a tree have valid operators, so has every
/// expression that the type computation meets.
pub proof fn lemma_ty_defined(e: SpecExpression, tree: ObjectTree, budget: nat)
    requires
        operators_valid(e),
        tree_operators_valid(tree),
    ensures
        ty_operators_valid(e, tree, budget),
    decreases budget, e,
{
    match e {
        SpecExpression::RepeaterModelReference { element } => {
            if element.0 < tree.elements.len() {
                let el = tree.elements@[element.0 as int];
                if let Some(info) = el.repeated {
                    if let SpecExpression::Cast { from, .. } = info.model@ {
                        if budget > 0 {
                            lemma_ty_defined(*from, tree, (budget - 1) as nat);
                        }
                    }
                }
            }
        },
        SpecExpression::ObjectAccess { base, .. } => lemma_ty_defined(*base, tree, budget),
        SpecExpression::CodeBlock(sub) => {
            if sub.len() > 0 {
                assert(all_operators_valid(sub));
                assert(operators_valid(sub[sub.len() - 1]));
                lemma_ty_defined(sub[sub.len() - 1], tree, budget);
            }
        },
        SpecExpression::FunctionCall { function, .. } => lemma_ty_defined(*function, tree, budget),
        SpecExpression::Condition { true_expr, false_expr, .. } => {
            lemma_ty_defined(*true_expr, tree, budget);
            lemma_ty_defined(*false_expr, tree, budget);
        },
        SpecExpression::BinaryExpression { lhs, rhs, .. } => {
            lemma_ty_defined(*lhs, tree, budget);
            lemma_ty_defined(*rhs, tree, budget);
        },
        SpecExpression::UnaryOp { sub, .. } => lemma_ty_defined(*sub, tree, budget),
        _ => {},
    }
}

/// The default value of a type has that type, for every type that has a default
/// value, but for `Int32`, whose default value is a plain number literal.
pub proof fn law_default_value_has_type(t: SpecType, tree: ObjectTree)
    requires
        !(default_value(t) is Invalid),
        !(t is Int32),
    ensures
        spec_ty(default_value(t), tree) == t,
{
}

/// Whether a type is one that numbers carry a unit of.
pub open spec fn is_unit_type(t: SpecType) -> bool {
    t is Duration || t is Length || t is LogicalLength
}

/// The type of a binary expression: a comparison or a logical operation is a `bool`.
/// Of arithmetic: a unit divided by the same unit is a plain number; a sum or
/// difference of two values of the same unit has that unit; a product of a unit and a
/// plain value, or a unit divided by a plain value, has the unit; plain values give a
/// plain number.
pub proof fn law_binary_expression_type(
    lhs: SpecExpression,
    rhs: SpecExpression,
    op: char,
    tree: ObjectTree,
)
    requires
        is_binary_operator(op),
    ensures
        ({
            let t = spec_ty(
                SpecExpression::BinaryExpression { lhs: Box::new(lhs), rhs: Box::new(rhs), op },
                tree,
            );
            let l = spec_ty(lhs, tree);
            let r = spec_ty(rhs, tree);
            &&& !(op == '+' || op == '-' || op == '*' || op == '/') ==> t == SpecType::Bool
            &&& op == '/' && l == r && is_unit_type(l) ==> t == SpecType::Float32
            &&& (op == '+' || op == '-') && l == r && is_unit_type(l) ==> t == l
            &&& op == '*' && is_unit_type(l) && !is_unit_type(r) ==> t == l
            &&& op == '*' && is_unit_type(r) && !is_unit_type(l) ==> t == r
            &&& op == '/' && is_unit_type(l) && !is_unit_type(r) ==> t == l
            &&& (op == '+' || op == '-' || op == '*' || op == '/') && !is_unit_type(l)
                && !is_unit_type(r) ==> t == SpecType::Float32
        }),
{
}

/// The type of an expression by its form: a string literal is a `string`, a boolean
/// literal a `bool`; a number in pixels is a length, in logical pixels, centimeters,
/// millimeters, inches or points a logical length, in seconds or milliseconds a
/// duration, and without unit or in percent a plain number; a cast has the type it
/// casts to; a block has the type of its last expression, or is `void` when empty; a
/// condition has the type of its branches where they agree, and is invalid where they
/// do not; an array literal is an array of its element type; an object literal has
/// its type; an assignment and a store are `void`; a call has the type of what it
/// calls; a negation has the type of what it negates.
pub proof fn law_expression_types(e: SpecExpression, tree: ObjectTree)
    ensures
        e is StringLiteral ==> spec_ty(e, tree) == SpecType::String,
        e is BoolLiteral ==> spec_ty(e, tree) == SpecType::Bool,
        e matches SpecExpression::NumberLiteral(_, u) ==> spec_ty(e, tree) == match u {
            Unit::Px => SpecType::Length,
            Unit::Lx | Unit::Cm | Unit::Mm | Unit::In | Unit::Pt => SpecType::LogicalLength,
            Unit::S | Unit::Ms => SpecType::Duration,
            Unit::Unitless | Unit::Percent => SpecType::Float32,
        },
        e matches SpecExpression::Cast { to, .. } ==> spec_ty(e, tree) == to,
        e matches SpecExpression::CodeBlock(sub) ==> spec_ty(e, tree) == if sub.len() == 0 {
            SpecType::Void
        } else {
            spec_ty(sub.last(), tree)
        },
        e matches SpecExpression::Condition { true_expr, false_expr, .. } ==> spec_ty(e, tree) == if spec_ty(
            *true_expr,
            tree,
        ) == spec_ty(*false_expr, tree) {
            spec_ty(*true_expr, tree)
        } else {
            SpecType::Invalid
        },
        e matches SpecExpression::Array { element_ty, .. } ==> spec_ty(e, tree) == SpecType::Array(
            Box::new(element_ty),
        ),
        e matches SpecExpression::Object { ty, .. } ==> spec_ty(e, tree) == ty,
        (e is SelfAssignment || e is StoreLocalVariable) ==> spec_ty(e, tree) == SpecType::Void,
        e matches SpecExpression::FunctionCall { function, .. } ==> spec_ty(e, tree) == spec_ty(
            *function,
            tree,
        ),
        e matches SpecExpression::UnaryOp { sub, .. } ==> spec_ty(e, tree) == spec_ty(*sub, tree),
        (e is Invalid || e is Uncompiled) ==> spec_ty(e, tree) == SpecType::Invalid,
        e is RepeaterIndexReference ==> spec_ty(e, tree) == SpecType::Int32,
        e is ElementReference ==> spec_ty(e, tree) == SpecType::ElementReference,
{
}

} // verus!
