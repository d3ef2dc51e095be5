//! Implicit conversion of an expression to the type that its use asks for.

use vstd::prelude::*;

use crate::diagnostics::{
    BuildDiagnostics, ConversionHint, Diagnostic, SourceLocation, SpecDiagnostic,
};
use crate::expression_tree::{
    all_names_unique, entries_names_unique, lemma_entries_view, lemma_exprs_view, names_unique,
    BuiltinFunction, Expression, SpecExpression, Unit,
};
use crate::expression_type::{
    all_operators_valid, entries_operators_valid, lemma_ty_defined, operators_valid, spec_ty, ty_defined,
    tree_operators_valid,
};
use crate::object_tree::ObjectTree;
use crate::typeregister::{
    can_convert, default_unit, fields_sorted, fields_view, fields_wf, law_sorted_fields_unique,
    lemma_fields_view, spec_default_unit, type_view, type_wf, unique_names,
    ObjectField, SpecType, Type,
};

verus! {

/// The model of the place that a diagnostic is reported at.
pub open spec fn location_view(node: SourceLocation) -> (crate::diagnostics::Span, Option<Seq<char>>) {
    (
        node.span,
        match node.source_file {
            Some(f) => Some(f.path@),
            None => None,
        },
    )
}

/// What the error for a failed conversion from `ty` to `target` suggests.
pub open spec fn conversion_hint(ty: SpecType, target: SpecType) -> ConversionHint {
    match spec_default_unit(ty) {
        Some(from_unit) => if target is Int32 || target is Float32 || target is String {
            ConversionHint::DivideByUnit(from_unit)
        } else {
            ConversionHint::NoHint
        },
        None => match spec_default_unit(target) {
            Some(to_unit) => if ty is Int32 || ty is Float32 {
                ConversionHint::MultiplyByUnit(to_unit)
            } else {
                ConversionHint::NoHint
            },
            None => ConversionHint::NoHint,
        },
    }
}

/// The error reported where a value of type `ty` cannot be converted to `target`.
pub open spec fn conversion_error(ty: SpecType, target: SpecType, node: SourceLocation) -> SpecDiagnostic {
    SpecDiagnostic {
        from: ty,
        to: target,
        hint: conversion_hint(ty, target),
        span: location_view(node).0,
        source_file: location_view(node).1,
    }
}

/// The index of the first field of the given name.
pub open spec fn field_index(fields: Seq<(Seq<char>, SpecType)>, name: Seq<char>) -> Option<int>
    decreases fields.len(),
{
    if fields.len() == 0 {
        None
    } else if fields[fields.len() - 1].0 == name && field_index(
        fields.subrange(0, fields.len() - 1),
        name,
    ) is None {
        Some(fields.len() - 1)
    } else {
        field_index(fields.subrange(0, fields.len() - 1), name)
    }
}

/// A field index is an index of the fields, of a field with that name, and no
/// earlier field has that name.
pub proof fn lemma_field_index(fields: Seq<(Seq<char>, SpecType)>, name: Seq<char>)
    ensures
        field_index(fields, name) matches Some(k) ==> 0 <= k < fields.len() && fields[k].0 == name
            && forall|j: int| 0 <= j < k ==> fields[j].0 != name,
        field_index(fields, name) is None ==> forall|j: int|
            0 <= j < fields.len() ==> fields[j].0 != name,
    decreases fields.len(),
{
    if fields.len() > 0 {
        let prefix = fields.subrange(0, fields.len() - 1);
        lemma_field_index(prefix, name);
        assert forall|j: int| 0 <= j < prefix.len() implies prefix[j] == fields[j] by {}
    }
}

/// The name of the local variable that holds an object while its fields are converted.
pub open spec fn tmpobj() -> Seq<char> {
    seq!['t', 'm', 'p', 'o', 'b', 'j']
}

/// A call of the built-in function that gives the window's scale factor.
pub open spec fn scale_factor_call() -> SpecExpression {
    SpecExpression::FunctionCall {
        function: Box::new(
            SpecExpression::BuiltinFunctionReference(BuiltinFunction::GetWindowScaleFactor),
        ),
        arguments: Seq::empty(),
    }
}

/// The conversion of an expression to a target type: the expression that results,
/// and the errors reported, in order.
pub open spec fn convert(
    e: SpecExpression,
    target: SpecType,
    tree: ObjectTree,
    node: SourceLocation,
) -> (SpecExpression, Seq<SpecDiagnostic>)
    decreases target, 1nat, 0nat,
{
    let ty = spec_ty(e, tree);
    if ty == target {
        (e, Seq::empty())
    } else if can_convert(ty, target) {
        match (ty, target) {
            (SpecType::Length, SpecType::LogicalLength) => (
                SpecExpression::Cast {
                    from: Box::new(
                        SpecExpression::BinaryExpression {
                            lhs: Box::new(e),
                            rhs: Box::new(scale_factor_call()),
                            op: '/',
                        },
                    ),
                    to: target,
                },
                Seq::empty(),
            ),
            (SpecType::LogicalLength, SpecType::Length) => (
                SpecExpression::Cast {
                    from: Box::new(
                        SpecExpression::BinaryExpression {
                            lhs: Box::new(e),
                            rhs: Box::new(scale_factor_call()),
                            op: '*',
                        },
                    ),
                    to: target,
                },
                Seq::empty(),
            ),
            (SpecType::Object(a), SpecType::Object(b)) => match e {
                SpecExpression::Object { values, .. } => {
                    let r = convert_entries(values, values.len() as nat, target, tree, node);
                    (SpecExpression::Object { ty: target, values: r.0 }, r.1)
                },
                _ => {
                    let r = convert_fields(a, b.len() as nat, target, tree, node);
                    (
                        SpecExpression::CodeBlock(
                            seq![
                                SpecExpression::StoreLocalVariable {
                                    name: tmpobj(),
                                    value: Box::new(e),
                                },
                                SpecExpression::Object { ty: target, values: r.0 },
                            ],
                        ),
                        r.1,
                    )
                },
            },
            _ => (SpecExpression::Cast { from: Box::new(e), to: target }, Seq::empty()),
        }
    } else if ty is Invalid || target is Invalid {
        (e, Seq::empty())
    } else {
        match (ty, target, e) {
            (
                SpecType::Array(a),
                SpecType::Array(b),
                SpecExpression::Array { values, .. },
            ) => if can_convert(*a, *b) {
                let r = convert_values(values, values.len() as nat, target, tree, node);
                (SpecExpression::Array { element_ty: *b, values: r.0 }, r.1)
            } else {
                (e, seq![conversion_error(ty, target, node)])
            },
            _ => (e, seq![conversion_error(ty, target, node)]),
        }
    }
}

/// The conversion of the first `n` values of an object literal to the fields of the
/// same name of the object type `target`; values whose name the type lacks are dropped.
pub open spec fn convert_entries(
    values: Seq<(Seq<char>, SpecExpression)>,
    n: nat,
    target: SpecType,
    tree: ObjectTree,
    node: SourceLocation,
) -> (Seq<(Seq<char>, SpecExpression)>, Seq<SpecDiagnostic>)
    decreases target, 0nat, n,
{
    if n == 0 || n > values.len() || !(target is Object) {
        (Seq::empty(), Seq::empty())
    } else {
        let prev = convert_entries(values, (n - 1) as nat, target, tree, node);
        let (name, value) = values[n - 1];
        let b = target->Object_0;
        match field_index(b, name) {
            Some(k) => {
                proof {
                    lemma_field_index(b, name);
                }
                let c = convert(value, b[k].1, tree, node);
                (prev.0.push((name, c.0)), prev.1 + c.1)
            },
            None => prev,
        }
    }
}

/// The conversion of the first `n` fields of the object type `target` read from a
/// local variable holding an object of type `a`.
pub open spec fn convert_fields(
    a: Seq<(Seq<char>, SpecType)>,
    n: nat,
    target: SpecType,
    tree: ObjectTree,
    node: SourceLocation,
) -> (Seq<(Seq<char>, SpecExpression)>, Seq<SpecDiagnostic>)
    decreases target, 0nat, n,
{
    if n == 0 || !(target is Object) || n > target->Object_0.len() {
        (Seq::empty(), Seq::empty())
    } else {
        let prev = convert_fields(a, (n - 1) as nat, target, tree, node);
        let (p, t) = target->Object_0[n - 1];
        let access = SpecExpression::ObjectAccess {
            base: Box::new(
                SpecExpression::ReadLocalVariable { name: tmpobj(), ty: SpecType::Object(a) },
            ),
            name: p,
        };
        let c = convert(access, t, tree, node);
        (prev.0.push((p, c.0)), prev.1 + c.1)
    }
}

/// The conversion of the first `n` values of an array literal to the element type of
/// the array type `target`.
pub open spec fn convert_values(
    values: Seq<SpecExpression>,
    n: nat,
    target: SpecType,
    tree: ObjectTree,
    node: SourceLocation,
) -> (Seq<SpecExpression>, Seq<SpecDiagnostic>)
    decreases target, 0nat, n,
{
    if n == 0 || n > values.len() || !(target is Array) {
        (Seq::empty(), Seq::empty())
    } else {
        let prev = convert_values(values, (n - 1) as nat, target, tree, node);
        let c = convert(values[n - 1], *target->Array_0, tree, node);
        (prev.0.push(c.0), prev.1 + c.1)
    }
}

/// Whether every type that converting `e` to `target` computes is defined: the type
/// of `e`, and the types of the values that the conversion goes on to convert.
pub open spec fn convert_defined(e: SpecExpression, target: SpecType, tree: ObjectTree) -> bool
    decreases target, 1nat, 0nat,
{
    let ty = spec_ty(e, tree);
    &&& ty_defined(e, tree)
    &&& if ty == target {
        true
    } else if can_convert(ty, target) {
        match (ty, target) {
            (SpecType::Object(a), SpecType::Object(b)) => match e {
                SpecExpression::Object { values, .. } => entries_defined(
                    values,
                    values.len() as nat,
                    target,
                    tree,
                ),
                _ => fields_defined(a, b.len() as nat, target, tree),
            },
            _ => true,
        }
    } else if ty is Invalid || target is Invalid {
        true
    } else {
        match (ty, target, e) {
            (
                SpecType::Array(a),
                SpecType::Array(b),
                SpecExpression::Array { values, .. },
            ) => !can_convert(*a, *b) || values_defined(values, values.len() as nat, target, tree),
            _ => true,
        }
    }
}

/// Whether converting the first `n` values of an object literal to the object type
/// `target` computes only defined types.
pub open spec fn entries_defined(
    values: Seq<(Seq<char>, SpecExpression)>,
    n: nat,
    target: SpecType,
    tree: ObjectTree,
) -> bool
    decreases target, 0nat, n,
{
    if n == 0 || n > values.len() || !(target is Object) {
        true
    } else {
        let b = target->Object_0;
        &&& entries_defined(values, (n - 1) as nat, target, tree)
        &&& match field_index(b, values[n - 1].0) {
            Some(k) => {
                proof {
                    lemma_field_index(b, values[n - 1].0);
                }
                convert_defined(values[n - 1].1, b[k].1, tree)
            },
            None => true,
        }
    }
}

/// Whether converting the first `n` fields of the object type `target`, read from a
/// local variable holding an object of type `a`, computes only defined types.
pub open spec fn fields_defined(
    a: Seq<(Seq<char>, SpecType)>,
    n: nat,
    target: SpecType,
    tree: ObjectTree,
) -> bool
    decreases target, 0nat, n,
{
    if n == 0 || !(target is Object) || n > target->Object_0.len() {
        true
    } else {
        let (p, t) = target->Object_0[n - 1];
        let access = SpecExpression::ObjectAccess {
            base: Box::new(
                SpecExpression::ReadLocalVariable { name: tmpobj(), ty: SpecType::Object(a) },
            ),
            name: p,
        };
        fields_defined(a, (n - 1) as nat, target, tree) && convert_defined(access, t, tree)
    }
}

/// Whether converting the first `n` values of an array literal to the element type of
/// the array type `target` computes only defined types.
pub open spec fn values_defined(
    values: Seq<SpecExpression>,
    n: nat,
    target: SpecType,
    tree: ObjectTree,
) -> bool
    decreases target, 0nat, n,
{
    if n == 0 || n > values.len() || !(target is Array) {
        true
    } else {
        values_defined(values, (n - 1) as nat, target, tree) && convert_defined(
            values[n - 1],
            *target->Array_0,
            tree,
        )
    }
}

/// Where converting the first `n` values of an object literal computes only defined
/// types, so does converting its value at `i`, for `i` below `n`.
proof fn lemma_entries_defined(
    values: Seq<(Seq<char>, SpecExpression)>,
    n: nat,
    target: SpecType,
    tree: ObjectTree,
    i: int,
)
    requires
        entries_defined(values, n, target, tree),
        0 <= i < n <= values.len(),
        target is Object,
    ensures
        match field_index(target->Object_0, values[i].0) {
            Some(k) => convert_defined(values[i].1, target->Object_0[k].1, tree),
            None => true,
        },
    decreases n,
{
    if i < n - 1 {
        lemma_entries_defined(values, (n - 1) as nat, target, tree, i);
    }
}

/// Where converting the first `n` fields of an object type computes only defined
/// types, so does converting its field at `j`, for `j` below `n`.
proof fn lemma_fields_defined(
    a: Seq<(Seq<char>, SpecType)>,
    n: nat,
    target: SpecType,
    tree: ObjectTree,
    j: int,
)
    requires
        fields_defined(a, n, target, tree),
        target is Object,
        0 <= j < n <= target->Object_0.len(),
    ensures
        convert_defined(
            SpecExpression::ObjectAccess {
                base: Box::new(
                    SpecExpression::ReadLocalVariable { name: tmpobj(), ty: SpecType::Object(a) },
                ),
                name: target->Object_0[j].0,
            },
            target->Object_0[j].1,
            tree,
        ),
    decreases n,
{
    if j < n - 1 {
        lemma_fields_defined(a, (n - 1) as nat, target, tree, j);
    }
}

/// Where converting the first `n` values of an array literal computes only defined
/// types, so does converting its value at `i`, for `i` below `n`.
proof fn lemma_values_defined(
    values: Seq<SpecExpression>,
    n: nat,
    target: SpecType,
    tree: ObjectTree,
    i: int,
)
    requires
        values_defined(values, n, target, tree),
        0 <= i < n <= values.len(),
        target is Array,
    ensures
        convert_defined(values[i], *target->Array_0, tree),
    decreases n,
{
    if i < n - 1 {
        lemma_values_defined(values, (n - 1) as nat, target, tree, i);
    }
}

/// What the error for a failed conversion from `ty` to `target` suggests.
fn hint_for(ty: &Type, target: &Type) -> (h: ConversionHint)
    ensures
        h == conversion_hint(ty@, target@),
{
    match default_unit(ty) {
        Some(from_unit) => if matches!(target, Type::Int32 | Type::Float32 | Type::String) {
            ConversionHint::DivideByUnit(from_unit)
        } else {
            ConversionHint::NoHint
        },
        None => match default_unit(target) {
            Some(to_unit) => if matches!(ty, Type::Int32 | Type::Float32) {
                ConversionHint::MultiplyByUnit(to_unit)
            } else {
                ConversionHint::NoHint
            },
            None => ConversionHint::NoHint,
        },
    }
}

/// The index of the first field of the given name.
fn find_field(fields: &Vec<ObjectField>, name: &String) -> (r: Option<usize>)
    ensures
        match r {
            Some(k) => field_index(fields_view(fields@), name@) == Some(k as int),
            None => field_index(fields_view(fields@), name@) is None,
        },
{
    proof {
        lemma_fields_view(fields@);
        lemma_field_index(fields_view(fields@), name@);
    }
    let ghost fv = fields_view(fields@);
    let mut i: usize = 0;
    while i < fields.len()
        invariant
            0 <= i <= fields.len(),
            fv == fields_view(fields@),
            fv.len() == fields.len(),
            forall|j: int|
                0 <= j < fields.len() ==> #[trigger] fv[j] == (fields@[j].name@, type_view(
                    fields@[j].ty,
                )),
            forall|j: int| 0 <= j < i ==> fv[j].0 != name@,
            field_index(fv, name@) matches Some(k) ==> 0 <= k < fv.len() && fv[k].0 == name@
                && forall|j: int| 0 <= j < k ==> fv[j].0 != name@,
            field_index(fv, name@) is None ==> forall|j: int| 0 <= j < fv.len() ==> fv[j].0 != name@,
        decreases fields.len() - i,
    {
        if fields[i].name == *name {
            assert(fv[i as int].0 == name@);
            return Some(i);
        }
        i += 1;
    }
    None
}

/// The window's scale factor, as an expression.
fn scale_factor_call_expression() -> (e: Expression)
    ensures
        e@ == scale_factor_call(),
{
    let arguments: Vec<Expression> = Vec::new();
    let f = Expression::BuiltinFunctionReference(BuiltinFunction::GetWindowScaleFactor);
    assert(f@ == SpecExpression::BuiltinFunctionReference(BuiltinFunction::GetWindowScaleFactor));
    proof {
        lemma_exprs_view(arguments@);
    }
    let e = Expression::FunctionCall { function: Box::new(f), arguments };
    assert(e@->FunctionCall_arguments =~= Seq::<SpecExpression>::empty());
    e
}

/// The name of the local variable that holds an object while its fields are converted.
fn tmpobj_name() -> (s: String)
    ensures
        s@ == tmpobj(),
{
    let s = String::from_str("tmpobj");
    proof {
        reveal_strlit("tmpobj");
    }
    assert(s@ =~= tmpobj());
    s
}

/// Converts each value of an object literal to the field of the same name of the
/// object type `target`, dropping the values whose name the type lacks.
fn convert_entries_exec(
    values: Vec<(String, Expression)>,
    target: &Type,
    tree: &ObjectTree,
    node: &SourceLocation,
    diag: &mut BuildDiagnostics,
) -> (r: Vec<(String, Expression)>)
    requires
        target is Object,
        entries_defined(
            crate::expression_tree::entries_view(values@),
            values.len() as nat,
            target@,
            *tree,
        ),
    ensures
        crate::expression_tree::entries_view(r@) == convert_entries(
            crate::expression_tree::entries_view(values@),
            values.len() as nat,
            target@,
            *tree,
            *node,
        ).0,
        final(diag)@ == old(diag)@ + convert_entries(
            crate::expression_tree::entries_view(values@),
            values.len() as nat,
            target@,
            *tree,
            *node,
        ).1,
    decreases target@, 0nat, 0nat,
{
    let ghost orig = values@;
    let ghost ov = crate::expression_tree::entries_view(orig);
    let ghost n = values.len();
    proof {
        lemma_entries_view(orig);
    }
    let b = match target {
        Type::Object(b) => b,
        _ => {
            return Vec::new();
        },
    };
    proof {
        lemma_fields_view(b@);
    }
    let mut rest = values;
    let mut out: Vec<(String, Expression)> = Vec::new();
    let mut i: usize = 0;
    assert(orig.subrange(0, n as int) =~= orig);
    proof {
        lemma_entries_view(out@);
        assert(crate::expression_tree::entries_view(out@) =~= Seq::empty());
        assert(old(diag)@ + Seq::<SpecDiagnostic>::empty() =~= old(diag)@);
    }
    while rest.len() > 0
        invariant
            0 <= i <= n,
            n == orig.len(),
            rest@ == orig.subrange(i as int, n as int),
            ov == crate::expression_tree::entries_view(orig),
            ov.len() == orig.len(),
            forall|j: int|
                0 <= j < orig.len() ==> #[trigger] ov[j] == (orig[j].0@, crate::expression_tree::expr_view(orig[j].1)),
            entries_defined(ov, n as nat, target@, *tree),
            *target == Type::Object(*b),
            fields_view(b@).len() == b.len(),
            forall|j: int|
                0 <= j < b.len() ==> #[trigger] fields_view(b@)[j] == (b@[j].name@, type_view(b@[j].ty)),
            crate::expression_tree::entries_view(out@) == convert_entries(ov, i as nat, target@, *tree, *node).0,
            diag@ == old(diag)@ + convert_entries(ov, i as nat, target@, *tree, *node).1,
        decreases rest.len(),
    {
        let ghost before = out@;
        let ghost diag_before = diag@;
        let (name, value) = rest.remove(0);
        assert(orig[i as int] == (name, value));
        let ghost prev = convert_entries(ov, i as nat, target@, *tree, *node);
        assert(ov[i as int] == (name@, value@));
        match find_field(b, &name) {
            Some(k) => {
                proof {
                    lemma_field_index(fields_view(b@), name@);
                    lemma_entries_defined(ov, n as nat, target@, *tree, i as int);
                    assert(decreases_to!(target@ => fields_view(b@)));
                    assert(decreases_to!(fields_view(b@) => fields_view(b@)[k as int]));
                    assert(decreases_to!(fields_view(b@)[k as int] => fields_view(b@)[k as int].1));
                }
                let t = b[k].ty.clone_type();
                let c = value.maybe_convert_to(t, tree, node, diag);
                out.push((name, c));
                proof {
                    lemma_entries_view(out@);
                    assert(out@.subrange(0, out@.len() - 1) =~= before);
                    assert(diag@ =~= old(diag)@ + convert_entries(ov, (i + 1) as nat, target@, *tree, *node).1);
                }
            },
            None => {},
        }
        assert(rest@ =~= orig.subrange(i + 1, n as int));
        i += 1;
    }
    assert(i == n);
    out
}

/// Converts the field of each name of the object type `target`, read from a local
/// variable holding an object of type `a`.
fn convert_fields_exec(
    a: &Type,
    target: &Type,
    tree: &ObjectTree,
    node: &SourceLocation,
    diag: &mut BuildDiagnostics,
) -> (r: Vec<(String, Expression)>)
    requires
        a is Object,
        target is Object,
        fields_defined(a@->Object_0, target@->Object_0.len() as nat, target@, *tree),
    ensures
        crate::expression_tree::entries_view(r@) == convert_fields(
            a@->Object_0,
            target@->Object_0.len() as nat,
            target@,
            *tree,
            *node,
        ).0,
        final(diag)@ == old(diag)@ + convert_fields(
            a@->Object_0,
            target@->Object_0.len() as nat,
            target@,
            *tree,
            *node,
        ).1,
    decreases target@, 0nat, 0nat,
{
    let b = match target {
        Type::Object(b) => b,
        _ => {
            return Vec::new();
        },
    };
    let ghost fa = a@->Object_0;
    proof {
        lemma_fields_view(b@);
    }
    let mut out: Vec<(String, Expression)> = Vec::new();
    let mut j: usize = 0;
    proof {
        lemma_entries_view(out@);
        assert(crate::expression_tree::entries_view(out@) =~= Seq::empty());
        assert(old(diag)@ + Seq::<SpecDiagnostic>::empty() =~= old(diag)@);
    }
    while j < b.len()
        invariant
            0 <= j <= b.len(),
            a@ == SpecType::Object(fa),
            *target == Type::Object(*b),
            fields_defined(fa, b.len() as nat, target@, *tree),
            fields_view(b@).len() == b.len(),
            forall|k: int|
                0 <= k < b.len() ==> #[trigger] fields_view(b@)[k] == (b@[k].name@, type_view(b@[k].ty)),
            crate::expression_tree::entries_view(out@) == convert_fields(fa, j as nat, target@, *tree, *node).0,
            diag@ == old(diag)@ + convert_fields(fa, j as nat, target@, *tree, *node).1,
        decreases b.len() - j,
    {
        let ghost before = out@;
        let local = Expression::ReadLocalVariable { name: tmpobj_name(), ty: a.clone_type() };
        assert(local@ == SpecExpression::ReadLocalVariable { name: tmpobj(), ty: SpecType::Object(fa) });
        let access = Expression::ObjectAccess { base: Box::new(local), name: b[j].name.clone() };
        assert(access@ == SpecExpression::ObjectAccess {
            base: Box::new(SpecExpression::ReadLocalVariable { name: tmpobj(), ty: SpecType::Object(fa) }),
            name: fields_view(b@)[j as int].0,
        });
        proof {
            lemma_fields_defined(fa, b.len() as nat, target@, *tree, j as int);
            assert(decreases_to!(target@ => fields_view(b@)));
            assert(decreases_to!(fields_view(b@) => fields_view(b@)[j as int]));
            assert(decreases_to!(fields_view(b@)[j as int] => fields_view(b@)[j as int].1));
        }
        let t = b[j].ty.clone_type();
        let c = access.maybe_convert_to(t, tree, node, diag);
        out.push((b[j].name.clone(), c));
        proof {
            lemma_entries_view(out@);
            assert(out@.subrange(0, out@.len() - 1) =~= before);
            assert(diag@ =~= old(diag)@ + convert_fields(fa, (j + 1) as nat, target@, *tree, *node).1);
        }
        j += 1;
    }
    out
}

/// Converts each value of an array literal to the element type of the array type
/// `target`.
fn convert_values_exec(
    values: Vec<Expression>,
    target: &Type,
    tree: &ObjectTree,
    node: &SourceLocation,
    diag: &mut BuildDiagnostics,
) -> (r: Vec<Expression>)
    requires
        target is Array,
        values_defined(
            crate::expression_tree::exprs_view(values@),
            values.len() as nat,
            target@,
            *tree,
        ),
    ensures
        crate::expression_tree::exprs_view(r@) == convert_values(
            crate::expression_tree::exprs_view(values@),
            values.len() as nat,
            target@,
            *tree,
            *node,
        ).0,
        final(diag)@ == old(diag)@ + convert_values(
            crate::expression_tree::exprs_view(values@),
            values.len() as nat,
            target@,
            *tree,
            *node,
        ).1,
    decreases target@, 0nat, 0nat,
{
    let ghost orig = values@;
    let ghost ov = crate::expression_tree::exprs_view(orig);
    let ghost n = values.len();
    proof {
        lemma_exprs_view(orig);
    }
    let elem = match target {
        Type::Array(e) => e,
        _ => {
            return Vec::new();
        },
    };
    let mut rest = values;
    let mut out: Vec<Expression> = Vec::new();
    let mut i: usize = 0;
    assert(orig.subrange(0, n as int) =~= orig);
    proof {
        lemma_exprs_view(out@);
        assert(crate::expression_tree::exprs_view(out@) =~= Seq::empty());
        assert(old(diag)@ + Seq::<SpecDiagnostic>::empty() =~= old(diag)@);
    }
    while rest.len() > 0
        invariant
            0 <= i <= n,
            n == orig.len(),
            rest@ == orig.subrange(i as int, n as int),
            ov == crate::expression_tree::exprs_view(orig),
            ov.len() == orig.len(),
            forall|j: int| 0 <= j < orig.len() ==> #[trigger] ov[j] == crate::expression_tree::expr_view(orig[j]),
            values_defined(ov, n as nat, target@, *tree),
            *target == Type::Array(*elem),
            crate::expression_tree::exprs_view(out@) == convert_values(ov, i as nat, target@, *tree, *node).0,
            diag@ == old(diag)@ + convert_values(ov, i as nat, target@, *tree, *node).1,
        decreases rest.len(),
    {
        let ghost before = out@;
        let value = rest.remove(0);
        assert(orig[i as int] == value);
        assert(ov[i as int] == value@);
        proof {
            lemma_values_defined(ov, n as nat, target@, *tree, i as int);
            assert(decreases_to!(target@ => *target@->Array_0));
        }
        let t = elem.clone_type();
        let c = value.maybe_convert_to(t, tree, node, diag);
        out.push(c);
        proof {
            lemma_exprs_view(out@);
            assert(out@.subrange(0, out@.len() - 1) =~= before);
            assert(diag@ =~= old(diag)@ + convert_values(ov, (i + 1) as nat, target@, *tree, *node).1);
        }
        assert(rest@ =~= orig.subrange(i + 1, n as int));
        i += 1;
    }
    out
}

impl Expression {
    /// Create a conversion node if needed, or throw an error if the type is not matching
    pub fn maybe_convert_to(
        self,
        target_type: Type,
        tree: &ObjectTree,
        node: &SourceLocation,
        diag: &mut BuildDiagnostics,
    ) -> (r: Expression)
        requires
            convert_defined(self@, target_type@, *tree),
        ensures
            r@ == convert(self@, target_type@, *tree, *node).0,
            final(diag)@ == old(diag)@ + convert(self@, target_type@, *tree, *node).1,
        decreases target_type@, 1nat, 0nat,
    {
        proof {
            assert(old(diag)@ + Seq::<SpecDiagnostic>::empty() =~= old(diag)@);
        }
        let ty = self.ty(tree);
        if ty.same_type(&target_type) {
            return self;
        }
        if ty.can_convert(&target_type) {
            if matches!(ty, Type::Length) && matches!(target_type, Type::LogicalLength) {
                let ghost e = self@;
                let from = Expression::BinaryExpression {
                    lhs: Box::new(self),
                    rhs: Box::new(scale_factor_call_expression()),
                    op: '/',
                };
                assert(from@ == SpecExpression::BinaryExpression {
                    lhs: Box::new(e),
                    rhs: Box::new(scale_factor_call()),
                    op: '/',
                });
                return Expression::Cast { from: Box::new(from), to: target_type };
            }
            if matches!(ty, Type::LogicalLength) && matches!(target_type, Type::Length) {
                let ghost e = self@;
                let from = Expression::BinaryExpression {
                    lhs: Box::new(self),
                    rhs: Box::new(scale_factor_call_expression()),
                    op: '*',
                };
                assert(from@ == SpecExpression::BinaryExpression {
                    lhs: Box::new(e),
                    rhs: Box::new(scale_factor_call()),
                    op: '*',
                });
                return Expression::Cast { from: Box::new(from), to: target_type };
            }
            if matches!(ty, Type::Object(_)) && matches!(target_type, Type::Object(_)) {
                match self {
                    Expression::Object { values, .. } => {
                        proof {
                            lemma_entries_view(values@);
                        }
                        let values = convert_entries_exec(values, &target_type, tree, node, diag);
                        return Expression::Object { ty: target_type, values };
                    },
                    other => {
                        let values = convert_fields_exec(&ty, &target_type, tree, node, diag);
                        let store = Expression::StoreLocalVariable {
                            name: tmpobj_name(),
                            value: Box::new(other),
                        };
                        let object = Expression::Object { ty: target_type, values };
                        let mut block: Vec<Expression> = Vec::new();
                        block.push(store);
                        block.push(object);
                        proof {
                            lemma_exprs_view(block@);
                        }
                        let r = Expression::CodeBlock(block);
                        assert(r@->CodeBlock_0 =~= seq![block@[0]@, block@[1]@]);
                        return r;
                    },
                }
            }
            return Expression::Cast { from: Box::new(self), to: target_type };
        }
        if matches!(ty, Type::Invalid) || matches!(target_type, Type::Invalid) {
            return self;
        }
        let array_literal_converts = match (&ty, &target_type, &self) {
            (Type::Array(a), Type::Array(b), Expression::Array { .. }) => a.can_convert(b),
            _ => false,
        };
        if array_literal_converts {
            match self {
                Expression::Array { values, .. } => {
                    proof {
                        lemma_exprs_view(values@);
                    }
                    let values = convert_values_exec(values, &target_type, tree, node, diag);
                    match target_type {
                        Type::Array(element_ty) => {
                            return Expression::Array { element_ty: *element_ty, values };
                        },
                        _ => {
                            return Expression::Invalid;
                        },
                    }
                },
                _ => {
                    return Expression::Invalid;
                },
            }
        }
        let hint = hint_for(&ty, &target_type);
        let error = Diagnostic { from: ty, to: target_type, hint, location: node.clone_location() };
        diag.push_error(error);
        self
    }
}

/// An expression that already has the target type is left as it is, and nothing is
/// reported.
pub proof fn law_convert_same_type(
    e: SpecExpression,
    target: SpecType,
    tree: ObjectTree,
    node: SourceLocation,
)
    requires
        spec_ty(e, tree) == target,
    ensures
        convert(e, target, tree, node) == (e, Seq::<SpecDiagnostic>::empty()),
{
}

/// An expression whose type is invalid, converted to anything but `Void`, or any
/// expression converted to the invalid type, is left as it is, and nothing is
/// reported: the error that made it invalid was reported already.
pub proof fn law_convert_invalid_unchanged(
    e: SpecExpression,
    target: SpecType,
    tree: ObjectTree,
    node: SourceLocation,
)
    requires
        (spec_ty(e, tree) is Invalid && !(target is Void)) || target is Invalid,
    ensures
        convert(e, target, tree, node) == (e, Seq::<SpecDiagnostic>::empty()),
{
}

/// Where the expression has the target type, or a type that converts to it, the
/// converted expression has the target type.
pub proof fn law_convert_has_target_type(
    e: SpecExpression,
    target: SpecType,
    tree: ObjectTree,
    node: SourceLocation,
)
    requires
        spec_ty(e, tree) == target || can_convert(spec_ty(e, tree), target),
    ensures
        spec_ty(convert(e, target, tree, node).0, tree) == target,
{
    let ty = spec_ty(e, tree);
    let r = convert(e, target, tree, node);
    if ty == target {
    } else {
        match (ty, target) {
            (SpecType::Length, SpecType::LogicalLength) => {},
            (SpecType::LogicalLength, SpecType::Length) => {},
            (SpecType::Object(a), SpecType::Object(b)) => match e {
                SpecExpression::Object { values, .. } => {},
                _ => {
                    let f = convert_fields(a, b.len() as nat, target, tree, node);
                    let obj = SpecExpression::Object { ty: target, values: f.0 };
                    let block = seq![
                        SpecExpression::StoreLocalVariable { name: tmpobj(), value: Box::new(e) },
                        obj,
                    ];
                    assert(r.0 == SpecExpression::CodeBlock(block));
                    assert(block[block.len() - 1] == obj);
                    assert(spec_ty(obj, tree) == target);
                },
            },
            _ => {},
        }
    }
}

/// Where neither the expression's type nor the target type is invalid, the converted
/// expression has the target type, or the one error that says the conversion is not
/// possible is reported.
pub proof fn law_convert_reaches_target(
    e: SpecExpression,
    target: SpecType,
    tree: ObjectTree,
    node: SourceLocation,
)
    requires
        !(spec_ty(e, tree) is Invalid),
        !(target is Invalid),
    ensures
        spec_ty(convert(e, target, tree, node).0, tree) == target || convert(
            e,
            target,
            tree,
            node,
        ).1 == seq![conversion_error(spec_ty(e, tree), target, node)],
{
    let ty = spec_ty(e, tree);
    let r = convert(e, target, tree, node);
    if ty == target {
    } else if can_convert(ty, target) {
        match (ty, target) {
            (SpecType::Length, SpecType::LogicalLength) => {},
            (SpecType::LogicalLength, SpecType::Length) => {},
            (SpecType::Object(a), SpecType::Object(b)) => match e {
                SpecExpression::Object { values, .. } => {},
                _ => {
                    let f = convert_fields(a, b.len() as nat, target, tree, node);
                    let obj = SpecExpression::Object { ty: target, values: f.0 };
                    let block = seq![
                        SpecExpression::StoreLocalVariable { name: tmpobj(), value: Box::new(e) },
                        obj,
                    ];
                    assert(r.0 == SpecExpression::CodeBlock(block));
                    assert(block[block.len() - 1] == obj);
                    assert(spec_ty(obj, tree) == target);
                },
            },
            _ => {},
        }
    } else {
        match (ty, target, e) {
            (
                SpecType::Array(a),
                SpecType::Array(b),
                SpecExpression::Array { values, .. },
            ) => {},
            _ => {},
        }
    }
}

/// Where the expression and the repeater models of the tree hold only binary
/// operators in their binary expressions, every type that converting the expression
/// computes is defined.
pub proof fn law_valid_operators_convert(e: SpecExpression, target: SpecType, tree: ObjectTree)
    requires
        operators_valid(e),
        tree_operators_valid(tree),
    ensures
        convert_defined(e, target, tree),
    decreases target, 1nat, 0nat,
{
    lemma_ty_defined(e, tree, tree.elements.len() as nat);
    let ty = spec_ty(e, tree);
    if ty == target {
    } else if can_convert(ty, target) {
        match (ty, target) {
            (SpecType::Object(a), SpecType::Object(b)) => match e {
                SpecExpression::Object { values, .. } => {
                    lemma_valid_entries_convert(values, values.len() as nat, target, tree);
                },
                _ => {
                    lemma_valid_fields_convert(a, b.len() as nat, target, tree);
                },
            },
            _ => {},
        }
    } else if ty is Invalid || target is Invalid {
    } else {
        match (ty, target, e) {
            (
                SpecType::Array(a),
                SpecType::Array(b),
                SpecExpression::Array { values, .. },
            ) => {
                lemma_valid_values_convert(values, values.len() as nat, target, tree);
            },
            _ => {},
        }
    }
}

/// Converting object literal values that hold only binary operators computes only
/// defined types.
proof fn lemma_valid_entries_convert(
    values: Seq<(Seq<char>, SpecExpression)>,
    n: nat,
    target: SpecType,
    tree: ObjectTree,
)
    requires
        entries_operators_valid(values),
        tree_operators_valid(tree),
    ensures
        entries_defined(values, n, target, tree),
    decreases target, 0nat, n,
{
    if n == 0 || n > values.len() || !(target is Object) {
    } else {
        let b = target->Object_0;
        lemma_valid_entries_convert(values, (n - 1) as nat, target, tree);
        match field_index(b, values[n - 1].0) {
            Some(k) => {
                lemma_field_index(b, values[n - 1].0);
                assert(operators_valid(values[n - 1].1));
                assert(decreases_to!(target => b));
                assert(decreases_to!(b => b[k]));
                assert(decreases_to!(b[k] => b[k].1));
                law_valid_operators_convert(values[n - 1].1, b[k].1, tree);
            },
            None => {},
        }
    }
}

/// Converting the fields of an object read from a local variable computes only
/// defined types.
proof fn lemma_valid_fields_convert(
    a: Seq<(Seq<char>, SpecType)>,
    n: nat,
    target: SpecType,
    tree: ObjectTree,
)
    requires
        tree_operators_valid(tree),
    ensures
        fields_defined(a, n, target, tree),
    decreases target, 0nat, n,
{
    if n == 0 || !(target is Object) || n > target->Object_0.len() {
    } else {
        let b = target->Object_0;
        let (p, t) = b[n - 1];
        let access = SpecExpression::ObjectAccess {
            base: Box::new(
                SpecExpression::ReadLocalVariable { name: tmpobj(), ty: SpecType::Object(a) },
            ),
            name: p,
        };
        lemma_valid_fields_convert(a, (n - 1) as nat, target, tree);
        assert(operators_valid(
            SpecExpression::ReadLocalVariable { name: tmpobj(), ty: SpecType::Object(a) },
        ));
        assert(operators_valid(access));
        assert(decreases_to!(target => b));
        assert(decreases_to!(b => b[n - 1]));
        assert(decreases_to!(b[n - 1] => b[n - 1].1));
        law_valid_operators_convert(access, t, tree);
    }
}

/// Converting array literal values that hold only binary operators computes only
/// defined types.
proof fn lemma_valid_values_convert(
    values: Seq<SpecExpression>,
    n: nat,
    target: SpecType,
    tree: ObjectTree,
)
    requires
        all_operators_valid(values),
        tree_operators_valid(tree),
    ensures
        values_defined(values, n, target, tree),
    decreases target, 0nat, n,
{
    if n == 0 || n > values.len() || !(target is Array) {
    } else {
        lemma_valid_values_convert(values, (n - 1) as nat, target, tree);
        assert(operators_valid(values[n - 1]));
        assert(decreases_to!(target => *target->Array_0));
        law_valid_operators_convert(values[n - 1], *target->Array_0, tree);
    }
}

/// Converting keeps every object literal naming each of its values once: where the
/// expression does, and the object types of the target have their fields in
/// ascending order of name, so does the converted expression.
pub proof fn law_convert_names_unique(
    e: SpecExpression,
    target: SpecType,
    tree: ObjectTree,
    node: SourceLocation,
)
    requires
        names_unique(e),
        type_wf(target),
    ensures
        names_unique(convert(e, target, tree, node).0),
    decreases target, 1nat, 0nat,
{
    let ty = spec_ty(e, tree);
    let r = convert(e, target, tree, node);
    let call = scale_factor_call();
    assert(all_names_unique(Seq::<SpecExpression>::empty()));
    assert(names_unique(SpecExpression::BuiltinFunctionReference(BuiltinFunction::GetWindowScaleFactor)));
    assert(names_unique(call));
    if ty == target {
    } else if can_convert(ty, target) {
        match (ty, target) {
            (SpecType::Length, SpecType::LogicalLength) => {
                assert(names_unique(
                    SpecExpression::BinaryExpression { lhs: Box::new(e), rhs: Box::new(call), op: '/' },
                ));
            },
            (SpecType::LogicalLength, SpecType::Length) => {
                assert(names_unique(
                    SpecExpression::BinaryExpression { lhs: Box::new(e), rhs: Box::new(call), op: '*' },
                ));
            },
            (SpecType::Object(a), SpecType::Object(b)) => {
                assert(fields_sorted(b) && fields_wf(b));
                law_sorted_fields_unique(b);
                match e {
                    SpecExpression::Object { values, .. } => {
                        lemma_entries_names_unique(values, values.len() as nat, target, tree, node);
                    },
                    _ => {
                        lemma_fields_names_unique(a, b.len() as nat, target, tree, node);
                        let f = convert_fields(a, b.len() as nat, target, tree, node);
                        let obj = SpecExpression::Object { ty: target, values: f.0 };
                        let store = SpecExpression::StoreLocalVariable {
                            name: tmpobj(),
                            value: Box::new(e),
                        };
                        assert(names_unique(obj));
                        assert(names_unique(store));
                        assert(all_names_unique(seq![store, obj]));
                    },
                }
            },
            _ => {},
        }
    } else if ty is Invalid || target is Invalid {
    } else {
        match (ty, target, e) {
            (
                SpecType::Array(a),
                SpecType::Array(b),
                SpecExpression::Array { values, .. },
            ) => {
                if can_convert(*a, *b) {
                    lemma_values_names_unique(values, values.len() as nat, target, tree, node);
                }
            },
            _ => {},
        }
    }
}

/// Converting the values of an object literal keeps only names of the literal, each
/// once where the literal has them once, and keeps each converted value naming its
/// object literals' values once.
proof fn lemma_entries_names_unique(
    values: Seq<(Seq<char>, SpecExpression)>,
    n: nat,
    target: SpecType,
    tree: ObjectTree,
    node: SourceLocation,
)
    requires
        unique_names(values),
        entries_names_unique(values),
        type_wf(target),
    ensures
        ({
            let r = convert_entries(values, n, target, tree, node).0;
            &&& forall|i: int|
                0 <= i < r.len() ==> exists|j: int|
                    0 <= j < n && j < values.len() && #[trigger] r[i].0 == values[j].0
            &&& unique_names(r)
            &&& entries_names_unique(r)
        }),
    decreases target, 0nat, n,
{
    if n == 0 || n > values.len() || !(target is Object) {
    } else {
        let b = target->Object_0;
        lemma_entries_names_unique(values, (n - 1) as nat, target, tree, node);
        let prev = convert_entries(values, (n - 1) as nat, target, tree, node).0;
        let r = convert_entries(values, n, target, tree, node).0;
        let (name, value) = values[n - 1];
        match field_index(b, name) {
            Some(k) => {
                lemma_field_index(b, name);
                assert(fields_wf(b));
                assert(type_wf(b[k].1));
                assert(names_unique(values[n - 1].1));
                assert(decreases_to!(target => b));
                assert(decreases_to!(b => b[k]));
                assert(decreases_to!(b[k] => b[k].1));
                law_convert_names_unique(value, b[k].1, tree, node);
                let c = convert(value, b[k].1, tree, node);
                assert(r == prev.push((name, c.0)));
                assert forall|i: int| 0 <= i < r.len() implies exists|j: int|
                    0 <= j < n && j < values.len() && #[trigger] r[i].0 == values[j].0 by {
                    if i < prev.len() {
                        assert(r[i] == prev[i]);
                    } else {
                        assert(r[i].0 == values[n - 1].0);
                    }
                }
                assert forall|i: int, j: int| 0 <= i < j < r.len() implies #[trigger] r[i].0
                    != #[trigger] r[j].0 by {
                    if j < prev.len() {
                        assert(r[i] == prev[i] && r[j] == prev[j]);
                    } else {
                        assert(r[i] == prev[i]);
                        let m = choose|m: int|
                            0 <= m < n - 1 && m < values.len() && #[trigger] prev[i].0 == values[m].0;
                        assert(values[m].0 != values[n - 1].0);
                    }
                }
                assert forall|i: int| 0 <= i < r.len() implies names_unique(#[trigger] r[i].1) by {
                    if i < prev.len() {
                        assert(r[i] == prev[i]);
                    }
                }
            },
            None => {
                assert forall|i: int| 0 <= i < r.len() implies exists|j: int|
                    0 <= j < n && j < values.len() && #[trigger] r[i].0 == values[j].0 by {
                    assert(r[i] == prev[i]);
                }
            },
        }
    }
}

/// Converting the fields of an object read from a local variable gives the first `n`
/// fields' names, in order, each value naming its object literals' values once.
proof fn lemma_fields_names_unique(
    a: Seq<(Seq<char>, SpecType)>,
    n: nat,
    target: SpecType,
    tree: ObjectTree,
    node: SourceLocation,
)
    requires
        type_wf(target),
    ensures
        target is Object && n <= target->Object_0.len() ==> {
            let r = convert_fields(a, n, target, tree, node).0;
            &&& r.len() == n
            &&& forall|i: int| 0 <= i < r.len() ==> #[trigger] r[i].0 == target->Object_0[i].0
            &&& entries_names_unique(r)
        },
    decreases target, 0nat, n,
{
    if n == 0 || !(target is Object) || n > target->Object_0.len() {
    } else {
        let b = target->Object_0;
        let (p, t) = b[n - 1];
        let access = SpecExpression::ObjectAccess {
            base: Box::new(
                SpecExpression::ReadLocalVariable { name: tmpobj(), ty: SpecType::Object(a) },
            ),
            name: p,
        };
        lemma_fields_names_unique(a, (n - 1) as nat, target, tree, node);
        assert(names_unique(
            SpecExpression::ReadLocalVariable { name: tmpobj(), ty: SpecType::Object(a) },
        ));
        assert(names_unique(access));
        assert(fields_wf(b));
        assert(type_wf(b[n - 1].1));
        assert(decreases_to!(target => b));
        assert(decreases_to!(b => b[n - 1]));
        assert(decreases_to!(b[n - 1] => b[n - 1].1));
        law_convert_names_unique(access, t, tree, node);
        let prev = convert_fields(a, (n - 1) as nat, target, tree, node).0;
        let r = convert_fields(a, n, target, tree, node).0;
        assert forall|i: int| 0 <= i < r.len() implies #[trigger] r[i].0 == b[i].0 && names_unique(
            r[i].1,
        ) by {
            if i < prev.len() {
                assert(r[i] == prev[i]);
            }
        }
    }
}

/// Converting the values of an array literal keeps each naming its object literals'
/// values once.
proof fn lemma_values_names_unique(
    values: Seq<SpecExpression>,
    n: nat,
    target: SpecType,
    tree: ObjectTree,
    node: SourceLocation,
)
    requires
        all_names_unique(values),
        type_wf(target),
    ensures
        all_names_unique(convert_values(values, n, target, tree, node).0),
    decreases target, 0nat, n,
{
    if n == 0 || n > values.len() || !(target is Array) {
    } else {
        lemma_values_names_unique(values, (n - 1) as nat, target, tree, node);
        assert(names_unique(values[n - 1]));
        assert(type_wf(*target->Array_0));
        assert(decreases_to!(target => *target->Array_0));
        law_convert_names_unique(values[n - 1], *target->Array_0, tree, node);
        let prev = convert_values(values, (n - 1) as nat, target, tree, node).0;
        let r = convert_values(values, n, target, tree, node).0;
        assert forall|i: int| 0 <= i < r.len() implies names_unique(#[trigger] r[i]) by {
            if i < prev.len() {
                assert(r[i] == prev[i]);
            }
        }
    }
}

/// How a conversion is written: a length becomes a logical length by dividing it by
/// the window's scale factor, and a logical length a length by multiplying it by that
/// factor, each cast to the target; any other implicit conversion between types that
/// are not both object types is a cast. A conversion that is not possible, between
/// valid types and not of an array literal, leaves the expression and reports one
/// error, which suggests dividing by `1px`, `1lx` or `1ms` when a length, logical
/// length or duration is used as a plain number or a string, and multiplying by that
/// unit when a plain number is used as one of those types.
pub proof fn law_conversion_forms(
    e: SpecExpression,
    target: SpecType,
    tree: ObjectTree,
    node: SourceLocation,
)
    ensures
        ({
            let ty = spec_ty(e, tree);
            let r = convert(e, target, tree, node);
            let call = SpecExpression::FunctionCall {
                function: Box::new(
                    SpecExpression::BuiltinFunctionReference(BuiltinFunction::GetWindowScaleFactor),
                ),
                arguments: Seq::empty(),
            };
            &&& ty is Length && target is LogicalLength ==> r == (SpecExpression::Cast {
                from: Box::new(
                    SpecExpression::BinaryExpression { lhs: Box::new(e), rhs: Box::new(call), op: '/' },
                ),
                to: target,
            }, Seq::<SpecDiagnostic>::empty())
            &&& ty is LogicalLength && target is Length ==> r == (SpecExpression::Cast {
                from: Box::new(
                    SpecExpression::BinaryExpression { lhs: Box::new(e), rhs: Box::new(call), op: '*' },
                ),
                to: target,
            }, Seq::<SpecDiagnostic>::empty())
            &&& ty != target && can_convert(ty, target) && !(ty is Object && target is Object)
                && !(ty is Length && target is LogicalLength) && !(ty is LogicalLength
                && target is Length) ==> r == (SpecExpression::Cast { from: Box::new(e), to: target },
            Seq::<SpecDiagnostic>::empty())
            &&& !can_convert(ty, target) && !(ty is Invalid) && !(target is Invalid) && !(
            e is Array && ty is Array && target is Array) ==> {
                &&& r.0 == e
                &&& r.1.len() == 1
                &&& r.1[0].from == ty && r.1[0].to == target
                &&& r.1[0].hint == if (ty is Length || ty is LogicalLength || ty is Duration) {
                    if target is Int32 || target is Float32 || target is String {
                        ConversionHint::DivideByUnit(
                            if ty is Length {
                                Unit::Px
                            } else if ty is LogicalLength {
                                Unit::Lx
                            } else {
                                Unit::Ms
                            },
                        )
                    } else {
                        ConversionHint::NoHint
                    }
                } else if (target is Length || target is LogicalLength || target is Duration) && (
                ty is Int32 || ty is Float32) {
                    ConversionHint::MultiplyByUnit(
                        if target is Length {
                            Unit::Px
                        } else if target is LogicalLength {
                            Unit::Lx
                        } else {
                            Unit::Ms
                        },
                    )
                } else {
                    ConversionHint::NoHint
                }
            }
        }),
{
}

} // verus!
