//! Rewriting the direct sub-expressions of an expression in place.

use vstd::prelude::*;

use crate::expression_tree::{
    binding_expressions, bindings_view, entries_view, exprs_view, expr_view, lemma_bindings_view,
    path_sub_expressions, sub_expressions,
    lemma_entries_view, lemma_exprs_view, lemma_path_elements_view, path_elements_view, path_view, Expression,
    ExpressionSpanned, Path, PathElement, SpecExpression, SpecExpressionSpanned, SpecPath,
    SpecPathElement,
};

verus! {

/// The expressions bound to the properties of a path element, in order.
pub open spec fn binding_children(b: Seq<(String, ExpressionSpanned)>) -> Seq<Expression> {
    b.map_values(|x: (String, ExpressionSpanned)| x.1.expression)
}

/// The expressions bound to the properties of the elements of a path, element by
/// element.
pub open spec fn path_children(els: Seq<PathElement>) -> Seq<Expression>
    decreases els.len(),
{
    if els.len() == 0 {
        Seq::empty()
    } else {
        path_children(els.subrange(0, els.len() - 1)) + binding_children(
            els[els.len() - 1].bindings@,
        )
    }
}

/// The direct sub-expressions of an expression, in the order in which
/// [`Expression::visit_mut`] hands them to its visitor.
pub open spec fn children(e: Expression) -> Seq<Expression> {
    match e {
        Expression::ObjectAccess { base, .. } => seq![*base],
        Expression::Cast { from, .. } => seq![*from],
        Expression::CodeBlock(sub) => sub@,
        Expression::FunctionCall { function, arguments } => seq![*function] + arguments@,
        Expression::SelfAssignment { lhs, rhs, .. } => seq![*lhs, *rhs],
        Expression::Condition { condition, true_expr, false_expr } => seq![
            *condition,
            *true_expr,
            *false_expr,
        ],
        Expression::BinaryExpression { lhs, rhs, .. } => seq![*lhs, *rhs],
        Expression::UnaryOp { sub, .. } => seq![*sub],
        Expression::Array { values, .. } => values@,
        Expression::Object { values, .. } => values@.map_values(|x: (String, Expression)| x.1),
        Expression::PathElements { elements } => match elements {
            Path::Elements(els) => path_children(els@),
            Path::Events(_) => Seq::empty(),
        },
        Expression::StoreLocalVariable { value, .. } => seq![*value],
        _ => Seq::empty(),
    }
}

/// Each expression of a sequence made invalid.
pub open spec fn hollow_all(s: Seq<SpecExpression>) -> Seq<SpecExpression> {
    s.map_values(|x: SpecExpression| SpecExpression::Invalid)
}

/// The bindings of a path element with each bound expression made invalid.
pub open spec fn hollow_bindings(b: Seq<(Seq<char>, SpecExpressionSpanned)>) -> Seq<
    (Seq<char>, SpecExpressionSpanned),
> {
    b.map_values(
        |x: (Seq<char>, SpecExpressionSpanned)|
            (x.0, SpecExpressionSpanned { expression: SpecExpression::Invalid, span: x.1.span }),
    )
}

/// The model of an expression with each direct sub-expression made invalid: what
/// [`Expression::visit_mut`] leaves as it was.
pub open spec fn hollow(e: SpecExpression) -> SpecExpression {
    match e {
        SpecExpression::ObjectAccess { name, .. } => SpecExpression::ObjectAccess {
            base: Box::new(SpecExpression::Invalid),
            name,
        },
        SpecExpression::Cast { to, .. } => SpecExpression::Cast {
            from: Box::new(SpecExpression::Invalid),
            to,
        },
        SpecExpression::CodeBlock(sub) => SpecExpression::CodeBlock(hollow_all(sub)),
        SpecExpression::FunctionCall { arguments, .. } => SpecExpression::FunctionCall {
            function: Box::new(SpecExpression::Invalid),
            arguments: hollow_all(arguments),
        },
        SpecExpression::SelfAssignment { op, .. } => SpecExpression::SelfAssignment {
            lhs: Box::new(SpecExpression::Invalid),
            rhs: Box::new(SpecExpression::Invalid),
            op,
        },
        SpecExpression::Condition { .. } => SpecExpression::Condition {
            condition: Box::new(SpecExpression::Invalid),
            true_expr: Box::new(SpecExpression::Invalid),
            false_expr: Box::new(SpecExpression::Invalid),
        },
        SpecExpression::BinaryExpression { op, .. } => SpecExpression::BinaryExpression {
            lhs: Box::new(SpecExpression::Invalid),
            rhs: Box::new(SpecExpression::Invalid),
            op,
        },
        SpecExpression::UnaryOp { op, .. } => SpecExpression::UnaryOp {
            sub: Box::new(SpecExpression::Invalid),
            op,
        },
        SpecExpression::Array { element_ty, values } => SpecExpression::Array {
            element_ty,
            values: hollow_all(values),
        },
        SpecExpression::Object { ty, values } => SpecExpression::Object {
            ty,
            values: values.map_values(
                |x: (Seq<char>, SpecExpression)| (x.0, SpecExpression::Invalid),
            ),
        },
        SpecExpression::PathElements { elements } => match elements {
            SpecPath::Elements(els) => SpecExpression::PathElements {
                elements: SpecPath::Elements(
                    els.map_values(|p: SpecPathElement| hollow_element(p)),
                ),
            },
            SpecPath::Events(evs) => SpecExpression::PathElements {
                elements: SpecPath::Events(evs),
            },
        },
        SpecExpression::StoreLocalVariable { name, .. } => SpecExpression::StoreLocalVariable {
            name,
            value: Box::new(SpecExpression::Invalid),
        },
        _ => e,
    }
}

/// Each expression of `after` is one that `visitor` may return for the expression of
/// `before` at the same place.
pub open spec fn visited_each<F: Fn(Expression) -> Expression>(
    visitor: F,
    before: Seq<Expression>,
    after: Seq<Expression>,
) -> bool {
    &&& before.len() == after.len()
    &&& forall|i: int|
        0 <= i < before.len() ==> #[trigger] visitor.ensures((before[i],), after[i])
}

/// `after` is `before` with each direct sub-expression replaced by one that
/// `visitor` may return for it.
pub open spec fn visited<F: Fn(Expression) -> Expression>(
    visitor: F,
    before: Expression,
    after: Expression,
) -> bool {
    &&& hollow(expr_view(after)) == hollow(expr_view(before))
    &&& visited_each(visitor, children(before), children(after))
}

/// Visiting two sequences one after the other visits their concatenation.
proof fn lemma_visited_concat<F: Fn(Expression) -> Expression>(
    visitor: F,
    a1: Seq<Expression>,
    b1: Seq<Expression>,
    a2: Seq<Expression>,
    b2: Seq<Expression>,
)
    requires
        visited_each(visitor, a1, b1),
        visited_each(visitor, a2, b2),
    ensures
        visited_each(visitor, a1 + a2, b1 + b2),
{
    assert forall|i: int| 0 <= i < (a1 + a2).len() implies #[trigger] visitor.ensures(
        ((a1 + a2)[i],),
        (b1 + b2)[i],
    ) by {
        if i < a1.len() {
            assert(visitor.ensures((a1[i],), b1[i]));
        } else {
            assert(visitor.ensures((a2[i - a1.len()],), b2[i - a1.len()]));
        }
    }
}

/// Replaces each expression of `v`, in order, by what `visitor` returns for it.
fn visit_all<F: Fn(Expression) -> Expression>(v: &mut Vec<Expression>, visitor: &F)
    requires
        forall|e: Expression| #[trigger] visitor.requires((e,)),
    ensures
        visited_each(*visitor, old(v)@, final(v)@),
{
    let ghost before = v@;
    let mut i: usize = 0;
    while i < v.len()
        invariant
            0 <= i <= v.len(),
            v@.len() == before.len(),
            forall|e: Expression| #[trigger] visitor.requires((e,)),
            forall|k: int| 0 <= k < i ==> #[trigger] visitor.ensures((before[k],), v@[k]),
            forall|k: int| i <= k < v@.len() ==> #[trigger] v@[k] == before[k],
        decreases before.len() - i,
    {
        let mut taken = Expression::Invalid;
        v.set_and_swap(i, &mut taken);
        let r = visitor(taken);
        v.set(i, r);
        i += 1;
    }
}

/// Replaces the value of each entry of `v`, in order, by what `visitor` returns for
/// it; the names stay.
fn visit_entries<F: Fn(Expression) -> Expression>(
    v: &mut Vec<(String, Expression)>,
    visitor: &F,
)
    requires
        forall|e: Expression| #[trigger] visitor.requires((e,)),
    ensures
        final(v)@.len() == old(v)@.len(),
        forall|k: int| 0 <= k < old(v)@.len() ==> #[trigger] final(v)@[k].0 == old(v)@[k].0,
        visited_each(
            *visitor,
            old(v)@.map_values(|x: (String, Expression)| x.1),
            final(v)@.map_values(|x: (String, Expression)| x.1),
        ),
{
    let ghost before = v@;
    let mut i: usize = 0;
    while i < v.len()
        invariant
            0 <= i <= v.len(),
            v@.len() == before.len(),
            forall|e: Expression| #[trigger] visitor.requires((e,)),
            forall|k: int| 0 <= k < v@.len() ==> #[trigger] v@[k].0 == before[k].0,
            forall|k: int| 0 <= k < i ==> #[trigger] visitor.ensures((before[k].1,), v@[k].1),
            forall|k: int| i <= k < v@.len() ==> #[trigger] v@[k] == before[k],
        decreases before.len() - i,
    {
        let mut entry = (String::new(), Expression::Invalid);
        v.set_and_swap(i, &mut entry);
        let (name, value) = entry;
        let r = visitor(value);
        v.set(i, (name, r));
        i += 1;
    }
    let ghost a = before.map_values(|x: (String, Expression)| x.1);
    let ghost b = v@.map_values(|x: (String, Expression)| x.1);
    assert forall|k: int| 0 <= k < a.len() implies #[trigger] visitor.ensures((a[k],), b[k]) by {
        assert(visitor.ensures((before[k].1,), v@[k].1));
    }
}

/// `p` binds the name of `q` at the place in the sources of `q`.
pub open spec fn same_binding_shape(p: (String, ExpressionSpanned), q: (String, ExpressionSpanned)) -> bool {
    p.0 == q.0 && p.1.span == q.1.span
}

/// Replaces the expression bound by each binding of `v`, in order, by what `visitor`
/// returns for it; the names and places in the sources stay.
fn visit_bindings<F: Fn(Expression) -> Expression>(
    v: &mut Vec<(String, ExpressionSpanned)>,
    visitor: &F,
)
    requires
        forall|e: Expression| #[trigger] visitor.requires((e,)),
    ensures
        final(v)@.len() == old(v)@.len(),
        forall|k: int|
            0 <= k < old(v)@.len() ==> #[trigger] same_binding_shape(final(v)@[k], old(v)@[k]),
        visited_each(*visitor, binding_children(old(v)@), binding_children(final(v)@)),
{
    let ghost before = v@;
    let mut i: usize = 0;
    while i < v.len()
        invariant
            0 <= i <= v.len(),
            v@.len() == before.len(),
            forall|e: Expression| #[trigger] visitor.requires((e,)),
            forall|k: int| 0 <= k < v@.len() ==> #[trigger] same_binding_shape(v@[k], before[k]),
            forall|k: int|
                0 <= k < i ==> #[trigger] visitor.ensures(
                    (before[k].1.expression,),
                    v@[k].1.expression,
                ),
            forall|k: int| i <= k < v@.len() ==> #[trigger] v@[k] == before[k],
        decreases before.len() - i,
    {
        let mut entry = (String::new(), ExpressionSpanned { expression: Expression::Invalid, span: None });
        v.set_and_swap(i, &mut entry);
        let (name, spanned) = entry;
        let ExpressionSpanned { expression, span } = spanned;
        let r = visitor(expression);
        v.set(i, (name, ExpressionSpanned { expression: r, span }));
        i += 1;
    }
    let ghost a = binding_children(before);
    let ghost b = binding_children(v@);
    assert forall|k: int| 0 <= k < a.len() implies #[trigger] visitor.ensures((a[k],), b[k]) by {
        assert(visitor.ensures((before[k].1.expression,), v@[k].1.expression));
    }
}

/// Visiting the bindings of each element of a path visits the expressions of the
/// path.
proof fn lemma_path_children_visited<F: Fn(Expression) -> Expression>(
    visitor: F,
    a: Seq<PathElement>,
    b: Seq<PathElement>,
)
    requires
        a.len() == b.len(),
        forall|k: int|
            0 <= k < a.len() ==> #[trigger] visited_each(
                visitor,
                binding_children(a[k].bindings@),
                binding_children(b[k].bindings@),
            ),
    ensures
        visited_each(visitor, path_children(a), path_children(b)),
    decreases a.len(),
{
    if a.len() > 0 {
        let n = a.len() - 1;
        let a0 = a.subrange(0, n);
        let b0 = b.subrange(0, n);
        assert forall|k: int| 0 <= k < a0.len() implies #[trigger] visited_each(
            visitor,
            binding_children(a0[k].bindings@),
            binding_children(b0[k].bindings@),
        ) by {
            assert(a0[k] == a[k]);
            assert(b0[k] == b[k]);
        }
        lemma_path_children_visited(visitor, a0, b0);
        assert(visited_each(
            visitor,
            binding_children(a[n].bindings@),
            binding_children(b[n].bindings@),
        ));
        lemma_visited_concat(
            visitor,
            path_children(a0),
            path_children(b0),
            binding_children(a[n].bindings@),
            binding_children(b[n].bindings@),
        );
    }
}

/// `p` has the element type of `q`, and as many bindings, with the same names and
/// places in the sources.
pub open spec fn same_element_shape(p: PathElement, q: PathElement) -> bool {
    &&& p.element_type == q.element_type
    &&& p.bindings@.len() == q.bindings@.len()
    &&& forall|j: int|
        0 <= j < q.bindings@.len() ==> #[trigger] same_binding_shape(p.bindings@[j], q.bindings@[j])
}

/// Replaces the expression bound by each binding of each element of `v`, in order,
/// by what `visitor` returns for it; the element types, names and places in the
/// sources stay.
fn visit_path_elements<F: Fn(Expression) -> Expression>(v: &mut Vec<PathElement>, visitor: &F)
    requires
        forall|e: Expression| #[trigger] visitor.requires((e,)),
    ensures
        final(v)@.len() == old(v)@.len(),
        forall|k: int|
            0 <= k < old(v)@.len() ==> #[trigger] same_element_shape(final(v)@[k], old(v)@[k]),
        visited_each(*visitor, path_children(old(v)@), path_children(final(v)@)),
{
    let ghost before = v@;
    let mut i: usize = 0;
    while i < v.len()
        invariant
            0 <= i <= v.len(),
            v@.len() == before.len(),
            forall|e: Expression| #[trigger] visitor.requires((e,)),
            forall|k: int|
                0 <= k < i ==> #[trigger] same_element_shape(v@[k], before[k]),
            forall|k: int|
                0 <= k < i ==> #[trigger] visited_each(
                    *visitor,
                    binding_children(before[k].bindings@),
                    binding_children(v@[k].bindings@),
                ),
            forall|k: int| i <= k < v@.len() ==> #[trigger] v@[k] == before[k],
        decreases before.len() - i,
    {
        let mut element = PathElement { element_type: String::new(), bindings: Vec::new() };
        v.set_and_swap(i, &mut element);
        visit_bindings(&mut element.bindings, visitor);
        v.set(i, element);
        i += 1;
    }
    proof {
        lemma_path_children_visited(*visitor, before, v@);
    }
}

/// Sequences of expressions of one length look alike once hollowed.
proof fn lemma_hollow_all(a: Seq<Expression>, b: Seq<Expression>)
    requires
        a.len() == b.len(),
    ensures
        hollow_all(exprs_view(a)) == hollow_all(exprs_view(b)),
{
    lemma_exprs_view(a);
    lemma_exprs_view(b);
    assert(hollow_all(exprs_view(a)) =~= hollow_all(exprs_view(b)));
}

/// Entries with the same names look alike once their values are made invalid.
proof fn lemma_hollow_entries(a: Seq<(String, Expression)>, b: Seq<(String, Expression)>)
    requires
        a.len() == b.len(),
        forall|k: int| 0 <= k < a.len() ==> #[trigger] b[k].0 == a[k].0,
    ensures
        entries_view(a).map_values(
            |x: (Seq<char>, SpecExpression)| (x.0, SpecExpression::Invalid),
        ) == entries_view(b).map_values(
            |x: (Seq<char>, SpecExpression)| (x.0, SpecExpression::Invalid),
        ),
{
    lemma_entries_view(a);
    lemma_entries_view(b);
    let ha = entries_view(a).map_values(
        |x: (Seq<char>, SpecExpression)| (x.0, SpecExpression::Invalid),
    );
    let hb = entries_view(b).map_values(
        |x: (Seq<char>, SpecExpression)| (x.0, SpecExpression::Invalid),
    );
    assert forall|k: int| 0 <= k < ha.len() implies ha[k] == hb[k] by {
        assert(b[k].0 == a[k].0);
    }
    assert(ha =~= hb);
}

/// The model of a path element with each bound expression made invalid.
pub open spec fn hollow_element(p: SpecPathElement) -> SpecPathElement {
    SpecPathElement { element_type: p.element_type, bindings: hollow_bindings(p.bindings) }
}

/// Path elements of the same shape look alike once hollowed.
proof fn lemma_hollow_path(a: Seq<PathElement>, b: Seq<PathElement>)
    requires
        a.len() == b.len(),
        forall|k: int| 0 <= k < a.len() ==> #[trigger] same_element_shape(b[k], a[k]),
    ensures
        path_elements_view(a).map_values(|p: SpecPathElement| hollow_element(p))
            == path_elements_view(b).map_values(|p: SpecPathElement| hollow_element(p)),
{
    lemma_path_elements_view(a);
    lemma_path_elements_view(b);
    let ha = path_elements_view(a).map_values(|p: SpecPathElement| hollow_element(p));
    let hb = path_elements_view(b).map_values(|p: SpecPathElement| hollow_element(p));
    assert forall|k: int| 0 <= k < ha.len() implies ha[k] == hb[k] by {
        assert(same_element_shape(b[k], a[k]));
        let ba = a[k].bindings@;
        let bb = b[k].bindings@;
        lemma_bindings_view(ba);
        lemma_bindings_view(bb);
        let x = hollow_bindings(bindings_view(ba));
        let y = hollow_bindings(bindings_view(bb));
        assert forall|j: int| 0 <= j < x.len() implies x[j] == y[j] by {
            assert(same_binding_shape(b[k].bindings@[j], a[k].bindings@[j]));
        }
        assert(x =~= y);
    }
    assert(ha =~= hb);
}

/// `visitor` may be called with any expression.
pub open spec fn accepts_all<F: Fn(Expression) -> Expression>(visitor: F) -> bool {
    forall|e: Expression| #[trigger] visitor.requires((e,))
}

impl Expression {
    /// Replaces each direct sub-expression, in the order of [`Expression::visit`], by
    /// what `visitor` returns for it; the rest of the expression stays as it was.
    /// (note: this function does not recurse)
    pub fn visit_mut<F: Fn(Expression) -> Expression>(&mut self, visitor: F)
        requires
            accepts_all(visitor),
        ensures
            visited(visitor, *old(self), *final(self)),
    {
        let mut taken = Expression::Invalid;
        std::mem::swap(&mut taken, self);
        let ghost before = taken;
        let after = match taken {
            Expression::ObjectAccess { base, name } => {
                let ghost b = *base;
                let base = Box::new(visitor(*base));
                proof {
                    assert(visited_each(visitor, seq![b], seq![*base]));
                }
                Expression::ObjectAccess { base, name }
            },
            Expression::Cast { from, to } => {
                let ghost b = *from;
                let from = Box::new(visitor(*from));
                proof {
                    assert(visited_each(visitor, seq![b], seq![*from]));
                }
                Expression::Cast { from, to }
            },
            Expression::CodeBlock(sub) => {
                let ghost b = sub@;
                let mut sub = sub;
                visit_all(&mut sub, &visitor);
                proof {
                    lemma_hollow_all(b, sub@);
                }
                Expression::CodeBlock(sub)
            },
            Expression::FunctionCall { function, arguments } => {
                let ghost b = *function;
                let function = Box::new(visitor(*function));
                let ghost args = arguments@;
                let mut arguments = arguments;
                visit_all(&mut arguments, &visitor);
                proof {
                    assert(visited_each(visitor, seq![b], seq![*function]));
                    lemma_visited_concat(visitor, seq![b], seq![*function], args, arguments@);
                    lemma_hollow_all(args, arguments@);
                }
                Expression::FunctionCall { function, arguments }
            },
            Expression::SelfAssignment { lhs, rhs, op } => {
                let ghost (b1, b2) = (*lhs, *rhs);
                let lhs = Box::new(visitor(*lhs));
                let rhs = Box::new(visitor(*rhs));
                proof {
                    assert(visited_each(visitor, seq![b1, b2], seq![*lhs, *rhs]));
                }
                Expression::SelfAssignment { lhs, rhs, op }
            },
            Expression::Condition { condition, true_expr, false_expr } => {
                let ghost (b1, b2, b3) = (*condition, *true_expr, *false_expr);
                let condition = Box::new(visitor(*condition));
                let true_expr = Box::new(visitor(*true_expr));
                let false_expr = Box::new(visitor(*false_expr));
                proof {
                    assert(visited_each(
                        visitor,
                        seq![b1, b2, b3],
                        seq![*condition, *true_expr, *false_expr],
                    ));
                }
                Expression::Condition { condition, true_expr, false_expr }
            },
            Expression::BinaryExpression { lhs, rhs, op } => {
                let ghost (b1, b2) = (*lhs, *rhs);
                let lhs = Box::new(visitor(*lhs));
                let rhs = Box::new(visitor(*rhs));
                proof {
                    assert(visited_each(visitor, seq![b1, b2], seq![*lhs, *rhs]));
                }
                Expression::BinaryExpression { lhs, rhs, op }
            },
            Expression::UnaryOp { sub, op } => {
                let ghost b = *sub;
                let sub = Box::new(visitor(*sub));
                proof {
                    assert(visited_each(visitor, seq![b], seq![*sub]));
                }
                Expression::UnaryOp { sub, op }
            },
            Expression::Array { element_ty, values } => {
                let ghost b = values@;
                let mut values = values;
                visit_all(&mut values, &visitor);
                proof {
                    lemma_hollow_all(b, values@);
                }
                Expression::Array { element_ty, values }
            },
            Expression::Object { ty, values } => {
                let ghost b = values@;
                let mut values = values;
                visit_entries(&mut values, &visitor);
                proof {
                    lemma_hollow_entries(b, values@);
                }
                Expression::Object { ty, values }
            },
            Expression::PathElements { elements } => match elements {
                Path::Elements(els) => {
                    let ghost b = els@;
                    proof {
                        assert(path_view(Path::Elements(els)) == SpecPath::Elements(
                            path_elements_view(b),
                        ));
                    }
                    let mut els = els;
                    visit_path_elements(&mut els, &visitor);
                    proof {
                        lemma_hollow_path(b, els@);
                        assert(path_view(Path::Elements(els)) == SpecPath::Elements(
                            path_elements_view(els@),
                        ));
                    }
                    Expression::PathElements { elements: Path::Elements(els) }
                },
                Path::Events(evs) => Expression::PathElements { elements: Path::Events(evs) },
            },
            Expression::StoreLocalVariable { name, value } => {
                let ghost b = *value;
                let value = Box::new(visitor(*value));
                proof {
                    assert(visited_each(visitor, seq![b], seq![*value]));
                }
                Expression::StoreLocalVariable { name, value }
            },
            other => other,
        };
        proof {
            assert(visited(visitor, before, after));
        }
        *self = after;
    }
}

/// The models of a concatenation are the concatenation of the models.
proof fn lemma_exprs_view_concat(a: Seq<Expression>, b: Seq<Expression>)
    ensures
        exprs_view(a + b) == exprs_view(a) + exprs_view(b),
{
    lemma_exprs_view(a);
    lemma_exprs_view(b);
    lemma_exprs_view(a + b);
    assert(exprs_view(a + b) =~= exprs_view(a) + exprs_view(b));
}

/// The models of the expressions bound in a path element are the expressions of
/// the model of its bindings.
proof fn lemma_binding_children_view(b: Seq<(String, ExpressionSpanned)>)
    ensures
        exprs_view(binding_children(b)) == binding_expressions(bindings_view(b)),
{
    lemma_exprs_view(binding_children(b));
    lemma_bindings_view(b);
    assert(exprs_view(binding_children(b)) =~= binding_expressions(bindings_view(b)));
}

/// The models of the expressions bound in the elements of a path are the expressions
/// of the model of the path.
proof fn lemma_path_children_view(els: Seq<PathElement>)
    ensures
        exprs_view(path_children(els)) == path_sub_expressions(path_elements_view(els)),
    decreases els.len(),
{
    if els.len() > 0 {
        let n = els.len() - 1;
        let prefix = els.subrange(0, n);
        lemma_path_children_view(prefix);
        lemma_exprs_view_concat(path_children(prefix), binding_children(els[n].bindings@));
        lemma_binding_children_view(els[n].bindings@);
        let pev = path_elements_view(els);
        lemma_path_elements_view(els);
        lemma_path_elements_view(prefix);
        assert(pev.subrange(0, n) =~= path_elements_view(prefix));
        assert(path_sub_expressions(pev) == path_sub_expressions(pev.subrange(0, n))
            + binding_expressions(pev[n].bindings));
    }
}

/// [`Expression::visit`] and [`Expression::visit_mut`] go through the same direct
/// sub-expressions, in the same order.
pub proof fn law_visit_and_visit_mut_agree(e: Expression)
    ensures
        exprs_view(children(e)) == sub_expressions(expr_view(e)),
{
    match e {
        Expression::ObjectAccess { base, .. } => {
            lemma_exprs_view(seq![*base]);
            assert(exprs_view(children(e)) =~= sub_expressions(expr_view(e)));
        },
        Expression::Cast { from, .. } => {
            lemma_exprs_view(seq![*from]);
            assert(exprs_view(children(e)) =~= sub_expressions(expr_view(e)));
        },
        Expression::FunctionCall { function, arguments } => {
            lemma_exprs_view_concat(seq![*function], arguments@);
            lemma_exprs_view(seq![*function]);
            assert(exprs_view(children(e)) =~= sub_expressions(expr_view(e)));
        },
        Expression::SelfAssignment { lhs, rhs, .. } => {
            lemma_exprs_view(seq![*lhs, *rhs]);
            assert(exprs_view(children(e)) =~= sub_expressions(expr_view(e)));
        },
        Expression::Condition { condition, true_expr, false_expr } => {
            lemma_exprs_view(seq![*condition, *true_expr, *false_expr]);
            assert(exprs_view(children(e)) =~= sub_expressions(expr_view(e)));
        },
        Expression::BinaryExpression { lhs, rhs, .. } => {
            lemma_exprs_view(seq![*lhs, *rhs]);
            assert(exprs_view(children(e)) =~= sub_expressions(expr_view(e)));
        },
        Expression::UnaryOp { sub, .. } => {
            lemma_exprs_view(seq![*sub]);
            assert(exprs_view(children(e)) =~= sub_expressions(expr_view(e)));
        },
        Expression::Object { values, .. } => {
            let vs = values@.map_values(|x: (String, Expression)| x.1);
            lemma_exprs_view(vs);
            lemma_entries_view(values@);
            assert(exprs_view(children(e)) =~= sub_expressions(expr_view(e)));
        },
        Expression::PathElements { elements } => match elements {
            Path::Elements(els) => {
                lemma_path_children_view(els@);
                assert(path_view(Path::Elements(els)) == SpecPath::Elements(
                    path_elements_view(els@),
                ));
            },
            Path::Events(evs) => {
                assert(path_view(Path::Events(evs)) == SpecPath::Events(evs@));
                assert(exprs_view(children(e)) =~= sub_expressions(expr_view(e)));
            },
        },
        Expression::StoreLocalVariable { value, .. } => {
            lemma_exprs_view(seq![*value]);
            assert(exprs_view(children(e)) =~= sub_expressions(expr_view(e)));
        },
        Expression::CodeBlock(_) => {},
        Expression::Array { .. } => {},
        _ => {
            assert(exprs_view(children(e)) =~= sub_expressions(expr_view(e)));
        },
    }
}

/// Elements that look alike once hollowed bind as many expressions in all.
proof fn lemma_path_sub_len(a: Seq<SpecPathElement>, b: Seq<SpecPathElement>)
    requires
        a.map_values(|p: SpecPathElement| hollow_element(p)) == b.map_values(
            |p: SpecPathElement| hollow_element(p),
        ),
    ensures
        path_sub_expressions(a).len() == path_sub_expressions(b).len(),
    decreases a.len(),
{
    let ha = a.map_values(|p: SpecPathElement| hollow_element(p));
    let hb = b.map_values(|p: SpecPathElement| hollow_element(p));
    assert(a.len() == ha.len() && b.len() == hb.len());
    if a.len() > 0 {
        let n = a.len() - 1;
        let a0 = a.subrange(0, n);
        let b0 = b.subrange(0, n);
        assert(a0.map_values(|p: SpecPathElement| hollow_element(p)) =~= b0.map_values(
            |p: SpecPathElement| hollow_element(p),
        )) by {
            assert forall|i: int| 0 <= i < n implies #[trigger] hollow_element(a0[i])
                == hollow_element(b0[i]) by {
                assert(a0[i] == a[i]);
                assert(b0[i] == b[i]);
                assert(ha[i] == hollow_element(a[i]));
                assert(hb[i] == hollow_element(b[i]));
            }
        }
        lemma_path_sub_len(a0, b0);
        assert(ha[n] == hollow_element(a[n]));
        assert(hb[n] == hollow_element(b[n]));
        assert(hollow_bindings(a[n].bindings).len() == hollow_bindings(b[n].bindings).len());
    }
}

/// Elements that look alike once hollowed, and that bind the same expressions, are
/// the same elements.
proof fn lemma_path_rebuilt(a: Seq<SpecPathElement>, b: Seq<SpecPathElement>)
    requires
        a.map_values(|p: SpecPathElement| hollow_element(p)) == b.map_values(
            |p: SpecPathElement| hollow_element(p),
        ),
        path_sub_expressions(a) == path_sub_expressions(b),
    ensures
        a == b,
    decreases a.len(),
{
    let ha = a.map_values(|p: SpecPathElement| hollow_element(p));
    let hb = b.map_values(|p: SpecPathElement| hollow_element(p));
    assert(a.len() == ha.len() && b.len() == hb.len());
    if a.len() > 0 {
        let n = a.len() - 1;
        let a0 = a.subrange(0, n);
        let b0 = b.subrange(0, n);
        assert(a0.map_values(|p: SpecPathElement| hollow_element(p)) =~= b0.map_values(
            |p: SpecPathElement| hollow_element(p),
        )) by {
            assert forall|i: int| 0 <= i < n implies #[trigger] hollow_element(a0[i])
                == hollow_element(b0[i]) by {
                assert(a0[i] == a[i]);
                assert(b0[i] == b[i]);
                assert(ha[i] == hollow_element(a[i]));
                assert(hb[i] == hollow_element(b[i]));
            }
        }
        lemma_path_sub_len(a0, b0);
        let pa = path_sub_expressions(a0);
        let pb = path_sub_expressions(b0);
        let ea = binding_expressions(a[n].bindings);
        let eb = binding_expressions(b[n].bindings);
        assert(path_sub_expressions(a) == pa + ea);
        assert(path_sub_expressions(b) == pb + eb);
        assert(ha[n] == hollow_element(a[n]));
        assert(hb[n] == hollow_element(b[n]));
        let xa = hollow_bindings(a[n].bindings);
        let xb = hollow_bindings(b[n].bindings);
        assert(xa.len() == xb.len());
        assert(pa =~= (pa + ea).subrange(0, pa.len() as int));
        assert(pb =~= (pb + eb).subrange(0, pb.len() as int));
        assert(ea =~= (pa + ea).subrange(pa.len() as int, (pa + ea).len() as int));
        assert(eb =~= (pb + eb).subrange(pb.len() as int, (pb + eb).len() as int));
        lemma_path_rebuilt(a0, b0);
        assert(a[n].bindings =~= b[n].bindings) by {
            assert forall|j: int| 0 <= j < a[n].bindings.len() implies a[n].bindings[j]
                == b[n].bindings[j] by {
                assert(xa[j] == xb[j]);
                assert(ea[j] == eb[j]);
            }
        }
        assert(a[n] == b[n]);
        assert(a =~= b) by {
            assert forall|i: int| 0 <= i < a.len() implies a[i] == b[i] by {
                if i < n {
                    assert(a0[i] == b0[i]);
                }
            }
        }
    }
}

/// Two models that look alike once hollowed, and that have the same direct
/// sub-expressions, are the same.
proof fn lemma_rebuilt(a: SpecExpression, b: SpecExpression)
    requires
        hollow(a) == hollow(b),
        sub_expressions(a) == sub_expressions(b),
    ensures
        a == b,
{
    match (a, b) {
        (
            SpecExpression::FunctionCall { function: fa, arguments: aa },
            SpecExpression::FunctionCall { function: fb, arguments: ab },
        ) => {
            let sa = seq![*fa] + aa;
            let sb = seq![*fb] + ab;
            assert(sa[0] == sb[0]);
            assert(hollow_all(aa).len() == hollow_all(ab).len());
            assert(aa =~= sa.subrange(1, sa.len() as int));
            assert(ab =~= sb.subrange(1, sb.len() as int));
        },
        (
            SpecExpression::SelfAssignment { lhs: la, rhs: ra, .. },
            SpecExpression::SelfAssignment { lhs: lb, rhs: rb, .. },
        ) => {
            assert(seq![*la, *ra][0] == *la && seq![*la, *ra][1] == *ra);
            assert(seq![*lb, *rb][0] == *lb && seq![*lb, *rb][1] == *rb);
        },
        (
            SpecExpression::BinaryExpression { lhs: la, rhs: ra, .. },
            SpecExpression::BinaryExpression { lhs: lb, rhs: rb, .. },
        ) => {
            assert(seq![*la, *ra][0] == *la && seq![*la, *ra][1] == *ra);
            assert(seq![*lb, *rb][0] == *lb && seq![*lb, *rb][1] == *rb);
        },
        (
            SpecExpression::Condition { condition: ca, true_expr: ta, false_expr: fa },
            SpecExpression::Condition { condition: cb, true_expr: tb, false_expr: fb },
        ) => {
            let sa = seq![*ca, *ta, *fa];
            let sb = seq![*cb, *tb, *fb];
            assert(sa[0] == *ca && sa[1] == *ta && sa[2] == *fa);
            assert(sb[0] == *cb && sb[1] == *tb && sb[2] == *fb);
        },
        (
            SpecExpression::ObjectAccess { base: xa, .. },
            SpecExpression::ObjectAccess { base: xb, .. },
        ) => {
            assert(seq![*xa][0] == *xa && seq![*xb][0] == *xb);
        },
        (SpecExpression::Cast { from: xa, .. }, SpecExpression::Cast { from: xb, .. }) => {
            assert(seq![*xa][0] == *xa && seq![*xb][0] == *xb);
        },
        (SpecExpression::UnaryOp { sub: xa, .. }, SpecExpression::UnaryOp { sub: xb, .. }) => {
            assert(seq![*xa][0] == *xa && seq![*xb][0] == *xb);
        },
        (
            SpecExpression::StoreLocalVariable { value: xa, .. },
            SpecExpression::StoreLocalVariable { value: xb, .. },
        ) => {
            assert(seq![*xa][0] == *xa && seq![*xb][0] == *xb);
        },
        (
            SpecExpression::Object { ty: ta, values: va },
            SpecExpression::Object { ty: tb, values: vb },
        ) => {
            let na = va.map_values(|x: (Seq<char>, SpecExpression)| (x.0, SpecExpression::Invalid));
            let nb = vb.map_values(|x: (Seq<char>, SpecExpression)| (x.0, SpecExpression::Invalid));
            assert(na == nb);
            let ea = va.map_values(|x: (Seq<char>, SpecExpression)| x.1);
            let eb = vb.map_values(|x: (Seq<char>, SpecExpression)| x.1);
            assert(va.len() == na.len() && vb.len() == nb.len());
            assert forall|i: int| 0 <= i < va.len() implies va[i] == vb[i] by {
                assert(na[i] == nb[i]);
                assert(ea[i] == eb[i]);
            }
            assert(va =~= vb);
        },
        (
            SpecExpression::PathElements { elements: SpecPath::Elements(ea) },
            SpecExpression::PathElements { elements: SpecPath::Elements(eb) },
        ) => {
            lemma_path_rebuilt(ea, eb);
        },
        _ => {},
    }
}

/// A visitor that hands back each expression as it got it leaves the expression as
/// it was.
pub proof fn law_visit_mut_identity<F: Fn(Expression) -> Expression>(
    visitor: F,
    before: Expression,
    after: Expression,
)
    requires
        forall|x: Expression, y: Expression|
            #[trigger] visitor.ensures((x,), y) ==> expr_view(y) == expr_view(x),
        visited(visitor, before, after),
    ensures
        expr_view(after) == expr_view(before),
{
    let cb = children(before);
    let ca = children(after);
    lemma_exprs_view(cb);
    lemma_exprs_view(ca);
    assert(exprs_view(ca) =~= exprs_view(cb)) by {
        assert forall|i: int| 0 <= i < cb.len() implies exprs_view(ca)[i] == exprs_view(cb)[i] by {
            assert(visitor.ensures((cb[i],), ca[i]));
        }
    }
    law_visit_and_visit_mut_agree(before);
    law_visit_and_visit_mut_agree(after);
    lemma_rebuilt(expr_view(after), expr_view(before));
}

} // verus!
