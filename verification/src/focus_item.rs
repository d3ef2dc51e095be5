//! This pass turns the `initial_focus` binding of an element into code that, when the
//! component is set up, gives the focus to the element that the binding names.
//!
//! It also removes the properties used in two-way bindings: each binding whose
//! expression is a two-way binding goes, and so does the declaration of the property
//! of that name. Every other binding and declaration stays, in its order.

use vstd::prelude::*;

use crate::diagnostics::BuildDiagnostics;
use crate::expression_tree::{
    BuiltinFunction, Expression, ExpressionSpanned, SpecExpression, SpecExpressionSpanned,
};
use crate::object_tree::{
    bindings_model, declarations_model, walk, walk_children, walk_within, Component, ElementId,
    ObjectTree, PropertyDeclaration, SpecElement,
};
use crate::typeregister::{unique_names, SpecType};

verus! {

/// The name of the property that names the element to focus first.
pub open spec fn initial_focus() -> Seq<char> {
    seq!['i', 'n', 'i', 't', 'i', 'a', 'l', '_', 'f', 'o', 'c', 'u', 's']
}

/// The index of the first entry of the given name.
pub open spec fn first_named<V>(entries: Seq<(Seq<char>, V)>, name: Seq<char>) -> Option<int>
    decreases entries.len(),
{
    if entries.len() == 0 {
        None
    } else if entries[entries.len() - 1].0 == name && first_named(
        entries.subrange(0, entries.len() - 1),
        name,
    ) is None {
        Some(entries.len() - 1)
    } else {
        first_named(entries.subrange(0, entries.len() - 1), name)
    }
}

/// The index that [`first_named`] gives is the first entry of that name; where it
/// gives none, no entry has that name.
pub proof fn lemma_first_named<V>(entries: Seq<(Seq<char>, V)>, name: Seq<char>)
    ensures
        first_named(entries, name) matches Some(k) ==> 0 <= k < entries.len() && entries[k].0
            == name && forall|j: int| 0 <= j < k ==> entries[j].0 != name,
        first_named(entries, name) is None ==> forall|j: int|
            0 <= j < entries.len() ==> entries[j].0 != name,
    decreases entries.len(),
{
    if entries.len() > 0 {
        let prefix = entries.subrange(0, entries.len() - 1);
        lemma_first_named(prefix, name);
        assert forall|j: int| 0 <= j < prefix.len() implies prefix[j] == entries[j] by {}
    }
}

/// The setup code that gives the focus to an element.
pub open spec fn set_focus_call(element: ElementId) -> SpecExpression {
    SpecExpression::FunctionCall {
        function: Box::new(SpecExpression::BuiltinFunctionReference(BuiltinFunction::SetFocusItem)),
        arguments: seq![SpecExpression::ElementReference(element)],
    }
}

/// Whether the expression of a binding is a two-way binding.
pub open spec fn is_two_way(b: (Seq<char>, SpecExpressionSpanned)) -> bool {
    b.1.expression is TwoWayBinding
}

/// Whether a binding of `bindings` of the given name is a two-way binding.
pub open spec fn two_way_named(
    bindings: Seq<(Seq<char>, SpecExpressionSpanned)>,
    name: Seq<char>,
) -> bool {
    exists|j: int| 0 <= j < bindings.len() && bindings[j].0 == name && is_two_way(#[trigger] bindings[j])
}

/// Whether the pass keeps a binding: it is neither the `initial_focus` binding nor a
/// two-way binding.
pub open spec fn kept_binding(b: (Seq<char>, SpecExpressionSpanned)) -> bool {
    b.0 != initial_focus() && !is_two_way(b)
}

/// Whether the pass keeps a property declaration of an element with the given
/// bindings: it is neither the declaration of an `initial_focus` property that is
/// bound, nor that of a property used in a two-way binding.
pub open spec fn kept_declaration(
    d: (Seq<char>, SpecType),
    bindings: Seq<(Seq<char>, SpecExpressionSpanned)>,
) -> bool {
    &&& !(d.0 == initial_focus() && first_named(bindings, initial_focus()) is Some)
    &&& !two_way_named(bindings, d.0)
}

/// The entries of `s` that `keep` holds of, in order.
pub open spec fn keep_entries<V>(s: Seq<(Seq<char>, V)>, keep: spec_fn((Seq<char>, V)) -> bool) -> Seq<
    (Seq<char>, V),
>
    decreases s.len(),
{
    if s.len() == 0 {
        Seq::empty()
    } else {
        let prev = keep_entries(s.subrange(0, s.len() - 1), keep);
        if keep(s[s.len() - 1]) {
            prev.push(s[s.len() - 1])
        } else {
            prev
        }
    }
}

/// The entries that [`keep_entries`] keeps are entries of `s` that `keep` holds of,
/// it keeps every such entry, and it keeps names unique; where `keep` holds of every
/// entry, it keeps them all.
pub proof fn lemma_keep_entries<V>(s: Seq<(Seq<char>, V)>, keep: spec_fn((Seq<char>, V)) -> bool)
    ensures
        keep_entries(s, keep).len() <= s.len(),
        forall|i: int|
            0 <= i < keep_entries(s, keep).len() ==> keep(#[trigger] keep_entries(s, keep)[i])
                && s.contains(keep_entries(s, keep)[i]),
        forall|i: int| 0 <= i < s.len() && keep(#[trigger] s[i]) ==> keep_entries(s, keep).contains(s[i]),
        unique_names(s) ==> unique_names(keep_entries(s, keep)),
        (forall|i: int| 0 <= i < s.len() ==> keep(#[trigger] s[i])) ==> keep_entries(s, keep) == s,
    decreases s.len(),
{
    if s.len() > 0 {
        let n = s.len() - 1;
        let prefix = s.subrange(0, n);
        lemma_keep_entries(prefix, keep);
        let prev = keep_entries(prefix, keep);
        let cur = keep_entries(s, keep);
        assert forall|i: int| 0 <= i < cur.len() implies keep(#[trigger] cur[i]) && s.contains(cur[i]) by {
            if i < prev.len() {
                assert(cur[i] == prev[i]);
                let m = choose|m: int| 0 <= m < prefix.len() && prefix[m] == prev[i];
                assert(s[m] == prev[i]);
            } else {
                assert(cur[i] == s[n]);
            }
        }
        assert forall|i: int| 0 <= i < s.len() && keep(#[trigger] s[i]) implies cur.contains(s[i]) by {
            if i < n {
                assert(prefix[i] == s[i]);
                assert(prev.contains(prefix[i]));
                let m = choose|m: int| 0 <= m < prev.len() && prev[m] == s[i];
                assert(cur[m] == s[i]);
            } else {
                assert(cur[cur.len() - 1] == s[i]);
            }
        }
        if unique_names(s) {
            assert forall|i: int, j: int| 0 <= i < j < prefix.len() implies #[trigger] prefix[i].0
                != #[trigger] prefix[j].0 by {
                assert(prefix[i] == s[i] && prefix[j] == s[j]);
            }
            assert forall|i: int, j: int| 0 <= i < j < cur.len() implies #[trigger] cur[i].0
                != #[trigger] cur[j].0 by {
                if j < prev.len() {
                    assert(cur[i] == prev[i] && cur[j] == prev[j]);
                } else {
                    assert(cur[j] == s[n]);
                    assert(cur[i] == prev[i]);
                    let m = choose|m: int| 0 <= m < prefix.len() && prefix[m] == prev[i];
                    assert(s[m] == prev[i]);
                }
            }
        }
        if forall|i: int| 0 <= i < s.len() ==> keep(#[trigger] s[i]) {
            assert(keep(s[n]));
            assert forall|i: int| 0 <= i < prefix.len() implies keep(#[trigger] prefix[i]) by {
                assert(prefix[i] == s[i]);
            }
            assert(s =~= prefix.push(s[n]));
        }
    }
}

/// The test of [`kept_binding`], as a function.
pub open spec fn binding_keeper() -> spec_fn((Seq<char>, SpecExpressionSpanned)) -> bool {
    |b: (Seq<char>, SpecExpressionSpanned)| kept_binding(b)
}

/// The test of [`kept_declaration`] for an element with the given bindings, as a
/// function.
pub open spec fn declaration_keeper(bindings: Seq<(Seq<char>, SpecExpressionSpanned)>) -> spec_fn(
    (Seq<char>, SpecType),
) -> bool {
    |d: (Seq<char>, SpecType)| kept_declaration(d, bindings)
}

/// The setup code that the `initial_focus` binding among `bindings` asks for: the
/// focus call for the element that it names, if it names one.
pub open spec fn focus_code(bindings: Seq<(Seq<char>, SpecExpressionSpanned)>) -> Option<
    SpecExpression,
> {
    match first_named(bindings, initial_focus()) {
        Some(k) => match bindings[k].1.expression {
            SpecExpression::ElementReference(x) => Some(set_focus_call(x)),
            _ => None,
        },
        None => None,
    }
}

/// Keeping the entries of one more entry of `s` keeps that entry after the others
/// where `keep` holds of it.
pub proof fn lemma_keep_entries_step<V>(
    s: Seq<(Seq<char>, V)>,
    keep: spec_fn((Seq<char>, V)) -> bool,
    i: int,
)
    requires
        0 <= i < s.len(),
    ensures
        keep_entries(s.subrange(0, i + 1), keep) == if keep(s[i]) {
            keep_entries(s.subrange(0, i), keep).push(s[i])
        } else {
            keep_entries(s.subrange(0, i), keep)
        },
{
    let sub = s.subrange(0, i + 1);
    assert(sub.subrange(0, i) =~= s.subrange(0, i));
    assert(sub[i] == s[i]);
}

/// What the pass does to one element: the element without its `initial_focus`
/// binding and declaration, and without its two-way bindings and the declarations of
/// their properties; and the setup code that the `initial_focus` binding asks for, if
/// any.
pub open spec fn focus_element(el: SpecElement) -> (SpecElement, Option<SpecExpression>) {
    let code = focus_code(el.bindings);
    let new_el = SpecElement {
        bindings: keep_entries(el.bindings, binding_keeper()),
        property_declarations: keep_entries(el.property_declarations, declaration_keeper(el.bindings)),
        ..el
    };
    (new_el, code)
}

/// What the pass does to the elements of `order`, one after the other, starting from
/// the given elements and setup code.
pub open spec fn focus_pass(
    elements: Seq<SpecElement>,
    order: Seq<ElementId>,
    setup: Seq<SpecExpression>,
) -> (Seq<SpecElement>, Seq<SpecExpression>)
    decreases order.len(),
{
    if order.len() == 0 {
        (elements, setup)
    } else {
        let prev = focus_pass(elements, order.subrange(0, order.len() - 1), setup);
        let id = order[order.len() - 1];
        if id.0 < prev.0.len() {
            let (el, code) = focus_element(prev.0[id.0 as int]);
            (
                prev.0.update(id.0 as int, el),
                match code {
                    Some(c) => prev.1.push(c),
                    None => prev.1,
                },
            )
        } else {
            prev
        }
    }
}

/// Every binding name and every property declaration name of an element occurs once,
/// as in a map from names.
pub open spec fn element_names_unique(el: SpecElement) -> bool {
    &&& unique_names(el.bindings)
    &&& unique_names(el.property_declarations)
}

/// The element that the pass leaves has no `initial_focus` binding and no two-way
/// binding, and keeps every other binding in order; it has no declaration of a
/// property used in a two-way binding, and keeps every other declaration but that of
/// a bound `initial_focus`; it keeps its id, base type, children and repeater model,
/// and names that occurred once still do.
pub proof fn law_focus_element(el: SpecElement)
    ensures
        ({
            let new_el = focus_element(el).0;
            &&& new_el.id == el.id
            &&& new_el.children == el.children
            &&& new_el.base_type_properties == el.base_type_properties
            &&& new_el.repeated == el.repeated
            &&& forall|j: int|
                0 <= j < new_el.bindings.len() ==> kept_binding(#[trigger] new_el.bindings[j])
                    && el.bindings.contains(new_el.bindings[j])
            &&& forall|j: int|
                0 <= j < el.bindings.len() && kept_binding(#[trigger] el.bindings[j])
                    ==> new_el.bindings.contains(el.bindings[j])
            &&& forall|j: int|
                0 <= j < new_el.property_declarations.len() ==> kept_declaration(
                    #[trigger] new_el.property_declarations[j],
                    el.bindings,
                ) && el.property_declarations.contains(new_el.property_declarations[j])
            &&& forall|j: int|
                0 <= j < el.property_declarations.len() && kept_declaration(
                    #[trigger] el.property_declarations[j],
                    el.bindings,
                ) ==> new_el.property_declarations.contains(el.property_declarations[j])
            &&& element_names_unique(el) ==> element_names_unique(new_el)
        }),
{
    lemma_keep_entries(el.bindings, binding_keeper());
    lemma_keep_entries(el.property_declarations, declaration_keeper(el.bindings));
}

/// An element without `initial_focus` binding and without two-way binding is left as
/// it is, and asks for no setup code.
pub proof fn lemma_focus_element_noop(el: SpecElement)
    requires
        forall|j: int| 0 <= j < el.bindings.len() ==> kept_binding(#[trigger] el.bindings[j]),
    ensures
        focus_element(el) == (el, None::<SpecExpression>),
{
    lemma_keep_entries(el.bindings, binding_keeper());
    lemma_first_named(el.bindings, initial_focus());
    assert(first_named(el.bindings, initial_focus()) is None) by {
        if let Some(k) = first_named(el.bindings, initial_focus()) {
            assert(kept_binding(el.bindings[k]));
        }
    }
    assert forall|j: int|
        0 <= j < el.property_declarations.len() implies kept_declaration(
        #[trigger] el.property_declarations[j],
        el.bindings,
    ) by {
        if two_way_named(el.bindings, el.property_declarations[j].0) {
            let m = choose|m: int|
                0 <= m < el.bindings.len() && el.bindings[m].0 == el.property_declarations[j].0
                    && is_two_way(#[trigger] el.bindings[m]);
            assert(kept_binding(el.bindings[m]));
        }
    }
    lemma_keep_entries(el.property_declarations, declaration_keeper(el.bindings));
}

/// The pass keeps the number of elements, only appends to the setup code, and
/// leaves every element that it does not go through as it was. No element that it
/// goes through keeps an `initial_focus` binding or a two-way binding, nor a
/// declaration of a property that was used in a two-way binding of that element, and
/// every declaration it keeps is one the element had. Names that occurred once in
/// every element still do.
pub proof fn law_focus_pass(
    elements: Seq<SpecElement>,
    order: Seq<ElementId>,
    setup: Seq<SpecExpression>,
)
    ensures
        ({
            let (els, code) = focus_pass(elements, order, setup);
            &&& els.len() == elements.len()
            &&& code.len() >= setup.len()
            &&& code.subrange(0, setup.len() as int) == setup
            &&& forall|i: int|
                0 <= i < elements.len() && (forall|k: int|
                    0 <= k < order.len() ==> #[trigger] order[k].0 != i) ==> #[trigger] els[i]
                    == elements[i]
            &&& forall|k: int|
                0 <= k < order.len() && order[k].0 < els.len() ==> walked_clean(
                    #[trigger] els[order[k].0 as int],
                    elements[order[k].0 as int],
                )
            &&& (forall|i: int| 0 <= i < elements.len() ==> element_names_unique(
                #[trigger] elements[i],
            )) ==> forall|i: int| 0 <= i < els.len() ==> element_names_unique(#[trigger] els[i])
        }),
    decreases order.len(),
{
    if order.len() > 0 {
        let n = order.len() - 1;
        let prefix = order.subrange(0, n);
        law_focus_pass(elements, prefix, setup);
        let prev = focus_pass(elements, prefix, setup);
        let id = order[n];
        let (els, code) = focus_pass(elements, order, setup);
        assert forall|i: int|
            0 <= i < elements.len() && (forall|k: int|
                0 <= k < order.len() ==> #[trigger] order[k].0 != i) implies #[trigger] els[i]
            == elements[i] by {
            assert forall|k: int| 0 <= k < prefix.len() implies #[trigger] prefix[k].0 != i by {
                assert(prefix[k] == order[k]);
            }
            assert(order[n].0 != i);
        }
        if id.0 < prev.0.len() {
            let old_el = prev.0[id.0 as int];
            let (el, c) = focus_element(old_el);
            law_focus_element(old_el);
            assert(walked_clean(el, elements[id.0 as int])) by {
                if exists|k: int| 0 <= k < prefix.len() && #[trigger] prefix[k].0 == id.0 {
                    let k = choose|k: int| 0 <= k < prefix.len() && #[trigger] prefix[k].0 == id.0;
                    assert(prefix[k] == order[k]);
                    assert(walked_clean(old_el, elements[id.0 as int]));
                    lemma_focus_element_noop(old_el);
                } else {
                    assert forall|k: int| 0 <= k < prefix.len() implies #[trigger] prefix[k].0
                        != id.0 by {}
                    assert(old_el == elements[id.0 as int]);
                    assert forall|j: int| 0 <= j < el.property_declarations.len() implies !two_way_named(
                        old_el.bindings,
                        (#[trigger] el.property_declarations[j]).0,
                    ) by {
                        assert(kept_declaration(el.property_declarations[j], old_el.bindings));
                    }
                }
            }
            assert forall|k: int|
                0 <= k < order.len() && order[k].0 < els.len() implies walked_clean(
                #[trigger] els[order[k].0 as int],
                elements[order[k].0 as int],
            ) by {
                if k < n {
                    assert(prefix[k] == order[k]);
                }
            }
            match c {
                Some(x) => {
                    assert(code.subrange(0, setup.len() as int) =~= prev.1.subrange(
                        0,
                        setup.len() as int,
                    ));
                },
                None => {},
            }
        } else {
            assert forall|k: int|
                0 <= k < order.len() && order[k].0 < els.len() implies walked_clean(
                #[trigger] els[order[k].0 as int],
                elements[order[k].0 as int],
            ) by {
                if k < n {
                    assert(prefix[k] == order[k]);
                }
            }
        }
    }
}

/// What holds of an element `el` that the pass went through, given the element
/// `before` as it was before the pass: every binding is kept, and every declaration
/// is one that `before` had and that is not of a property used in a two-way binding
/// of `before`.
pub open spec fn walked_clean(el: SpecElement, before: SpecElement) -> bool {
    &&& forall|j: int| 0 <= j < el.bindings.len() ==> kept_binding(#[trigger] el.bindings[j])
    &&& forall|j: int|
        0 <= j < el.property_declarations.len() ==> !two_way_named(
            before.bindings,
            (#[trigger] el.property_declarations[j]).0,
        ) && before.property_declarations.contains(el.property_declarations[j])
}

/// Going through elements that have no `initial_focus` binding and no two-way
/// binding changes nothing.
proof fn lemma_focus_pass_noop(
    elements: Seq<SpecElement>,
    order: Seq<ElementId>,
    setup: Seq<SpecExpression>,
)
    requires
        forall|k: int|
            0 <= k < order.len() && order[k].0 < elements.len() ==> forall|j: int|
                0 <= j < elements[order[k].0 as int].bindings.len() ==> kept_binding(
                    #[trigger] elements[order[k].0 as int].bindings[j],
                ),
    ensures
        focus_pass(elements, order, setup) == (elements, setup),
    decreases order.len(),
{
    if order.len() > 0 {
        let n = order.len() - 1;
        let prefix = order.subrange(0, n);
        assert forall|k: int|
            0 <= k < prefix.len() && prefix[k].0 < elements.len() implies forall|j: int|
            0 <= j < elements[prefix[k].0 as int].bindings.len() ==> kept_binding(
                #[trigger] elements[prefix[k].0 as int].bindings[j],
            ) by {
            assert(prefix[k] == order[k]);
        }
        lemma_focus_pass_noop(elements, prefix, setup);
        let id = order[n];
        if id.0 < elements.len() {
            lemma_focus_element_noop(elements[id.0 as int]);
            assert(elements.update(id.0 as int, elements[id.0 as int]) =~= elements);
        }
    }
}

/// Going through the same elements a second time changes neither the elements nor
/// the setup code: the pass is idempotent.
pub proof fn law_focus_pass_idempotent(
    elements: Seq<SpecElement>,
    order: Seq<ElementId>,
    setup: Seq<SpecExpression>,
)
    ensures
        focus_pass(focus_pass(elements, order, setup).0, order, focus_pass(elements, order, setup).1)
            == focus_pass(elements, order, setup),
{
    law_focus_pass(elements, order, setup);
    let (els, code) = focus_pass(elements, order, setup);
    assert forall|k: int|
        0 <= k < order.len() && order[k].0 < els.len() implies forall|j: int|
        0 <= j < els[order[k].0 as int].bindings.len() ==> kept_binding(
            #[trigger] els[order[k].0 as int].bindings[j],
        ) by {
        assert(walked_clean(els[order[k].0 as int], elements[order[k].0 as int]));
    }
    lemma_focus_pass_noop(els, order, code);
}

/// The pass keeps the children of every element.
proof fn lemma_focus_pass_keeps_children(
    elements: Seq<SpecElement>,
    order: Seq<ElementId>,
    setup: Seq<SpecExpression>,
)
    ensures
        focus_pass(elements, order, setup).0.len() == elements.len(),
        forall|i: int|
            0 <= i < elements.len() ==> (#[trigger] focus_pass(elements, order, setup).0[i]).children
                == elements[i].children,
    decreases order.len(),
{
    if order.len() > 0 {
        lemma_focus_pass_keeps_children(elements, order.subrange(0, order.len() - 1), setup);
    }
}

/// Walks of two trees whose elements have the same children are the same.
proof fn lemma_walk_same_children(
    a: Seq<SpecElement>,
    b: Seq<SpecElement>,
    element: ElementId,
    children: Seq<ElementId>,
    n: nat,
    depth: nat,
)
    requires
        a.len() == b.len(),
        forall|i: int| 0 <= i < a.len() ==> (#[trigger] a[i]).children == b[i].children,
    ensures
        walk_within(a, element, depth) == walk_within(b, element, depth),
        walk_children(a, children, n, depth) == walk_children(b, children, n, depth),
    decreases depth, n,
{
    if depth > 0 && element.0 < a.len() {
        let c = a[element.0 as int].children;
        assert(b[element.0 as int].children == c);
        lemma_walk_same_children(a, b, element, c, c.len(), (depth - 1) as nat);
    }
    if n > 0 && n <= children.len() {
        lemma_walk_same_children(a, b, children[n - 1], children, (n - 1) as nat, depth);
    }
}

/// Running the pass again on the tree and setup code that it left changes nothing.
pub proof fn law_determine_initial_focus_idempotent(
    elements: Seq<SpecElement>,
    root: ElementId,
    setup: Seq<SpecExpression>,
)
    ensures
        ({
            let (els, code) = focus_pass(elements, walk(elements, root), setup);
            focus_pass(els, walk(els, root), code) == (els, code)
        }),
{
    let order = walk(elements, root);
    let (els, code) = focus_pass(elements, order, setup);
    lemma_focus_pass_keeps_children(elements, order, setup);
    lemma_walk_same_children(els, elements, root, Seq::empty(), 0, elements.len());
    law_focus_pass_idempotent(elements, order, setup);
}

/// The models of the setup code of a component.
pub open spec fn setup_view(code: Seq<Expression>) -> Seq<SpecExpression> {
    code.map_values(|e: Expression| e@)
}

/// The name `initial_focus`.
fn initial_focus_name() -> (s: String)
    ensures
        s@ == initial_focus(),
{
    let s = String::from_str("initial_focus");
    proof {
        reveal_strlit("initial_focus");
    }
    assert(s@ =~= initial_focus());
    s
}

/// The index of the first binding of the given name.
fn find_binding(v: &Vec<(String, ExpressionSpanned)>, name: &String) -> (r: Option<usize>)
    ensures
        match r {
            Some(k) => first_named(bindings_model(v@), name@) == Some(k as int) && k < v.len(),
            None => first_named(bindings_model(v@), name@) is None,
        },
{
    let ghost m = bindings_model(v@);
    proof {
        lemma_first_named(m, name@);
    }
    let mut i: usize = 0;
    while i < v.len()
        invariant
            0 <= i <= v.len(),
            m == bindings_model(v@),
            forall|j: int| 0 <= j < i ==> m[j].0 != name@,
            first_named(m, name@) matches Some(k) ==> 0 <= k < m.len() && m[k].0 == name@
                && forall|j: int| 0 <= j < k ==> m[j].0 != name@,
            first_named(m, name@) is None ==> forall|j: int| 0 <= j < m.len() ==> m[j].0 != name@,
        decreases v.len() - i,
    {
        if v[i].0 == *name {
            assert(m[i as int].0 == name@);
            return Some(i);
        }
        i += 1;
    }
    None
}

/// Whether a binding of the given name is a two-way binding.
fn two_way_in(v: &Vec<(String, ExpressionSpanned)>, name: &String) -> (r: bool)
    ensures
        r == two_way_named(bindings_model(v@), name@),
{
    let ghost m = bindings_model(v@);
    let mut i: usize = 0;
    while i < v.len()
        invariant
            0 <= i <= v.len(),
            m == bindings_model(v@),
            forall|j: int| 0 <= j < i ==> !(m[j].0 == name@ && is_two_way(#[trigger] m[j])),
        decreases v.len() - i,
    {
        if v[i].0 == *name && matches!(v[i].1.expression, Expression::TwoWayBinding(_)) {
            assert(m[i as int].0 == name@ && is_two_way(m[i as int]));
            return true;
        }
        assert(!(m[i as int].0 == name@ && is_two_way(m[i as int])));
        i += 1;
    }
    false
}

/// Removes the `initial_focus` binding and the two-way bindings, keeping the others
/// in order.
fn filter_bindings(v: &mut Vec<(String, ExpressionSpanned)>, name: &String)
    requires
        name@ == initial_focus(),
    ensures
        bindings_model(final(v)@) == keep_entries(bindings_model(old(v)@), binding_keeper()),
{
    let mut rest: Vec<(String, ExpressionSpanned)> = Vec::new();
    std::mem::swap(&mut rest, v);
    let ghost orig = rest@;
    let ghost om = bindings_model(orig);
    let ghost n = orig.len();
    assert(n == rest.len());
    let mut i: usize = 0;
    assert(om.subrange(0, 0) =~= Seq::<(Seq<char>, SpecExpressionSpanned)>::empty());
    assert(bindings_model(v@) =~= Seq::<(Seq<char>, SpecExpressionSpanned)>::empty());
    while rest.len() > 0
        invariant
            0 <= i <= n,
            n == orig.len(),
            n <= usize::MAX,
            om == bindings_model(orig),
            name@ == initial_focus(),
            rest@ == orig.subrange(i as int, n as int),
            bindings_model(v@) == keep_entries(om.subrange(0, i as int), binding_keeper()),
        decreases rest.len(),
    {
        let ghost before = v@;
        let b = rest.remove(0);
        assert(orig[i as int] == b);
        assert(om[i as int] == (b.0@, b.1@));
        let keep = !(b.0 == *name) && !matches!(b.1.expression, Expression::TwoWayBinding(_));
        assert(keep == kept_binding(om[i as int]));
        proof {
            lemma_keep_entries_step(om, binding_keeper(), i as int);
        }
        if keep {
            v.push(b);
            assert(bindings_model(v@) =~= bindings_model(before).push(om[i as int]));
        }

        assert(rest@ =~= orig.subrange(i + 1, n as int));
        i += 1;
    }
    assert(om.subrange(0, n as int) =~= om);
}

/// Removes the declarations that the pass drops from an element with the given
/// bindings: that of a bound `initial_focus`, and those of the properties used in
/// two-way bindings.
fn filter_declarations(
    v: &mut Vec<(String, PropertyDeclaration)>,
    bindings: &Vec<(String, ExpressionSpanned)>,
    has_focus: bool,
    name: &String,
)
    requires
        name@ == initial_focus(),
        has_focus == (first_named(bindings_model(bindings@), initial_focus()) is Some),
    ensures
        declarations_model(final(v)@) == keep_entries(
            declarations_model(old(v)@),
            declaration_keeper(bindings_model(bindings@)),
        ),
{
    let ghost bm = bindings_model(bindings@);
    let mut rest: Vec<(String, PropertyDeclaration)> = Vec::new();
    std::mem::swap(&mut rest, v);
    let ghost orig = rest@;
    let ghost om = declarations_model(orig);
    let ghost n = orig.len();
    assert(n == rest.len());
    let mut i: usize = 0;
    assert(om.subrange(0, 0) =~= Seq::<(Seq<char>, SpecType)>::empty());
    assert(declarations_model(v@) =~= Seq::<(Seq<char>, SpecType)>::empty());
    while rest.len() > 0
        invariant
            0 <= i <= n,
            n == orig.len(),
            n <= usize::MAX,
            om == declarations_model(orig),
            bm == bindings_model(bindings@),
            name@ == initial_focus(),
            has_focus == (first_named(bm, initial_focus()) is Some),
            rest@ == orig.subrange(i as int, n as int),
            declarations_model(v@) == keep_entries(om.subrange(0, i as int), declaration_keeper(bm)),
        decreases rest.len(),
    {
        let ghost before = v@;
        let d = rest.remove(0);
        assert(orig[i as int] == d);
        assert(om[i as int] == (d.0@, d.1.property_type@));
        let keep = !(has_focus && d.0 == *name) && !two_way_in(bindings, &d.0);
        assert(keep == kept_declaration(om[i as int], bm));
        proof {
            lemma_keep_entries_step(om, declaration_keeper(bm), i as int);
        }
        if keep {
            v.push(d);
            assert(declarations_model(v@) =~= declarations_model(before).push(om[i as int]));
        }

        assert(rest@ =~= orig.subrange(i + 1, n as int));
        i += 1;
    }
    assert(om.subrange(0, n as int) =~= om);
}

/// The setup code that gives the focus to an element.
fn set_focus_expression(x: ElementId) -> (e: Expression)
    ensures
        e@ == set_focus_call(x),
{
    let target = Expression::ElementReference(x);
    assert(target@ == SpecExpression::ElementReference(x));
    let mut arguments: Vec<Expression> = Vec::new();
    arguments.push(target);
    proof {
        crate::expression_tree::lemma_exprs_view(arguments@);
    }
    let f = Expression::BuiltinFunctionReference(BuiltinFunction::SetFocusItem);
    assert(f@ == SpecExpression::BuiltinFunctionReference(BuiltinFunction::SetFocusItem));
    let call = Expression::FunctionCall { function: Box::new(f), arguments };
    assert(call@->FunctionCall_arguments =~= seq![SpecExpression::ElementReference(x)]);
    call
}

/// Whether the bindings hold an `initial_focus` binding, and the setup code that it
/// asks for.
fn focus_code_of(v: &Vec<(String, ExpressionSpanned)>, name: &String) -> (r: (bool, Option<Expression>))
    requires
        name@ == initial_focus(),
    ensures
        r.0 == (first_named(bindings_model(v@), initial_focus()) is Some),
        match (r.1, focus_code(bindings_model(v@))) {
            (Some(c), Some(x)) => c@ == x,
            (None, None) => true,
            _ => false,
        },
{
    match find_binding(v, name) {
        Some(k) => {
            let ghost b = v@[k as int];
            assert(bindings_model(v@)[k as int] == (b.0@, b.1@));
            match &v[k].1.expression {
                Expression::ElementReference(x) => {
                    assert(b.1@.expression == SpecExpression::ElementReference(*x));
                    (true, Some(set_focus_expression(*x)))
                },
                _ => {
                    assert(!(b.1@.expression is ElementReference));
                    (true, None)
                },
            }
        },
        None => (false, None),
    }
}

/// Applies the pass to one element.
fn focus_one(tree: &mut ObjectTree, id: ElementId, name: &String, setup: &mut Vec<Expression>)
    requires
        name@ == initial_focus(),
    ensures
        id.0 < old(tree)@.len() ==> {
            let (el, code) = focus_element(old(tree)@[id.0 as int]);
            &&& final(tree)@ == old(tree)@.update(id.0 as int, el)
            &&& setup_view(final(setup)@) == match code {
                Some(c) => setup_view(old(setup)@).push(c),
                None => setup_view(old(setup)@),
            }
        },
        id.0 >= old(tree)@.len() ==> final(tree)@ == old(tree)@ && final(setup)@ == old(setup)@,
{
    if id.0 >= tree.elements.len() {
        return;
    }
    let ghost old_tree = tree@;
    let ghost old_el = tree.elements@[id.0 as int];
    assert(old_tree[id.0 as int] == old_el@);
    let el = &mut tree.elements[id.0];
    let (has_focus, code) = focus_code_of(&el.bindings, name);
    filter_declarations(&mut el.property_declarations, &el.bindings, has_focus, name);
    filter_bindings(&mut el.bindings, name);
    let ghost new_el = *el;
    assert(new_el@ == focus_element(old_el@).0);
    match code {
        Some(c) => {
            let ghost before = setup@;
            let ghost cv = c@;
            setup.push(c);
            assert(setup_view(setup@) =~= setup_view(before).push(cv));
        },
        None => {},
    }
    assert(tree@ =~= old_tree.update(id.0 as int, new_el@));
}

/// Turns the `initial_focus` binding of each element of the component into setup code
/// that focuses the element it names, and removes the two-way bindings and the
/// declarations of their properties, walking the tree from the component's root.
pub fn determine_initial_focus_item(
    component: &mut Component,
    tree: &mut ObjectTree,
    diag: &mut BuildDiagnostics,
)
    ensures
        (final(tree)@, setup_view(final(component).setup_code@)) == focus_pass(
            old(tree)@,
            walk(old(tree)@, old(component).root_element),
            setup_view(old(component).setup_code@),
        ),
        final(component).root_element == old(component).root_element,
        final(diag)@ == old(diag)@,
{
    let mut order: Vec<ElementId> = Vec::new();
    tree.recurse_elem(component.root_element, &mut order);
    assert(order@ =~= walk(old(tree)@, old(component).root_element));
    let ghost order_seq = order@;
    let name = initial_focus_name();
    let mut i: usize = 0;
    assert(order_seq.subrange(0, 0) =~= Seq::<ElementId>::empty());
    while i < order.len()
        invariant
            0 <= i <= order.len(),
            order@ == order_seq,
            name@ == initial_focus(),
            component.root_element == old(component).root_element,
            (tree@, setup_view(component.setup_code@)) == focus_pass(
                old(tree)@,
                order_seq.subrange(0, i as int),
                setup_view(old(component).setup_code@),
            ),
        decreases order.len() - i,
    {
        let id = order[i];
        focus_one(tree, id, &name, &mut component.setup_code);
        assert(order_seq.subrange(0, i + 1).subrange(0, i as int) =~= order_seq.subrange(
            0,
            i as int,
        ));
        i += 1;
    }
    assert(order_seq.subrange(0, order.len() as int) =~= order_seq);
}

} // verus!
