//! The object tree: the elements of a document, their properties and bindings.

use vstd::prelude::*;

use crate::expression_tree::{Expression, ExpressionSpanned, SpecExpression, SpecExpressionSpanned};
use crate::typeregister::{SpecType, Type};

verus! {

/// The identity of an element in the object tree: its index in the tree's arena.
#[derive(Debug, Clone, Copy, PartialEq, Eq, Hash, Structural)]
pub struct ElementId(pub usize);

/// A property that an element declares itself.
#[derive(Debug)]
pub struct PropertyDeclaration {
    pub property_type: Type,
}

/// What makes an element repeated: the model that it is repeated over.
#[derive(Debug)]
pub struct RepeatedElementInfo {
    pub model: Expression,
}

/// An element of the object tree.
#[derive(Debug)]
pub struct Element {
    /// The id of the element, as written in the sources or given by the compiler.
    pub id: String,
    /// The properties that the element's base type provides, with their types.
    pub base_type_properties: Vec<(String, Type)>,
    /// The properties that the element declares, each name once (see
    /// `focus_item::element_names_unique`).
    pub property_declarations: Vec<(String, PropertyDeclaration)>,
    /// The bindings of the element's properties, each name once (see
    /// `focus_item::element_names_unique`).
    pub bindings: Vec<(String, ExpressionSpanned)>,
    pub children: Vec<ElementId>,
    pub repeated: Option<RepeatedElementInfo>,
}

/// All elements of a document; an [`ElementId`] names the element at its index.
#[derive(Debug)]
pub struct ObjectTree {
    pub elements: Vec<Element>,
}

/// A component: its root element, and the code run when it is set up.
#[derive(Debug)]
pub struct Component {
    pub root_element: ElementId,
    pub setup_code: Vec<Expression>,
}

/// The type of the first declaration of a property of the given name.
pub open spec fn declared_property_type(
    decls: Seq<(String, PropertyDeclaration)>,
    name: Seq<char>,
) -> Option<SpecType>
    decreases decls.len(),
{
    if decls.len() == 0 {
        None
    } else if decls[0].0@ == name {
        Some(decls[0].1.property_type@)
    } else {
        declared_property_type(decls.drop_first(), name)
    }
}

/// The type of the first property of the given name in a list of properties.
pub open spec fn listed_property_type(props: Seq<(String, Type)>, name: Seq<char>) -> Option<
    SpecType,
>
    decreases props.len(),
{
    if props.len() == 0 {
        None
    } else if props[0].0@ == name {
        Some(props[0].1@)
    } else {
        listed_property_type(props.drop_first(), name)
    }
}

/// The type of a property of an element: the one that the element declares, else
/// the one that its base type provides, else `Invalid`. An element that the tree
/// does not hold has no property.
pub open spec fn spec_lookup_property(tree: ObjectTree, element: ElementId, name: Seq<char>) -> SpecType {
    if element.0 < tree.elements.len() {
        let e = tree.elements@[element.0 as int];
        match declared_property_type(e.property_declarations@, name) {
            Some(t) => t,
            None => match listed_property_type(e.base_type_properties@, name) {
                Some(t) => t,
                None => SpecType::Invalid,
            },
        }
    } else {
        SpecType::Invalid
    }
}

/// The model that an element is repeated over, if it is repeated.
pub open spec fn repeated_model(tree: ObjectTree, element: ElementId) -> Option<SpecExpression> {
    if element.0 < tree.elements.len() {
        match tree.elements@[element.0 as int].repeated {
            Some(info) => Some(info.model@),
            None => None,
        }
    } else {
        None
    }
}

impl ObjectTree {
    /// The type of a property of an element: the one that the element declares,
    /// else the one that its base type provides, else `Invalid`.
    pub fn lookup_property(&self, element: ElementId, name: &String) -> (t: Type)
        ensures
            t@ == spec_lookup_property(*self, element, name@),
    {
        if element.0 >= self.elements.len() {
            return Type::Invalid;
        }
        let e = &self.elements[element.0];
        assert(e.property_declarations@.subrange(0, e.property_declarations.len() as int)
            =~= e.property_declarations@);
        assert(e.base_type_properties@.subrange(0, e.base_type_properties.len() as int)
            =~= e.base_type_properties@);
        let mut i: usize = 0;
        while i < e.property_declarations.len()
            invariant
                element.0 < self.elements.len(),
                *e == self.elements@[element.0 as int],
                0 <= i <= e.property_declarations.len(),
                e.base_type_properties@.subrange(0, e.base_type_properties.len() as int)
                    =~= e.base_type_properties@,
                declared_property_type(e.property_declarations@, name@) == declared_property_type(
                    e.property_declarations@.subrange(i as int, e.property_declarations.len() as int),
                    name@,
                ),
            decreases e.property_declarations.len() - i,
        {
            let ghost rest = e.property_declarations@.subrange(
                i as int,
                e.property_declarations.len() as int,
            );
            assert(rest.drop_first() =~= e.property_declarations@.subrange(
                i + 1,
                e.property_declarations.len() as int,
            ));
            if e.property_declarations[i].0 == *name {
                return e.property_declarations[i].1.property_type.clone_type();
            }
            i += 1;
        }
        let mut j: usize = 0;
        while j < e.base_type_properties.len()
            invariant
                element.0 < self.elements.len(),
                *e == self.elements@[element.0 as int],
                e.base_type_properties@.subrange(0, e.base_type_properties.len() as int)
                    =~= e.base_type_properties@,
                0 <= j <= e.base_type_properties.len(),
                declared_property_type(e.property_declarations@, name@) is None,
                listed_property_type(e.base_type_properties@, name@) == listed_property_type(
                    e.base_type_properties@.subrange(j as int, e.base_type_properties.len() as int),
                    name@,
                ),
            decreases e.base_type_properties.len() - j,
        {
            let ghost rest = e.base_type_properties@.subrange(
                j as int,
                e.base_type_properties.len() as int,
            );
            assert(rest.drop_first() =~= e.base_type_properties@.subrange(
                j + 1,
                e.base_type_properties.len() as int,
            ));
            if e.base_type_properties[j].0 == *name {
                return e.base_type_properties[j].1.clone_type();
            }
            j += 1;
        }
        Type::Invalid
    }
}

/// The mathematical model of an [`Element`].
pub struct SpecElement {
    pub id: Seq<char>,
    pub base_type_properties: Seq<(Seq<char>, SpecType)>,
    pub property_declarations: Seq<(Seq<char>, SpecType)>,
    pub bindings: Seq<(Seq<char>, SpecExpressionSpanned)>,
    pub children: Seq<ElementId>,
    pub repeated: Option<SpecExpression>,
}

/// The model of the bindings of an element: each name with the model of its
/// expression.
pub open spec fn bindings_model(v: Seq<(String, ExpressionSpanned)>) -> Seq<
    (Seq<char>, SpecExpressionSpanned),
> {
    v.map_values(|b: (String, ExpressionSpanned)| (b.0@, b.1@))
}

/// The model of the property declarations of an element: each name with the model of
/// its type.
pub open spec fn declarations_model(v: Seq<(String, PropertyDeclaration)>) -> Seq<
    (Seq<char>, SpecType),
> {
    v.map_values(|p: (String, PropertyDeclaration)| (p.0@, p.1.property_type@))
}

impl View for Element {
    type V = SpecElement;

    open spec fn view(&self) -> SpecElement {
        SpecElement {
            id: self.id@,
            base_type_properties: self.base_type_properties@.map_values(
                |p: (String, Type)| (p.0@, p.1@),
            ),
            property_declarations: declarations_model(self.property_declarations@),
            bindings: bindings_model(self.bindings@),
            children: self.children@,
            repeated: match self.repeated {
                Some(info) => Some(info.model@),
                None => None,
            },
        }
    }
}

impl View for ObjectTree {
    type V = Seq<SpecElement>;

    open spec fn view(&self) -> Seq<SpecElement> {
        self.elements@.map_values(|e: Element| e@)
    }
}

/// The elements met by walking the tree from `element`: the element itself, then the
/// elements met from each of its children in turn.
///
/// No path down a tree is longer than the tree has elements, so the walk goes at most
/// that deep: on a tree, where no element is its own descendant, it meets every
/// element below `element`; on a list of elements that loops back on itself it still
/// ends.
pub open spec fn walk(tree: Seq<SpecElement>, element: ElementId) -> Seq<ElementId> {
    walk_within(tree, element, tree.len())
}

/// The elements met by walking the tree from `element`, going at most `depth`
/// elements deep.
pub open spec fn walk_within(tree: Seq<SpecElement>, element: ElementId, depth: nat) -> Seq<
    ElementId,
>
    decreases depth, 1nat, 0nat,
{
    if depth == 0 || element.0 >= tree.len() {
        Seq::empty()
    } else {
        seq![element] + walk_children(
            tree,
            tree[element.0 as int].children,
            tree[element.0 as int].children.len(),
            (depth - 1) as nat,
        )
    }
}

/// The elements met by walking the tree from each of the first `n` of `children` in
/// turn, going at most `depth` elements deep. A listed child that the tree does not
/// hold is not walked.
pub open spec fn walk_children(
    tree: Seq<SpecElement>,
    children: Seq<ElementId>,
    n: nat,
    depth: nat,
) -> Seq<ElementId>
    decreases depth, 2nat, n,
{
    if n == 0 || n > children.len() {
        Seq::empty()
    } else {
        walk_children(tree, children, (n - 1) as nat, depth) + walk_within(
            tree,
            children[n - 1],
            depth,
        )
    }
}

impl ObjectTree {
    /// Appends to `order` the elements met by walking the tree from `element`: the
    /// element itself, then the elements met from each of its children in turn.
    pub fn recurse_elem(&self, element: ElementId, order: &mut Vec<ElementId>)
        ensures
            final(order)@ == old(order)@ + walk(self@, element),
    {
        self.recurse_within(element, self.elements.len(), order);
    }

    /// Appends to `order` the elements met by walking the tree from `element`, going
    /// at most `depth` elements deep.
    fn recurse_within(&self, element: ElementId, depth: usize, order: &mut Vec<ElementId>)
        ensures
            final(order)@ == old(order)@ + walk_within(self@, element, depth as nat),
        decreases depth,
    {
        if depth == 0 || element.0 >= self.elements.len() {
            assert(old(order)@ + Seq::<ElementId>::empty() =~= old(order)@);
            return;
        }
        let ghost t = self@;
        order.push(element);
        let children = &self.elements[element.0].children;
        assert(t[element.0 as int].children == children@);
        let mut i: usize = 0;
        assert(old(order)@.push(element) =~= old(order)@ + seq![element] + walk_children(
            t,
            children@,
            0,
            (depth - 1) as nat,
        ));
        while i < children.len()
            invariant
                0 <= i <= children.len(),
                0 < depth,
                element.0 < self.elements.len(),
                t == self@,
                t.len() == self.elements.len(),
                t[element.0 as int].children == children@,
                order@ == old(order)@ + seq![element] + walk_children(
                    t,
                    children@,
                    i as nat,
                    (depth - 1) as nat,
                ),
            decreases children.len() - i,
        {
            let c = children[i];
            self.recurse_within(c, depth - 1, order);
            assert(order@ =~= old(order)@ + seq![element] + walk_children(
                t,
                children@,
                (i + 1) as nat,
                (depth - 1) as nat,
            ));
            i += 1;
        }
        assert(order@ =~= old(order)@ + walk_within(t, element, depth as nat));
    }
}

} // verus!
