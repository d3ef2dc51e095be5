use sixtyfps::diagnostics::BuildDiagnostics;
use sixtyfps::expression_tree::{BuiltinFunction, Expression, ExpressionSpanned};
use sixtyfps::focus_item::determine_initial_focus_item;
use sixtyfps::object_tree::{Component, Element, ElementId, ObjectTree, PropertyDeclaration};
use sixtyfps::typeregister::Type;

fn element(id: &str, children: Vec<ElementId>) -> Element {
    Element {
        id: id.to_string(),
        base_type_properties: vec![],
        property_declarations: vec![],
        bindings: vec![],
        children,
        repeated: None,
    }
}

fn focus_binding(target: usize) -> (String, ExpressionSpanned) {
    (
        "initial_focus".to_string(),
        ExpressionSpanned::from(Expression::ElementReference(ElementId(target))),
    )
}

fn is_set_focus_of(e: &Expression, target: usize) -> bool {
    match e {
        Expression::FunctionCall { function, arguments } => {
            matches!(**function, Expression::BuiltinFunctionReference(BuiltinFunction::SetFocusItem))
                && arguments.len() == 1
                && matches!(arguments[0], Expression::ElementReference(ElementId(t)) if t == target)
        }
        _ => false,
    }
}

#[test]
fn initial_focus_becomes_setup_code() {
    let mut root = element("root", vec![ElementId(1)]);
    root.bindings.push(("width".to_string(), ExpressionSpanned::from(Expression::Invalid)));
    root.bindings.push(focus_binding(1));
    root.property_declarations.push((
        "initial_focus".to_string(),
        PropertyDeclaration { property_type: Type::ElementReference },
    ));
    let input = element("input", vec![]);
    let mut tree = ObjectTree { elements: vec![root, input] };
    let mut component = Component { root_element: ElementId(0), setup_code: vec![] };
    let mut diag = BuildDiagnostics::new();
    determine_initial_focus_item(&mut component, &mut tree, &mut diag);
    assert_eq!(component.setup_code.len(), 1);
    assert!(is_set_focus_of(&component.setup_code[0], 1));
    let root = &tree.elements[0];
    assert_eq!(root.bindings.len(), 1);
    assert_eq!(root.bindings[0].0, "width");
    assert!(root.property_declarations.is_empty());
    assert!(!diag.has_error());
}

#[test]
fn nested_elements_in_walk_order() {
    let root = element("root", vec![ElementId(1), ElementId(3)]);
    let mut a = element("a", vec![ElementId(2)]);
    a.bindings.push(focus_binding(3));
    let mut b = element("b", vec![]);
    b.bindings.push(focus_binding(2));
    let mut c = element("c", vec![]);
    c.bindings.push(focus_binding(1));
    let mut tree = ObjectTree { elements: vec![root, a, b, c] };
    let existing = Expression::BoolLiteral(true);
    let mut component = Component { root_element: ElementId(0), setup_code: vec![existing] };
    let mut diag = BuildDiagnostics::new();
    determine_initial_focus_item(&mut component, &mut tree, &mut diag);
    assert_eq!(component.setup_code.len(), 4);
    assert!(matches!(component.setup_code[0], Expression::BoolLiteral(true)));
    assert!(is_set_focus_of(&component.setup_code[1], 3));
    assert!(is_set_focus_of(&component.setup_code[2], 2));
    assert!(is_set_focus_of(&component.setup_code[3], 1));
    for el in tree.elements.iter() {
        assert!(el.bindings.iter().all(|(n, _)| n != "initial_focus"));
    }
}

#[test]
fn binding_that_is_not_an_element_is_dropped() {
    let mut root = element("root", vec![]);
    root.bindings.push(("initial_focus".to_string(), ExpressionSpanned::from(Expression::BoolLiteral(true))));
    let mut tree = ObjectTree { elements: vec![root] };
    let mut component = Component { root_element: ElementId(0), setup_code: vec![] };
    let mut diag = BuildDiagnostics::new();
    determine_initial_focus_item(&mut component, &mut tree, &mut diag);
    assert!(component.setup_code.is_empty());
    assert!(tree.elements[0].bindings.is_empty());
}

#[test]
fn elements_outside_the_component_are_left_alone() {
    let root = element("root", vec![]);
    let mut other = element("other", vec![]);
    other.bindings.push(focus_binding(0));
    let mut tree = ObjectTree { elements: vec![root, other] };
    let mut component = Component { root_element: ElementId(0), setup_code: vec![] };
    let mut diag = BuildDiagnostics::new();
    determine_initial_focus_item(&mut component, &mut tree, &mut diag);
    assert!(component.setup_code.is_empty());
    assert_eq!(tree.elements[1].bindings.len(), 1);
}

#[test]
fn walk_order() {
    let root = element("root", vec![ElementId(1), ElementId(3)]);
    let a = element("a", vec![ElementId(2)]);
    let b = element("b", vec![]);
    let c = element("c", vec![]);
    let tree = ObjectTree { elements: vec![root, a, b, c] };
    let mut order = vec![];
    tree.recurse_elem(ElementId(0), &mut order);
    assert_eq!(order, vec![ElementId(0), ElementId(1), ElementId(2), ElementId(3)]);
    let mut order = vec![];
    tree.recurse_elem(ElementId(1), &mut order);
    assert_eq!(order, vec![ElementId(1), ElementId(2)]);
}

#[test]
fn walk_follows_children_whatever_their_place_and_skips_missing_ones() {
    let root = element("root", vec![ElementId(0), ElementId(9)]);
    let child = element("child", vec![]);
    // the root is element 1, its child element 0
    let tree = ObjectTree { elements: vec![child, root] };
    let mut order = vec![];
    tree.recurse_elem(ElementId(1), &mut order);
    assert_eq!(order, vec![ElementId(1), ElementId(0)]);
    let mut order = vec![ElementId(4)];
    tree.recurse_elem(ElementId(2), &mut order);
    assert_eq!(order, vec![ElementId(4)]);
}

#[test]
fn focus_of_a_child_placed_before_its_parent() {
    let root = element("root", vec![ElementId(0)]);
    let mut child = element("child", vec![]);
    child.bindings.push(focus_binding(0));
    let mut tree = ObjectTree { elements: vec![child, root] };
    let mut component = Component { root_element: ElementId(1), setup_code: vec![] };
    let mut diag = BuildDiagnostics::new();
    determine_initial_focus_item(&mut component, &mut tree, &mut diag);
    assert_eq!(component.setup_code.len(), 1);
    assert!(is_set_focus_of(&component.setup_code[0], 0));
    assert!(tree.elements[0].bindings.is_empty());
}

#[test]
fn walk_of_a_looping_list_ends() {
    let a = element("a", vec![ElementId(1)]);
    let b = element("b", vec![ElementId(0)]);
    let tree = ObjectTree { elements: vec![a, b] };
    let mut order = vec![];
    tree.recurse_elem(ElementId(0), &mut order);
    assert_eq!(order, vec![ElementId(0), ElementId(1)]);
}

#[test]
fn two_way_bindings_and_their_properties_are_removed() {
    let mut root = element("root", vec![ElementId(1)]);
    root.bindings.push((
        "text".to_string(),
        ExpressionSpanned::from(Expression::TwoWayBinding(sixtyfps::expression_tree::NamedReference {
            element: ElementId(1),
            name: "value".to_string(),
        })),
    ));
    root.bindings.push(("width".to_string(), ExpressionSpanned::from(Expression::BoolLiteral(true))));
    root.property_declarations.push(("text".to_string(), PropertyDeclaration { property_type: Type::String }));
    root.property_declarations.push(("other".to_string(), PropertyDeclaration { property_type: Type::Int32 }));
    root.bindings.push(focus_binding(0));
    let mut child = element("child", vec![]);
    child.bindings.push((
        "value".to_string(),
        ExpressionSpanned::from(Expression::TwoWayBinding(sixtyfps::expression_tree::NamedReference {
            element: ElementId(0),
            name: "text".to_string(),
        })),
    ));
    let mut tree = ObjectTree { elements: vec![root, child] };
    let mut component = Component { root_element: ElementId(0), setup_code: vec![] };
    let mut diag = BuildDiagnostics::new();
    determine_initial_focus_item(&mut component, &mut tree, &mut diag);
    let root = &tree.elements[0];
    assert_eq!(root.bindings.len(), 1);
    assert_eq!(root.bindings[0].0, "width");
    assert_eq!(root.property_declarations.len(), 1);
    assert_eq!(root.property_declarations[0].0, "other");
    assert!(tree.elements[1].bindings.is_empty());
    assert_eq!(component.setup_code.len(), 1);
}

#[test]
fn declaration_of_unbound_initial_focus_stays() {
    let mut root = element("root", vec![]);
    root.property_declarations.push((
        "initial_focus".to_string(),
        PropertyDeclaration { property_type: Type::ElementReference },
    ));
    let mut tree = ObjectTree { elements: vec![root] };
    let mut component = Component { root_element: ElementId(0), setup_code: vec![] };
    let mut diag = BuildDiagnostics::new();
    determine_initial_focus_item(&mut component, &mut tree, &mut diag);
    assert_eq!(tree.elements[0].property_declarations.len(), 1);
    assert!(component.setup_code.is_empty());
}

#[test]
fn running_the_pass_twice_changes_nothing_more() {
    let mut root = element("root", vec![ElementId(1)]);
    root.bindings.push(focus_binding(1));
    let mut child = element("child", vec![]);
    child.bindings.push(focus_binding(0));
    let mut tree = ObjectTree { elements: vec![root, child] };
    let mut component = Component { root_element: ElementId(0), setup_code: vec![] };
    let mut diag = BuildDiagnostics::new();
    determine_initial_focus_item(&mut component, &mut tree, &mut diag);
    let tree_once = format!("{:?}", tree);
    let setup_once = format!("{:?}", component.setup_code);
    determine_initial_focus_item(&mut component, &mut tree, &mut diag);
    assert_eq!(format!("{:?}", tree), tree_once);
    assert_eq!(format!("{:?}", component.setup_code), setup_once);
    assert!(!diag.has_error());
}
