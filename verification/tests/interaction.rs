use ui_layout::constraint::DimensionConstraint;
use ui_layout::constraint::SizeBound;
use ui_layout::element::ChangeEvent;
use ui_layout::element::Element;
use ui_layout::element::ElementKind;
use ui_layout::element::ElementTree;
use ui_layout::element::HoverInformation;
use ui_layout::units::ScreenClip;

fn fixed_bound(width: u64, height: u64) -> SizeBound {
    SizeBound {
        width: DimensionConstraint::Absolute(width),
        minimum_width: None,
        maximum_width: None,
        height: DimensionConstraint::Absolute(height),
        minimum_height: None,
        maximum_height: None,
    }
}

fn node(kind: ElementKind, label: &str, focusable: bool, interactive: bool) -> Element {
    Element::new(kind, label.to_string(), focusable, interactive, fixed_bound(100, 20), 0, None)
}

fn container(label: &str) -> Element {
    Element::new(
        ElementKind::Container,
        label.to_string(),
        false,
        false,
        fixed_bound(100, 100),
        0,
        None,
    )
}

#[test]
fn focus_visits_every_focusable_child_once_then_wraps() {
    let mut tree = ElementTree::new();
    let root = tree.add_element(container("root"), None);
    for index in 0..3 {
        tree.add_element(node(ElementKind::Leaf, &format!("leaf {index}"), true, true), Some(root));
    }
    tree.link_back();

    // Starting with no caller and always passing the previous result
    // visits all three leaves in order, then wraps to the first.
    let first = tree.focus_next(None);
    assert_eq!(first, Some(1));
    let second = tree.focus_next(first);
    assert_eq!(second, Some(2));
    let third = tree.focus_next(second);
    assert_eq!(third, Some(3));
    let wrapped = tree.focus_next(third);
    assert_eq!(wrapped, Some(1));
}

#[test]
fn focus_skips_non_focusable_nodes() {
    let mut tree = ElementTree::new();
    let root = tree.add_element(container("root"), None);
    tree.add_element(node(ElementKind::Leaf, "plain", false, true), Some(root));
    tree.add_element(node(ElementKind::Leaf, "button", true, true), Some(root));
    tree.add_element(node(ElementKind::Leaf, "divider", false, false), Some(root));
    tree.link_back();

    assert_eq!(tree.restore_focus(), Some(2));
    assert_eq!(tree.focus_next(Some(2)), Some(2));
}

#[test]
fn focus_on_empty_tree_is_none() {
    let tree = ElementTree::new();
    assert_eq!(tree.focus_next(None), None);
    assert_eq!(tree.restore_focus(), None);
}

fn place(tree: &mut ElementTree, index: usize, left: u64, top: u64, width: u64, height: u64) {
    tree.nodes[index].left = left;
    tree.nodes[index].top = top;
    tree.nodes[index].width = width;
    tree.nodes[index].height = height;
}

#[test]
fn hover_prefers_the_sibling_added_last() {
    let mut tree = ElementTree::new();
    let root = tree.add_element(container("root"), None);
    let a = tree.add_element(node(ElementKind::Leaf, "a", false, true), Some(root));
    let b = tree.add_element(node(ElementKind::Leaf, "b", false, true), Some(root));
    tree.link_back();

    // Two overlapping siblings: both rectangles contain the probed point;
    // the one added later is visually on top and wins.
    place(&mut tree, root, 0, 0, 200, 200);
    place(&mut tree, a, 10, 10, 100, 100);
    place(&mut tree, b, 50, 50, 100, 100);
    let clip = ScreenClip { left: 0, top: 0, right: 200, bottom: 200 };

    let hit = tree.hovered_element_at(root, 60, 60, clip);
    assert_eq!(hit, HoverInformation::Element(b));

    // A point only inside the earlier sibling falls through to it.
    let hit = tree.hovered_element_at(root, 20, 20, clip);
    assert_eq!(hit, HoverInformation::Element(a));

    // A point inside neither child but inside the interactive-free
    // container is a miss.
    let hit = tree.hovered_element_at(root, 190, 190, clip);
    assert_eq!(hit, HoverInformation::Missed);
}

#[test]
fn hover_is_clipped_by_the_ancestors() {
    let mut tree = ElementTree::new();
    let root = tree.add_element(container("root"), None);
    let child = tree.add_element(node(ElementKind::Leaf, "tall", false, true), Some(root));
    tree.link_back();

    // The child sticks out below its parent; the overhang is clipped and
    // cannot be hovered.
    place(&mut tree, root, 0, 0, 100, 100);
    place(&mut tree, child, 0, 0, 100, 500);
    let clip = ScreenClip { left: 0, top: 0, right: 1000, bottom: 1000 };

    assert_eq!(tree.hovered_element_at(root, 50, 50, clip), HoverInformation::Element(child));
    assert_eq!(tree.hovered_element_at(root, 50, 300, clip), HoverInformation::Missed);
}

#[test]
fn layout_stacks_children_without_overlap() {
    let mut tree = ElementTree::new();
    let root = tree.add_element(container("root"), None);
    tree.add_element(node(ElementKind::Leaf, "first", false, true), Some(root));
    tree.add_element(node(ElementKind::Leaf, "second", false, true), Some(root));
    tree.link_back();
    tree.resolve(5, 7, 300, 300, 100);

    // The root resolves against the base rectangle, the children stack.
    assert_eq!(tree.nodes[0].left, 5);
    assert_eq!(tree.nodes[0].top, 7);
    assert_eq!(tree.nodes[0].width, 100);
    assert_eq!(tree.nodes[0].height, 100);
    assert_eq!(tree.nodes[1].top, 7);
    assert_eq!(tree.nodes[1].height, 20);
    assert_eq!(tree.nodes[2].top, 27);
}

#[test]
fn layout_scales_absolute_lengths() {
    let mut tree = ElementTree::new();
    let root = tree.add_element(container("root"), None);
    tree.add_element(node(ElementKind::Leaf, "label", false, true), Some(root));
    tree.link_back();
    tree.resolve(0, 0, 300, 300, 150);

    assert_eq!(tree.nodes[0].width, 150);
    assert_eq!(tree.nodes[1].height, 30);
}

#[test]
fn first_flexible_sibling_consumes_the_remainder() {
    // The documented policy for several flexible siblings: each takes the
    // content space left over by its preceding siblings, in declaration
    // order, floored at zero — so the first flexible sibling takes
    // everything that remains and later ones collapse.
    let mut tree = ElementTree::new();
    let root = tree.add_element(container("root"), None);
    let flexible = SizeBound {
        width: DimensionConstraint::Relative(100),
        minimum_width: None,
        maximum_width: None,
        height: DimensionConstraint::Flexible,
        minimum_height: None,
        maximum_height: None,
    };
    tree.add_element(
        Element::new(ElementKind::Leaf, "stretch".to_string(), false, true, flexible, 0, None),
        Some(root),
    );
    tree.add_element(node(ElementKind::Leaf, "fixed", false, true), Some(root));
    tree.add_element(
        Element::new(ElementKind::Leaf, "starved".to_string(), false, true, flexible, 0, None),
        Some(root),
    );
    tree.link_back();
    tree.resolve(0, 0, 100, 100, 100);

    assert_eq!(tree.nodes[0].height, 100);
    assert_eq!(tree.nodes[1].height, 100);
    assert_eq!(tree.nodes[2].height, 20);
    assert_eq!(tree.nodes[3].height, 0);
}

#[test]
fn padding_insets_the_children() {
    let mut tree = ElementTree::new();
    let padded = Element::new(
        ElementKind::Container,
        "padded".to_string(),
        false,
        false,
        fixed_bound(100, 100),
        3,
        None,
    );
    let root = tree.add_element(padded, None);
    tree.add_element(node(ElementKind::Leaf, "inner", false, true), Some(root));
    tree.link_back();
    tree.resolve(10, 10, 300, 300, 100);

    assert_eq!(tree.nodes[1].left, 13);
    assert_eq!(tree.nodes[1].top, 13);
    // Relative(100) of the parent: the leaf bound in these tests is
    // absolute, so it keeps its width; check the content inset via a
    // flexible height child instead.
    let mut flex_tree = ElementTree::new();
    let padded = Element::new(
        ElementKind::Container,
        "padded".to_string(),
        false,
        false,
        fixed_bound(100, 100),
        3,
        None,
    );
    let root = flex_tree.add_element(padded, None);
    let flexible = SizeBound {
        // A percentage of the parent sees the parent's full resolved
        // width; a percentage of the available space sees the padded
        // content area.
        width: DimensionConstraint::RelativeToAvailable(100),
        minimum_width: None,
        maximum_width: None,
        height: DimensionConstraint::Flexible,
        minimum_height: None,
        maximum_height: None,
    };
    flex_tree.add_element(
        Element::new(ElementKind::Leaf, "fill".to_string(), false, true, flexible, 0, None),
        Some(root),
    );
    flex_tree.link_back();
    flex_tree.resolve(0, 0, 300, 300, 100);
    // Content area is 100 - 2 * 3 = 94 on both axes.
    assert_eq!(flex_tree.nodes[1].width, 94);
    assert_eq!(flex_tree.nodes[1].height, 94);
}

#[test]
fn update_signals_only_on_change() {
    let mut tree = ElementTree::new();
    let root = tree.add_element(container("root"), None);
    let observer = Element::new(
        ElementKind::Leaf,
        "observer".to_string(),
        false,
        true,
        fixed_bound(100, 20),
        0,
        Some(5),
    );
    let watched = tree.add_element(observer, Some(root));
    tree.link_back();

    // The observed value is unchanged: no signal.
    assert_eq!(tree.update(watched, 5), None);
    // The value changed: the window must re-resolve, and the copy is
    // refreshed, so polling again is quiet.
    assert_eq!(tree.update(watched, 7), Some(ChangeEvent::ResolveWindow));
    assert_eq!(tree.update(watched, 7), None);
    // A node that observes nothing never signals.
    assert_eq!(tree.update(root, 123), None);
}
