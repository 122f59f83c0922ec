use ui_layout::cache::WindowCache;
use ui_layout::constraint::DimensionConstraint;
use ui_layout::element::ElementKind;
use ui_layout::element::ElementTree;
use ui_layout::prototype::ElementDisplay;
use ui_layout::prototype::ErrorWindow;
use ui_layout::prototype::NumberWindow;
use ui_layout::prototype::PrototypeElement;
use ui_layout::prototype::PrototypeWindow;
use ui_layout::units::InterfaceSettings;
use ui_layout::units::ScreenPosition;
use ui_layout::units::ScreenSize;

#[test]
fn values_describe_themselves() {
    assert_eq!(true.display(), "true");
    assert_eq!(false.display(), "false");
    assert_eq!("hello".to_string().display(), "hello");
    assert_eq!(DimensionConstraint::Flexible.display(), "flexible");
    assert_eq!(DimensionConstraint::Absolute(10).display(), "absolute");
}

#[test]
fn prototype_element_appends_a_labelled_row() {
    let mut tree = ElementTree::new();
    let row = "payload".to_string().to_element("field".to_string(), &mut tree, None);
    assert_eq!(row, 0);
    assert_eq!(tree.nodes.len(), 3);
    assert_eq!(tree.nodes[row].kind, ElementKind::Container);
    assert_eq!(tree.nodes[row].children, vec![1, 2]);
    assert_eq!(tree.nodes[1].label, "field");
    assert_eq!(tree.nodes[2].label, "payload");
}

#[test]
fn constraint_renders_as_its_label_alone() {
    let mut tree = ElementTree::new();
    let row = DimensionConstraint::Flexible.to_element("height".to_string(), &mut tree, None);
    assert_eq!(tree.nodes.len(), 2);
    assert_eq!(tree.nodes[row].children, vec![1]);
    assert_eq!(tree.nodes[1].label, "height");
}

#[test]
fn absent_option_renders_as_none() {
    let mut tree = ElementTree::new();
    let absent: Option<String> = None;
    let row = absent.to_element("owner".to_string(), &mut tree, None);
    assert_eq!(tree.nodes[row].children.len(), 2);
    assert_eq!(tree.nodes[2].label, "none");

    let present = Some("alice".to_string());
    let row = present.to_element("owner".to_string(), &mut tree, None);
    assert_eq!(tree.nodes[row + 2].label, "alice");
}

#[test]
fn vector_renders_one_row_per_item() {
    let mut tree = ElementTree::new();
    let items = vec!["a".to_string(), "b".to_string()];
    let row = items.to_element("letters".to_string(), &mut tree, None);
    // The row holds the label leaf and one nested row per item.
    assert_eq!(tree.nodes[row].children.len(), 3);
    assert_eq!(tree.nodes[1].label, "letters");
    let first_item = tree.nodes[row].children[1];
    assert_eq!(tree.nodes[first_item].kind, ElementKind::Container);
    // Item rows are labelled by position and carry the item's text.
    assert_eq!(tree.nodes[first_item + 1].label, "0");
    assert_eq!(tree.nodes[first_item + 2].label, "a");
    let second_item = tree.nodes[row].children[2];
    assert_eq!(tree.nodes[second_item + 1].label, "1");
    assert_eq!(tree.nodes[second_item + 2].label, "b");
}

#[test]
fn shared_values_render_like_their_contents() {
    let mut tree = ElementTree::new();
    let shared = std::rc::Rc::new("inner".to_string());
    let row = shared.to_element("shared".to_string(), &mut tree, None);
    assert_eq!(tree.nodes[row + 2].label, "inner");
    let counted = std::sync::Arc::new(true);
    let row = counted.to_element("flag".to_string(), &mut tree, None);
    assert_eq!(tree.nodes[row + 2].label, "true");
    let slice: &[bool] = &[false];
    let row = slice.to_element("flags".to_string(), &mut tree, None);
    assert_eq!(tree.nodes[row].children.len(), 2);
    let color_row = ui_layout::units::Color::rgb(1, 2, 3).to_element(
        "tint".to_string(),
        &mut tree,
        None,
    );
    assert_eq!(tree.nodes[color_row].children.len(), 2);
    assert_eq!(tree.nodes[color_row + 2].label, "");
}

#[test]
fn error_window_is_titled_and_closable() {
    let cache = WindowCache::new();
    let settings = InterfaceSettings::new(100);
    let available = ScreenSize { width: 800, height: 600 };
    let window = ErrorWindow::new("out of potions".to_string()).to_window(
        &cache,
        &settings,
        available,
    );
    assert!(window.closable);
    assert_eq!(window.window_class, None);
    // Width 400 within [300, 500]; a flexible height takes the full
    // available space; the window is centered.
    assert_eq!(window.size, ScreenSize { width: 400, height: 600 });
    assert_eq!(window.position, ScreenPosition { left: 200, top: 0 });
    // Chrome plus the message leaf.
    assert_eq!(window.elements.nodes[1].kind, ElementKind::DragButton);
    assert_eq!(window.elements.nodes[1].label, "Error");
    assert_eq!(window.elements.nodes[2].kind, ElementKind::CloseButton);
    assert_eq!(window.elements.nodes[3].label, "out of potions");
}

#[test]
fn number_window_observes_its_value() {
    let cache = WindowCache::new();
    let settings = InterfaceSettings::new(100);
    let available = ScreenSize { width: 800, height: 600 };
    let mut window = NumberWindow::new("speed".to_string(), 30, 0, 100).to_window(
        &cache,
        &settings,
        available,
    );
    assert_eq!(window.size, ScreenSize { width: 250, height: 600 });
    // Chrome, headline, then the slider that observes the value.
    let slider = 4;
    assert_eq!(window.elements.nodes[slider].observed, Some(30));
    assert_eq!(window.update(slider, 30), None);
    assert_eq!(
        window.update(slider, 55),
        Some(ui_layout::element::ChangeEvent::ResolveWindow)
    );
}
