use ui_layout::builder::WindowBuilder;
use ui_layout::cache::WindowCache;
use ui_layout::constraint::DimensionConstraint;
use ui_layout::constraint::SizeBound;
use ui_layout::element::Element;
use ui_layout::element::ElementKind;
use ui_layout::element::ElementTree;
use ui_layout::units::InterfaceSettings;
use ui_layout::units::ScreenPosition;
use ui_layout::units::ScreenSize;

fn single(element: Element) -> ElementTree {
    let mut tree = ElementTree::new();
    tree.add_element(element, None);
    tree
}

fn inventory_bound() -> SizeBound {
    SizeBound {
        width: DimensionConstraint::Absolute(250),
        minimum_width: Some(DimensionConstraint::Absolute(200)),
        maximum_width: Some(DimensionConstraint::Absolute(300)),
        height: DimensionConstraint::Absolute(250),
        minimum_height: Some(DimensionConstraint::Absolute(200)),
        maximum_height: Some(DimensionConstraint::Absolute(300)),
    }
}

fn leaf(label: &str, focusable: bool) -> Element {
    let bound = SizeBound {
        width: DimensionConstraint::Relative(100),
        minimum_width: None,
        maximum_width: None,
        height: DimensionConstraint::Absolute(20),
        minimum_height: None,
        maximum_height: None,
    };
    Element::new(ElementKind::Leaf, label.to_string(), focusable, true, bound, 0, None)
}

fn build_inventory(cache: &WindowCache, available: ScreenSize) -> ui_layout::window::Window {
    let settings = InterfaceSettings::new(100);
    WindowBuilder::new()
        .with_title("Inventory".to_string())
        .closable()
        .with_class("inventory".to_string())
        .with_size_bound(inventory_bound())
        .with_elements(single(leaf("slot", true)))
        .build(cache, &settings, available)
}

#[test]
fn fresh_window_is_centered() {
    let cache = WindowCache::new();
    let available = ScreenSize { width: 800, height: 600 };
    let window = build_inventory(&cache, available);
    assert_eq!(window.size, ScreenSize { width: 250, height: 250 });
    assert_eq!(window.position, ScreenPosition { left: 275, top: 175 });
    assert!(window.closable);
    assert_eq!(window.window_class.as_deref(), Some("inventory"));
}

#[test]
fn closed_window_reopens_where_it_was() {
    let mut cache = WindowCache::new();
    let available = ScreenSize { width: 800, height: 600 };
    let mut window = build_inventory(&cache, available);

    // The user drags the window to (100, 100); it keeps its 250x250 size.
    window.position = ScreenPosition { left: 100, top: 100 };
    window.store_state(&mut cache);

    let reopened = build_inventory(&cache, available);
    assert_eq!(reopened.position, ScreenPosition { left: 100, top: 100 });
    assert_eq!(reopened.size, ScreenSize { width: 250, height: 250 });
}

#[test]
fn shrunk_viewport_clamps_size_and_recenters() {
    let mut cache = WindowCache::new();
    let available = ScreenSize { width: 800, height: 600 };
    let mut window = build_inventory(&cache, available);
    window.position = ScreenPosition { left: 100, top: 100 };
    window.store_state(&mut cache);

    // The viewport shrinks below the window's minimum size: the size is
    // clamped down to the viewport and the position moves to keep the
    // window fully on screen.
    let small = ScreenSize { width: 150, height: 150 };
    let reopened = build_inventory(&cache, small);
    assert_eq!(reopened.size, ScreenSize { width: 150, height: 150 });
    assert_eq!(reopened.position, ScreenPosition { left: 0, top: 0 });
}

#[test]
fn window_without_class_ignores_the_cache() {
    let mut cache = WindowCache::new();
    cache.update_window_state(
        &"inventory".to_string(),
        ScreenPosition { left: 7, top: 7 },
        ScreenSize { width: 222, height: 222 },
    );
    let settings = InterfaceSettings::new(100);
    let available = ScreenSize { width: 800, height: 600 };
    let window = WindowBuilder::new()
        .with_size_bound(inventory_bound())
        .with_elements(single(leaf("slot", true)))
        .build(&cache, &settings, available);
    // Unclassed windows always resolve fresh and centered.
    assert_eq!(window.size, ScreenSize { width: 250, height: 250 });
    assert_eq!(window.position, ScreenPosition { left: 275, top: 175 });
}

#[test]
fn fresh_resolution_is_not_clamped_to_the_viewport() {
    let cache = WindowCache::new();
    let settings = InterfaceSettings::new(100);
    let available = ScreenSize { width: 800, height: 600 };
    // An absolute axis keeps its scaled pixel value even beyond the
    // viewport, and the window sits at the edge instead of going
    // off-screen.
    let absolute = SizeBound {
        width: DimensionConstraint::Absolute(1000),
        minimum_width: None,
        maximum_width: None,
        height: DimensionConstraint::Absolute(1000),
        minimum_height: None,
        maximum_height: None,
    };
    let window = WindowBuilder::new()
        .with_size_bound(absolute)
        .with_elements(single(leaf("wide", false)))
        .build(&cache, &settings, available);
    assert_eq!(window.size, ScreenSize { width: 1000, height: 1000 });
    assert_eq!(window.position, ScreenPosition { left: 0, top: 0 });

    // A relative axis is not clamped outside [0, 100] either: for a root
    // window the available space stands in for the parent.
    let relative = SizeBound {
        width: DimensionConstraint::Relative(150),
        minimum_width: None,
        maximum_width: None,
        height: DimensionConstraint::Relative(50),
        minimum_height: None,
        maximum_height: None,
    };
    let window = WindowBuilder::new()
        .with_size_bound(relative)
        .with_elements(single(leaf("wide", false)))
        .build(&cache, &settings, available);
    assert_eq!(window.size, ScreenSize { width: 1200, height: 300 });
}

#[test]
fn build_accepts_nested_user_content() {
    let cache = WindowCache::new();
    let settings = InterfaceSettings::new(100);
    let available = ScreenSize { width: 800, height: 600 };
    let mut content = ElementTree::new();
    let group = content.add_element(
        Element::new(
            ElementKind::Container,
            "group".to_string(),
            false,
            false,
            inventory_bound(),
            0,
            None,
        ),
        None,
    );
    content.add_element(leaf("first", true), Some(group));
    content.add_element(leaf("second", true), Some(group));
    content.add_element(leaf("loose", true), None);

    let window = WindowBuilder::new()
        .with_title("Nested".to_string())
        .with_size_bound(inventory_bound())
        .with_elements(content)
        .build(&cache, &settings, available);
    let nodes = &window.elements.nodes;
    // Root container, drag handle, then the user forest shifted by two.
    assert_eq!(nodes.len(), 6);
    assert_eq!(nodes[0].children, vec![1, 2, 5]);
    assert_eq!(nodes[2].label, "group");
    assert_eq!(nodes[2].children, vec![3, 4]);
    assert_eq!(nodes[3].label, "first");
    assert_eq!(nodes[5].label, "loose");
    // Back-references reach through the nested level.
    assert_eq!(nodes[3].parent, Some(2));
    assert_eq!(nodes[2].parent, Some(0));
    assert_eq!(nodes[5].parent, Some(0));
    // Focus navigation descends into the nested container.
    assert_eq!(window.focus_next(None), Some(3));
    assert_eq!(window.focus_next(Some(3)), Some(4));
    assert_eq!(window.focus_next(Some(4)), Some(5));
    assert_eq!(window.focus_next(Some(5)), Some(3));
}

#[test]
fn resolving_twice_is_idempotent() {
    let cache = WindowCache::new();
    let available = ScreenSize { width: 800, height: 600 };
    let mut window = build_inventory(&cache, available);

    window.resolve(available, 100);
    let once_position = window.position;
    let once_size = window.size;
    window.resolve(available, 100);
    assert_eq!(window.position, once_position);
    assert_eq!(window.size, once_size);
}

#[test]
fn build_synthesizes_chrome_in_front() {
    let cache = WindowCache::new();
    let available = ScreenSize { width: 800, height: 600 };
    let window = build_inventory(&cache, available);
    let nodes = &window.elements.nodes;
    // Root container, drag handle, close button, one user element.
    assert_eq!(nodes.len(), 4);
    assert_eq!(nodes[0].kind, ElementKind::Container);
    assert_eq!(nodes[1].kind, ElementKind::DragButton);
    assert_eq!(nodes[1].label, "Inventory");
    assert_eq!(nodes[2].kind, ElementKind::CloseButton);
    assert_eq!(nodes[3].kind, ElementKind::Leaf);
    assert_eq!(nodes[3].label, "slot");
    assert_eq!(nodes[0].children, vec![1, 2, 3]);
    // Back-references are wired.
    assert_eq!(nodes[0].parent, None);
    assert_eq!(nodes[3].parent, Some(0));
    assert_eq!(nodes[3].self_index, Some(3));
}

#[test]
fn untitled_window_gets_no_drag_handle() {
    let cache = WindowCache::new();
    let settings = InterfaceSettings::new(100);
    let available = ScreenSize { width: 800, height: 600 };
    let window = WindowBuilder::new()
        .with_size_bound(inventory_bound())
        .with_elements(single(leaf("slot", true)))
        .build(&cache, &settings, available);
    let nodes = &window.elements.nodes;
    assert_eq!(nodes.len(), 2);
    assert_eq!(nodes[0].kind, ElementKind::Container);
    assert_eq!(nodes[1].kind, ElementKind::Leaf);
}

#[test]
fn builder_passes_styling_through() {
    let cache = WindowCache::new();
    let settings = InterfaceSettings::new(100);
    let available = ui_layout::units::ScreenSize::uniform(600);
    let background = ui_layout::units::ColorSelector {
        color: ui_layout::units::Color::rgb(20, 30, 40),
    };
    let window = WindowBuilder::new()
        .with_class("settings".to_string())
        .with_size_bound(inventory_bound())
        .with_elements(single(leaf("row", false)))
        .with_background_color(background)
        .with_theme_kind(ui_layout::units::ThemeKind::Menu)
        .build(&cache, &settings, available);
    assert_eq!(window.background_color, Some(background));
    assert_eq!(window.theme_kind, ui_layout::units::ThemeKind::Menu);
    assert!(!window.closable);
    let grey = ui_layout::units::Color::monochrome_u8(200);
    assert_eq!((grey.red, grey.green, grey.blue, grey.alpha), (200, 200, 200, 255));
}

#[test]
fn cache_overwrites_and_keeps_other_classes() {
    let mut cache = WindowCache::new();
    let inventory = "inventory".to_string();
    let chat = "chat".to_string();
    assert!(cache.get_window_state(&inventory).is_none());

    cache.update_window_state(
        &inventory,
        ScreenPosition { left: 1, top: 2 },
        ScreenSize { width: 3, height: 4 },
    );
    cache.update_window_state(
        &chat,
        ScreenPosition { left: 5, top: 6 },
        ScreenSize { width: 7, height: 8 },
    );
    cache.update_window_state(
        &inventory,
        ScreenPosition { left: 9, top: 10 },
        ScreenSize { width: 11, height: 12 },
    );

    let state = cache.get_window_state(&inventory).unwrap();
    assert_eq!(state.position, ScreenPosition { left: 9, top: 10 });
    assert_eq!(state.size, ScreenSize { width: 11, height: 12 });
    let other = cache.get_window_state(&chat).unwrap();
    assert_eq!(other.position, ScreenPosition { left: 5, top: 6 });
    assert_eq!(other.size, ScreenSize { width: 7, height: 8 });
}
