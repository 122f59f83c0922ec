//! Type state window builder. This builder utilizes the type system to
//! prevent calling the same method multiple times, calling `build` before
//! the mandatory methods have been called, and to enforce some conditional
//! logic. Namely, the `closable` method can only be called if the window
//! has a title.

use core::marker::PhantomData;

use vstd::prelude::*;

use crate::cache::WindowCache;
use crate::cache::WindowState;
use crate::constraint::DimensionConstraint;
use crate::constraint::SizeBound;
use crate::element::Element;
use crate::element::ElementKind;
use crate::element::ElementTree;
use crate::element::all_appended;
use crate::element::appended_matches;
use crate::element::is_child;
use crate::element::root_count_from;
use crate::element::tree_bounds_valid;
use crate::units::ColorSelector;
use crate::units::InterfaceSettings;
use crate::units::ScreenPosition;
use crate::units::ScreenSize;
use crate::units::ThemeKind;
use crate::window::Window;

verus! {

/// Marker: this configuration field has not been supplied yet.
pub struct NotSet;

/// Marker: this configuration field has been supplied.
pub struct Supplied;

/// Marker carrying a supplied mandatory configuration value.
pub struct SetWith<T>(pub T);

/// The height, in unscaled pixels, of the synthesized title drag handle.
pub const DRAG_HANDLE_HEIGHT: u64 = 16;

/// The side length, in unscaled pixels, of the synthesized close button.
pub const CLOSE_BUTTON_SIZE: u64 = 16;

#[must_use]
#[verifier::reject_recursive_types(TITLE)]
#[verifier::reject_recursive_types(CLOSABLE)]
#[verifier::reject_recursive_types(CLASS)]
#[verifier::reject_recursive_types(BACKGROUND)]
#[verifier::reject_recursive_types(THEME)]
pub struct WindowBuilder<TITLE, CLOSABLE, CLASS, SIZE, ELEMENTS, BACKGROUND, THEME> {
    pub title: Option<String>,
    pub closable: bool,
    pub class: Option<String>,
    pub size_bound: SIZE,
    pub elements: ELEMENTS,
    pub background_color: Option<ColorSelector>,
    pub theme_kind: ThemeKind,
    pub marker: PhantomData<(TITLE, CLOSABLE, CLASS, BACKGROUND, THEME)>,
}

impl WindowBuilder<NotSet, NotSet, NotSet, NotSet, NotSet, NotSet, NotSet> {
    pub fn new() -> (r: Self)
        ensures
            r.title is None,
            !r.closable,
            r.class is None,
            r.background_color is None,
            r.theme_kind == ThemeKind::Regular,
    {
        WindowBuilder {
            title: Option::None,
            closable: false,
            class: Option::None,
            size_bound: NotSet,
            elements: NotSet,
            background_color: Option::None,
            theme_kind: ThemeKind::Regular,
            marker: PhantomData,
        }
    }
}

impl<CLASS, CLOSABLE, SIZE, ELEMENTS, BACKGROUND, THEME> WindowBuilder<
    NotSet,
    CLOSABLE,
    CLASS,
    SIZE,
    ELEMENTS,
    BACKGROUND,
    THEME,
> {
    pub fn with_title(self, title: String) -> (r: WindowBuilder<
        Supplied,
        CLOSABLE,
        CLASS,
        SIZE,
        ELEMENTS,
        BACKGROUND,
        THEME,
    >)
        ensures
            r.title == Option::Some(title),
            r.closable == self.closable,
            r.class == self.class,
            r.size_bound == self.size_bound,
            r.elements == self.elements,
            r.background_color == self.background_color,
            r.theme_kind == self.theme_kind,
    {
        WindowBuilder {
            title: Option::Some(title),
            closable: self.closable,
            class: self.class,
            size_bound: self.size_bound,
            elements: self.elements,
            background_color: self.background_color,
            theme_kind: self.theme_kind,
            marker: PhantomData,
        }
    }
}

impl<CLASS, SIZE, ELEMENTS, BACKGROUND, THEME> WindowBuilder<
    Supplied,
    NotSet,
    CLASS,
    SIZE,
    ELEMENTS,
    BACKGROUND,
    THEME,
> {
    /// NOTE: This function is only available if `with_title` has been
    /// called on the builder.
    pub fn closable(self) -> (r: WindowBuilder<Supplied, Supplied, CLASS, SIZE, ELEMENTS, BACKGROUND, THEME>)
        ensures
            r.title == self.title,
            r.closable,
            r.class == self.class,
            r.size_bound == self.size_bound,
            r.elements == self.elements,
            r.background_color == self.background_color,
            r.theme_kind == self.theme_kind,
    {
        WindowBuilder {
            title: self.title,
            closable: true,
            class: self.class,
            size_bound: self.size_bound,
            elements: self.elements,
            background_color: self.background_color,
            theme_kind: self.theme_kind,
            marker: PhantomData,
        }
    }
}

impl<TITLE, CLOSABLE, SIZE, ELEMENTS, BACKGROUND, THEME> WindowBuilder<
    TITLE,
    CLOSABLE,
    NotSet,
    SIZE,
    ELEMENTS,
    BACKGROUND,
    THEME,
> {
    pub fn with_class(self, class: String) -> (r: WindowBuilder<
        TITLE,
        CLOSABLE,
        Supplied,
        SIZE,
        ELEMENTS,
        BACKGROUND,
        THEME,
    >)
        ensures
            r.title == self.title,
            r.closable == self.closable,
            r.class == Option::Some(class),
            r.size_bound == self.size_bound,
            r.elements == self.elements,
            r.background_color == self.background_color,
            r.theme_kind == self.theme_kind,
    {
        WindowBuilder {
            title: self.title,
            closable: self.closable,
            class: Option::Some(class),
            size_bound: self.size_bound,
            elements: self.elements,
            background_color: self.background_color,
            theme_kind: self.theme_kind,
            marker: PhantomData,
        }
    }

    pub fn with_class_option(self, class: Option<String>) -> (r: WindowBuilder<
        TITLE,
        CLOSABLE,
        Supplied,
        SIZE,
        ELEMENTS,
        BACKGROUND,
        THEME,
    >)
        ensures
            r.title == self.title,
            r.closable == self.closable,
            r.class == class,
            r.size_bound == self.size_bound,
            r.elements == self.elements,
            r.background_color == self.background_color,
            r.theme_kind == self.theme_kind,
    {
        WindowBuilder {
            title: self.title,
            closable: self.closable,
            class,
            size_bound: self.size_bound,
            elements: self.elements,
            background_color: self.background_color,
            theme_kind: self.theme_kind,
            marker: PhantomData,
        }
    }
}

impl<TITLE, CLOSABLE, CLASS, ELEMENTS, BACKGROUND, THEME> WindowBuilder<
    TITLE,
    CLOSABLE,
    CLASS,
    NotSet,
    ELEMENTS,
    BACKGROUND,
    THEME,
> {
    pub fn with_size_bound(self, size_bound: SizeBound) -> (r: WindowBuilder<
        TITLE,
        CLOSABLE,
        CLASS,
        SetWith<SizeBound>,
        ELEMENTS,
        BACKGROUND,
        THEME,
    >)
        ensures
            r.title == self.title,
            r.closable == self.closable,
            r.class == self.class,
            r.size_bound == SetWith(size_bound),
            r.elements == self.elements,
            r.background_color == self.background_color,
            r.theme_kind == self.theme_kind,
    {
        WindowBuilder {
            title: self.title,
            closable: self.closable,
            class: self.class,
            size_bound: SetWith(size_bound),
            elements: self.elements,
            background_color: self.background_color,
            theme_kind: self.theme_kind,
            marker: PhantomData,
        }
    }
}

impl<TITLE, CLOSABLE, CLASS, SIZE, BACKGROUND, THEME> WindowBuilder<
    TITLE,
    CLOSABLE,
    CLASS,
    SIZE,
    NotSet,
    BACKGROUND,
    THEME,
> {
    pub fn with_elements(self, elements: ElementTree) -> (r: WindowBuilder<
        TITLE,
        CLOSABLE,
        CLASS,
        SIZE,
        SetWith<ElementTree>,
        BACKGROUND,
        THEME,
    >)
        ensures
            r.title == self.title,
            r.closable == self.closable,
            r.class == self.class,
            r.size_bound == self.size_bound,
            r.elements == SetWith(elements),
            r.background_color == self.background_color,
            r.theme_kind == self.theme_kind,
    {
        WindowBuilder {
            title: self.title,
            closable: self.closable,
            class: self.class,
            size_bound: self.size_bound,
            elements: SetWith(elements),
            background_color: self.background_color,
            theme_kind: self.theme_kind,
            marker: PhantomData,
        }
    }
}

impl<TITLE, CLOSABLE, CLASS, SIZE, ELEMENTS, THEME> WindowBuilder<
    TITLE,
    CLOSABLE,
    CLASS,
    SIZE,
    ELEMENTS,
    NotSet,
    THEME,
> {
    pub fn with_background_color(self, background_color: ColorSelector) -> (r: WindowBuilder<
        TITLE,
        CLOSABLE,
        CLASS,
        SIZE,
        ELEMENTS,
        Supplied,
        THEME,
    >)
        ensures
            r.title == self.title,
            r.closable == self.closable,
            r.class == self.class,
            r.size_bound == self.size_bound,
            r.elements == self.elements,
            r.background_color == Option::Some(background_color),
            r.theme_kind == self.theme_kind,
    {
        WindowBuilder {
            title: self.title,
            closable: self.closable,
            class: self.class,
            size_bound: self.size_bound,
            elements: self.elements,
            background_color: Option::Some(background_color),
            theme_kind: self.theme_kind,
            marker: PhantomData,
        }
    }
}

impl<TITLE, CLOSABLE, CLASS, SIZE, ELEMENTS, BACKGROUND> WindowBuilder<
    TITLE,
    CLOSABLE,
    CLASS,
    SIZE,
    ELEMENTS,
    BACKGROUND,
    NotSet,
> {
    pub fn with_theme_kind(self, theme_kind: ThemeKind) -> (r: WindowBuilder<
        TITLE,
        CLOSABLE,
        CLASS,
        SIZE,
        ELEMENTS,
        BACKGROUND,
        Supplied,
    >)
        ensures
            r.title == self.title,
            r.closable == self.closable,
            r.class == self.class,
            r.size_bound == self.size_bound,
            r.elements == self.elements,
            r.background_color == self.background_color,
            r.theme_kind == theme_kind,
    {
        WindowBuilder {
            title: self.title,
            closable: self.closable,
            class: self.class,
            size_bound: self.size_bound,
            elements: self.elements,
            background_color: self.background_color,
            theme_kind,
            marker: PhantomData,
        }
    }
}

/// The bound of the root container synthesized by `build`: full window
/// width, flexible height, and the window bound's minima and maxima
/// inherited through `Super` wherever the window has one.
pub open spec fn spec_container_bound(window_bound: SizeBound) -> SizeBound {
    SizeBound {
        width: DimensionConstraint::Relative(100),
        minimum_width: if window_bound.minimum_width is Some {
            Option::Some(DimensionConstraint::Super)
        } else {
            Option::None
        },
        maximum_width: if window_bound.maximum_width is Some {
            Option::Some(DimensionConstraint::Super)
        } else {
            Option::None
        },
        height: DimensionConstraint::Flexible,
        minimum_height: if window_bound.minimum_height is Some {
            Option::Some(DimensionConstraint::Super)
        } else {
            Option::None
        },
        maximum_height: if window_bound.maximum_height is Some {
            Option::Some(DimensionConstraint::Super)
        } else {
            Option::None
        },
    }
}

/// The bound of the drag handle synthesized for a titled window: a fixed
/// height; the width leaves room for the close button when the window is
/// closable and takes the full remainder otherwise.
pub open spec fn spec_drag_bound(closable: bool) -> SizeBound {
    SizeBound {
        width: if closable {
            DimensionConstraint::Relative(70)
        } else {
            DimensionConstraint::Flexible
        },
        minimum_width: Option::None,
        maximum_width: Option::None,
        height: DimensionConstraint::Absolute(DRAG_HANDLE_HEIGHT),
        minimum_height: Option::None,
        maximum_height: Option::None,
    }
}

/// The bound of the close button synthesized for a closable window: a
/// fixed square.
pub open spec fn spec_close_bound() -> SizeBound {
    SizeBound {
        width: DimensionConstraint::Absolute(CLOSE_BUTTON_SIZE),
        minimum_width: Option::None,
        maximum_width: Option::None,
        height: DimensionConstraint::Absolute(CLOSE_BUTTON_SIZE),
        minimum_height: Option::None,
        maximum_height: Option::None,
    }
}

/// The width a freshly built window resolves to, given what the cache
/// knows about its class: a cached width is re-validated, and without a
/// cache entry the bound resolves fresh against the available space.
pub open spec fn spec_built_width(
    bound: SizeBound,
    cached: Option<WindowState>,
    available: ScreenSize,
    scaling: int,
) -> int {
    match cached {
        Option::Some(state) => bound.spec_validated_width(
            state.size.width as int,
            available.width as int,
            scaling,
        ),
        Option::None => bound.spec_window_width(available.width as int, scaling),
    }
}

/// The height a freshly built window resolves to.
pub open spec fn spec_built_height(
    bound: SizeBound,
    cached: Option<WindowState>,
    available: ScreenSize,
    scaling: int,
) -> int {
    match cached {
        Option::Some(state) => bound.spec_validated_height(
            state.size.height as int,
            available.height as int,
            scaling,
        ),
        Option::None => bound.spec_window_height(available.height as int, scaling),
    }
}

/// The left coordinate of a freshly built window: a cached position is
/// pushed back on screen, and without a cache entry the window is
/// centered in the available space. A fresh window wider than the
/// viewport sits at the left edge: screen coordinates are unsigned, so
/// the overhang falls entirely to the right.
pub open spec fn spec_built_left(
    cached: Option<WindowState>,
    width: int,
    available_width: int,
) -> int {
    match cached {
        Option::Some(state) => SizeBound::spec_validated_left(
            width,
            available_width,
            state.position.left as int,
        ),
        Option::None => if width >= available_width {
            0
        } else {
            (available_width - width) / 2
        },
    }
}

/// The top coordinate of a freshly built window.
pub open spec fn spec_built_top(
    cached: Option<WindowState>,
    height: int,
    available_height: int,
) -> int {
    match cached {
        Option::Some(state) => SizeBound::spec_validated_left(
            height,
            available_height,
            state.position.top as int,
        ),
        Option::None => if height >= available_height {
            0
        } else {
            (available_height - height) / 2
        },
    }
}

impl<TITLE, CLOSABLE, CLASS, BACKGROUND, THEME> WindowBuilder<
    TITLE,
    CLOSABLE,
    CLASS,
    SetWith<SizeBound>,
    SetWith<ElementTree>,
    BACKGROUND,
    THEME,
> {
    /// Take the builder and turn it into a [`Window`].
    /// NOTE: This method is only available if `with_size_bound` and
    /// `with_elements` has been called on the builder.
    ///
    /// The supplied elements are wrapped in a root container that forces
    /// full width and flexible height; a drag handle is synthesized in
    /// front of them when the window is titled, a close button when it is
    /// closable. Back-references are wired, cached geometry is looked up
    /// by the window class, and the final position and size are resolved.
    #[verifier::rlimit(100)]
    pub fn build(
        self,
        window_cache: &WindowCache,
        interface_settings: &InterfaceSettings,
        available_space: ScreenSize,
    ) -> (r: Window)
        requires
            self.size_bound.0.valid(),
            available_space.valid(),
            interface_settings.valid(),
            self.elements.0.wf(),
            tree_bounds_valid(self.elements.0.nodes@),
            self.elements.0.nodes@.len() + 3 <= usize::MAX,
        ensures
            r.wf(),
            r.window_class == self.class,
            r.closable == self.closable,
            r.background_color == self.background_color,
            r.theme_kind == self.theme_kind,
            r.size_bound == self.size_bound.0,
            r.popup_element is None,
            ({
                let cached = match self.class {
                    Option::Some(class) => window_cache.spec_get(class@),
                    Option::None => Option::None,
                };
                let scaling = interface_settings.scaling as int;
                &&& r.size.width as int == spec_built_width(
                    self.size_bound.0,
                    cached,
                    available_space,
                    scaling,
                )
                &&& r.size.height as int == spec_built_height(
                    self.size_bound.0,
                    cached,
                    available_space,
                    scaling,
                )
                &&& r.position.left as int == spec_built_left(
                    cached,
                    r.size.width as int,
                    available_space.width as int,
                )
                &&& r.position.top as int == spec_built_top(
                    cached,
                    r.size.height as int,
                    available_space.height as int,
                )
            }),
            ({
                let chrome: int = (if self.title is Some { 1int } else { 0int })
                    + (if self.closable { 1int } else { 0int });
                let user = self.elements.0.nodes@;
                let base = 1 + chrome;
                let s = r.elements.nodes@;
                &&& s.len() == base + user.len()
                &&& s[0].kind == ElementKind::Container
                &&& s[0].size_bound == spec_container_bound(self.size_bound.0)
                &&& s[0].parent is None
                &&& s[0].children@.len() == chrome + root_count_from(user, 0)
                &&& forall|q: int| 0 <= q < chrome
                    ==> #[trigger] s[0].children@[q] as int == q + 1
                &&& (self.title is Some ==> s[1].kind == ElementKind::DragButton
                    && s[1].label == self.title->0
                    && s[1].size_bound == spec_drag_bound(self.closable))
                &&& (self.closable ==> s[1 + (if self.title is Some { 1int } else { 0int })].kind
                    == ElementKind::CloseButton
                    && s[1 + (if self.title is Some { 1int } else { 0int })].size_bound
                        == spec_close_bound())
                &&& all_appended(s, user, base)
                &&& forall|k: int| chrome <= k < s[0].children@.len() ==> {
                    let c = #[trigger] s[0].children@[k] as int;
                    &&& base <= c
                    &&& c < s.len()
                    &&& !is_child(user, c - base)
                }
                &&& forall|q: int| 0 <= q < user.len() && !is_child(user, q)
                    ==> exists|k: int|
                        chrome <= k < s[0].children@.len()
                            && #[trigger] s[0].children@[k] as int == base + q
            }),
    {
        let ghost g_title = self.title;
        let ghost g_closable = self.closable;
        let ghost g_bound = self.size_bound.0;
        let ghost g_user = self.elements.0.nodes@;
        let WindowBuilder {
            title,
            closable,
            class,
            size_bound,
            elements,
            background_color,
            theme_kind,
            marker: _,
        } = self;
        let size_bound = size_bound.0;
        let user_elements = elements.0;

        let container_bound = SizeBound {
            width: DimensionConstraint::Relative(100),
            minimum_width: match size_bound.minimum_width {
                Option::Some(_) => Option::Some(DimensionConstraint::Super),
                Option::None => Option::None,
            },
            maximum_width: match size_bound.maximum_width {
                Option::Some(_) => Option::Some(DimensionConstraint::Super),
                Option::None => Option::None,
            },
            height: DimensionConstraint::Flexible,
            minimum_height: match size_bound.minimum_height {
                Option::Some(_) => Option::Some(DimensionConstraint::Super),
                Option::None => Option::None,
            },
            maximum_height: match size_bound.maximum_height {
                Option::Some(_) => Option::Some(DimensionConstraint::Super),
                Option::None => Option::None,
            },
        };

        let mut tree = ElementTree::new();
        let root = tree.add_element(
            Element::new(
                ElementKind::Container,
                String::new(),
                false,
                false,
                container_bound,
                0,
                Option::None,
            ),
            Option::None,
        );

        match title {
            Option::Some(title_text) => {
                let drag_width = if closable {
                    DimensionConstraint::Relative(70)
                } else {
                    DimensionConstraint::Flexible
                };
                let drag_bound = SizeBound {
                    width: drag_width,
                    minimum_width: Option::None,
                    maximum_width: Option::None,
                    height: DimensionConstraint::Absolute(DRAG_HANDLE_HEIGHT),
                    minimum_height: Option::None,
                    maximum_height: Option::None,
                };
                tree.add_element(
                    Element::new(
                        ElementKind::DragButton,
                        title_text,
                        false,
                        true,
                        drag_bound,
                        0,
                        Option::None,
                    ),
                    Option::Some(root),
                );
            },
            Option::None => {},
        }

        if closable {
            let close_bound = SizeBound {
                width: DimensionConstraint::Absolute(CLOSE_BUTTON_SIZE),
                minimum_width: Option::None,
                maximum_width: Option::None,
                height: DimensionConstraint::Absolute(CLOSE_BUTTON_SIZE),
                minimum_height: Option::None,
                maximum_height: Option::None,
            };
            tree.add_element(
                Element::new(
                    ElementKind::CloseButton,
                    String::new(),
                    false,
                    true,
                    close_bound,
                    0,
                    Option::None,
                ),
                Option::Some(root),
            );
        }

        let ghost chrome_len = tree.nodes@.len() - 1;
        tree.append_tree(&user_elements, root);
        proof {
            let s = tree.nodes@;
            assert forall|t: int| 0 <= t < s.len() implies (#[trigger] s[t]).bounds_valid() by {
                if t > 1 + chrome_len - 1 {
                    let q = t - (1 + chrome_len);
                    assert(appended_matches(s, g_user, 1 + chrome_len, q));
                    assert(g_user[q].bounds_valid());
                }
            }
        }

        let ghost pre_link = tree.nodes@;
        tree.link_back();
        proof {
            let s = tree.nodes@;
            assert forall|t: int| 0 <= t < pre_link.len() implies #[trigger] s[t].kind
                == pre_link[t].kind && s[t].label == pre_link[t].label && s[t].focusable
                == pre_link[t].focusable && s[t].interactive == pre_link[t].interactive
                && s[t].size_bound == pre_link[t].size_bound && s[t].padding
                == pre_link[t].padding && s[t].observed == pre_link[t].observed && s[t].children@
                == pre_link[t].children@ by {
                assert(s[t].same_but_links(pre_link[t]));
            }
            assert forall|t: int| 0 <= t < s.len() implies (#[trigger] s[t]).bounds_valid() by {
                assert(s[t].same_but_links(pre_link[t]));
            }
            assert(s[0].parent is None) by {
                if crate::element::is_child(s, 0) {
                    let (a, k): (int, int) = choose|a: int, k: int|
                        0 <= a < s.len() && 0 <= k < s[a].children@.len()
                            && #[trigger] s[a].children@[k] == 0;
                    assert(a < s[a].children@[k]);
                }
            }
        }

        let cached: Option<WindowState> = match &class {
            Option::Some(class_name) => window_cache.get_window_state(class_name),
            Option::None => Option::None,
        };

        let size = match cached {
            Option::Some(state) => size_bound.validated_window_size(
                state.size,
                available_space,
                interface_settings.scaling,
            ),
            Option::None => size_bound.resolve_window(available_space, interface_settings.scaling),
        };

        let position = match cached {
            Option::Some(state) => {
                proof {
                    assert(size.width <= available_space.width);
                    assert(size.height <= available_space.height);
                }
                size_bound.validated_position(state.position, size, available_space)
            },
            Option::None => ScreenPosition {
                left: if size.width >= available_space.width {
                    0
                } else {
                    (available_space.width - size.width) / 2
                },
                top: if size.height >= available_space.height {
                    0
                } else {
                    (available_space.height - size.height) / 2
                },
            },
        };

        let ghost built = tree.nodes@;
        proof {
            assert(tree_bounds_valid(built)) by {
                assert forall|t: int| 0 <= t < built.len() implies (#[trigger] built[t]).bounds_valid() by {
                    if t >= 1 {
                        assert(built[t].bounds_valid());
                    }
                }
            }
        }
        tree.resolve(
            position.left,
            position.top,
            size.width,
            size.height,
            interface_settings.scaling,
        );
        proof {
            let s = tree.nodes@;
            assert forall|t: int| 0 <= t < built.len() implies #[trigger] s[t].kind == built[t].kind
                && s[t].label == built[t].label && s[t].focusable == built[t].focusable
                && s[t].interactive == built[t].interactive && s[t].size_bound
                == built[t].size_bound && s[t].padding == built[t].padding && s[t].observed
                == built[t].observed && s[t].children@ == built[t].children@ && s[t].parent
                == built[t].parent by {
                assert(s[t].same_but_geometry(built[t]));
            }
            assert(tree_bounds_valid(s)) by {
                assert forall|t: int| 0 <= t < s.len() implies (#[trigger] s[t]).bounds_valid() by {
                    assert(s[t].same_but_geometry(built[t]));
                }
            }
            assert(s[0].children@ == pre_link[0].children@);
            assert forall|q: int| 0 <= q < chrome_len
                implies #[trigger] s[0].children@[q] as int == q + 1 by {}
            assert forall|m: int| 0 <= m < g_user.len() implies #[trigger] appended_matches(
                s,
                g_user,
                1 + chrome_len,
                m,
            ) by {
                assert(appended_matches(pre_link, g_user, 1 + chrome_len, m));
                let i = 1 + chrome_len + m;
                assert(s[i].children@ == pre_link[i].children@);
                assert forall|k: int| 0 <= k < g_user[m].children@.len()
                    implies #[trigger] s[i].children@[k] as int
                        == 1 + chrome_len + g_user[m].children@[k] by {
                    assert(pre_link[i].children@[k] as int
                        == 1 + chrome_len + g_user[m].children@[k]);
                }
            }
            assert(all_appended(s, g_user, 1 + chrome_len));
            assert forall|k: int| chrome_len <= k < s[0].children@.len() implies {
                let c = #[trigger] s[0].children@[k] as int;
                &&& 1 + chrome_len <= c
                &&& c < s.len()
                &&& !is_child(g_user, c - (1 + chrome_len))
            } by {
                assert(pre_link[0].children@[k] == s[0].children@[k]);
            }
            assert forall|q: int| 0 <= q < g_user.len() && !is_child(g_user, q)
                implies exists|k: int|
                    chrome_len <= k < s[0].children@.len()
                        && #[trigger] s[0].children@[k] as int == 1 + chrome_len + q by {
                let k = choose|k: int|
                    chrome_len <= k < pre_link[0].children@.len()
                        && #[trigger] pre_link[0].children@[k] as int == 1 + chrome_len + q;
                assert(s[0].children@[k] as int == 1 + chrome_len + q);
            }
        }

        Window {
            window_class: class,
            position,
            size_bound,
            size,
            elements: tree,
            popup_element: Option::None,
            closable,
            background_color,
            theme_kind,
        }
    }
}

/// Round trip through the window cache: storing a position and size for a
/// class and then building a window of the same class under the same
/// available space yields the stored size re-validated against that space
/// and the stored position pushed back on screen; when the space shrank
/// below the stored size, the size is clamped down to it.
pub proof fn lemma_cache_round_trip(
    cache: WindowCache,
    class: Seq<char>,
    stored: WindowState,
    bound: SizeBound,
    available: ScreenSize,
    scaling: int,
)
    requires
        cache.spec_get(class) == Option::Some(stored),
    ensures
        spec_built_width(bound, cache.spec_get(class), available, scaling)
            == bound.spec_validated_width(
            stored.size.width as int,
            available.width as int,
            scaling,
        ),
        spec_built_height(bound, cache.spec_get(class), available, scaling)
            == bound.spec_validated_height(
            stored.size.height as int,
            available.height as int,
            scaling,
        ),
        forall|width: int| spec_built_left(cache.spec_get(class), width, available.width as int)
            == SizeBound::spec_validated_left(
            width,
            available.width as int,
            stored.position.left as int,
        ),
        forall|height: int| spec_built_top(cache.spec_get(class), height, available.height as int)
            == SizeBound::spec_validated_left(
            height,
            available.height as int,
            stored.position.top as int,
        ),
{
}

} // verus!
