//! A window: a root element-tree container with a class identifier,
//! cached or default geometry, chrome flags and background styling.

use vstd::prelude::*;

use crate::cache::WindowCache;
use crate::cache::WindowState;
use crate::constraint::SizeBound;
use crate::element::ChangeEvent;
use crate::element::ElementTree;
use crate::element::HoverInformation;
use crate::element::geometry_resolved;
use crate::element::spec_hover;
use crate::element::tree_bounds_valid;
use crate::element::tree_geometry_valid;
use crate::units::ColorSelector;
use crate::units::MAX_LENGTH;
use crate::units::ScreenClip;
use crate::units::ScreenPosition;
use crate::units::ScreenSize;
use crate::units::ThemeKind;

verus! {

/// A root container for an element tree, with optional chrome.
pub struct Window {
    /// The stable identifier under which geometry is cached; a window
    /// without a class never consults or updates the cache.
    pub window_class: Option<String>,
    pub position: ScreenPosition,
    pub size_bound: SizeBound,
    pub size: ScreenSize,
    /// The element tree; its single root is the wrapping container.
    pub elements: ElementTree,
    /// An optional floating element tree shown above the elements.
    pub popup_element: Option<ElementTree>,
    pub closable: bool,
    pub background_color: Option<ColorSelector>,
    pub theme_kind: ThemeKind,
}

impl Window {
    /// The window's structural invariant: valid bounds, a well-formed and
    /// wired element tree, and in-range geometry.
    pub open spec fn wf(self) -> bool {
        &&& self.size_bound.valid()
        &&& self.elements.wf()
        &&& self.elements.linked()
        &&& tree_bounds_valid(self.elements.nodes@)
        &&& self.size.valid()
        &&& self.position.valid()
    }

    /// The window's own clip rectangle: its resolved screen rectangle.
    pub open spec fn spec_clip(self) -> ScreenClip {
        ScreenClip {
            left: self.position.left,
            top: self.position.top,
            right: (self.position.left + self.size.width) as u64,
            bottom: (self.position.top + self.size.height) as u64,
        }
    }

    /// Re-resolves the window against the current available space: the
    /// size is re-validated against the bound and the available space, the
    /// position is pushed back on screen, and the element tree is laid out
    /// within the window rectangle.
    pub fn resolve(&mut self, available_space: ScreenSize, scaling: u64)
        requires
            old(self).wf(),
            available_space.valid(),
            scaling <= MAX_LENGTH,
        ensures
            final(self).wf(),
            final(self).size.width == old(self).size_bound.spec_validated_width(
                old(self).size.width as int,
                available_space.width as int,
                scaling as int,
            ),
            final(self).size.height == old(self).size_bound.spec_validated_height(
                old(self).size.height as int,
                available_space.height as int,
                scaling as int,
            ),
            final(self).position.left == SizeBound::spec_validated_left(
                final(self).size.width as int,
                available_space.width as int,
                old(self).position.left as int,
            ),
            final(self).position.top == SizeBound::spec_validated_left(
                final(self).size.height as int,
                available_space.height as int,
                old(self).position.top as int,
            ),
            final(self).window_class == old(self).window_class,
            final(self).size_bound == old(self).size_bound,
            final(self).closable == old(self).closable,
            final(self).background_color == old(self).background_color,
            final(self).theme_kind == old(self).theme_kind,
            final(self).elements.nodes@.len() == old(self).elements.nodes@.len(),
            tree_geometry_valid(final(self).elements.nodes@),
            geometry_resolved(
                final(self).elements.nodes@,
                final(self).position.left as int,
                final(self).position.top as int,
                final(self).size.width as int,
                final(self).size.height as int,
                scaling as int,
                final(self).elements.nodes@.len() as int,
            ),
    {
        let size = self.size_bound.validated_window_size(self.size, available_space, scaling);
        proof {
            assert(size.width <= available_space.width);
            assert(size.height <= available_space.height);
        }
        let position = self.size_bound.validated_position(self.position, size, available_space);
        self.size = size;
        self.position = position;
        self.elements.resolve(position.left, position.top, size.width, size.height, scaling);
    }

    /// Hover-tests the element tree against a mouse position, topmost
    /// element first, clipped to the window rectangle. An empty tree
    /// always misses. Per-widget gating on the mouse input mode is client
    /// policy; see [`ElementTree::hovered_element_at`].
    pub fn hovered_element(&self, x: u64, y: u64) -> (r: HoverInformation)
        requires
            self.wf(),
            tree_geometry_valid(self.elements.nodes@),
        ensures
            self.elements.nodes@.len() == 0 ==> r == HoverInformation::Missed,
            self.elements.nodes@.len() > 0 ==> match r {
                HoverInformation::Element(e) => spec_hover(
                    self.elements.nodes@,
                    0,
                    x,
                    y,
                    self.spec_clip(),
                ) == Option::Some(e as int),
                HoverInformation::Missed => spec_hover(
                    self.elements.nodes@,
                    0,
                    x,
                    y,
                    self.spec_clip(),
                ) is None,
            },
    {
        if self.elements.nodes.len() == 0 {
            return HoverInformation::Missed;
        }
        let clip = ScreenClip {
            left: self.position.left,
            top: self.position.top,
            right: self.position.left + self.size.width,
            bottom: self.position.top + self.size.height,
        };
        self.elements.hovered_element_at(0, x, y, clip)
    }

    /// Delegates focus navigation to the element tree; see
    /// [`ElementTree::focus_next`].
    pub fn focus_next(&self, caller: Option<usize>) -> (r: Option<usize>)
        requires
            caller is Some ==> (caller->0 as int) < self.elements.nodes@.len(),
        ensures
            match r {
                Option::Some(j) => crate::focus::spec_focus_next(
                    self.elements.nodes@,
                    match caller {
                        Option::Some(c) => Option::Some(c as int),
                        Option::None => Option::None,
                    },
                ) == Option::Some(j as int),
                Option::None => crate::focus::spec_focus_next(
                    self.elements.nodes@,
                    match caller {
                        Option::Some(c) => Option::Some(c as int),
                        Option::None => Option::None,
                    },
                ) is None,
            },
    {
        self.elements.focus_next(caller)
    }

    /// The first focusable element, used when the window regains focus.
    pub fn restore_focus(&self) -> (r: Option<usize>)
        ensures
            match r {
                Option::Some(j) => crate::focus::first_focusable_from(self.elements.nodes@, 0)
                    == Option::Some(j as int),
                Option::None => crate::focus::first_focusable_from(self.elements.nodes@, 0)
                    is None,
            },
    {
        self.elements.restore_focus()
    }

    /// Per-frame change-detection polling of one element; see
    /// [`ElementTree::update`]. A `ResolveWindow` signal tells the caller
    /// to re-resolve this window before the next render.
    pub fn update(&mut self, index: usize, observed_value: u64) -> (r: Option<ChangeEvent>)
        requires
            index < old(self).elements.nodes@.len(),
        ensures
            final(self).elements.nodes@.len() == old(self).elements.nodes@.len(),
            r == Option::Some(ChangeEvent::ResolveWindow) <==> (
                old(self).elements.nodes@[index as int].observed is Some
                && old(self).elements.nodes@[index as int].observed->0 != observed_value
            ),
            final(self).elements.nodes@[index as int].observed == (match old(
                self,
            ).elements.nodes@[index as int].observed {
                Option::Some(_) => Option::Some(observed_value),
                Option::None => Option::None,
            }),
            final(self).window_class == old(self).window_class,
            final(self).position == old(self).position,
            final(self).size == old(self).size,
    {
        self.elements.update(index, observed_value)
    }

    /// Writes the window's geometry into the cache under its class, to be
    /// recalled when a window of the same class is built again. A window
    /// without a class leaves the cache untouched.
    pub fn store_state(&self, window_cache: &mut WindowCache)
        ensures
            match self.window_class {
                Option::Some(class) => final(window_cache).spec_get(class@)
                    == Option::Some(WindowState { position: self.position, size: self.size })
                    && forall|other: Seq<char>| other != class@
                        ==> final(window_cache).spec_get(other)
                            == old(window_cache).spec_get(other),
                Option::None => *final(window_cache) == *old(window_cache),
            },
    {
        match &self.window_class {
            Option::Some(class) => {
                window_cache.update_window_state(class, self.position, self.size);
            },
            Option::None => {},
        }
    }
}

/// Resolving the same window twice with unchanged available space and
/// scaling yields identical position and size: one pass of re-validation
/// reaches a fixed point.
pub proof fn lemma_window_resolution_idempotent(
    bound: SizeBound,
    size: ScreenSize,
    position: ScreenPosition,
    available: ScreenSize,
    scaling: int,
)
    ensures
        ({
            let w1 = bound.spec_validated_width(size.width as int, available.width as int, scaling);
            let h1 = bound.spec_validated_height(
                size.height as int,
                available.height as int,
                scaling,
            );
            let l1 = SizeBound::spec_validated_left(
                w1,
                available.width as int,
                position.left as int,
            );
            let t1 = SizeBound::spec_validated_left(
                h1,
                available.height as int,
                position.top as int,
            );
            &&& bound.spec_validated_width(w1, available.width as int, scaling) == w1
            &&& bound.spec_validated_height(h1, available.height as int, scaling) == h1
            &&& SizeBound::spec_validated_left(w1, available.width as int, l1) == l1
            &&& SizeBound::spec_validated_left(h1, available.height as int, t1) == t1
        }),
{
}

} // verus!
