//! Basic screen units: positions, sizes, clip rectangles, colors and
//! interface-wide settings.
//!
//! All lengths are whole pixels. Scaling factors and percentages are kept
//! in hundredths: a scaling of `100` means "no scaling", a percentage of
//! `50` means "half". Every stored length is bounded by [`MAX_LENGTH`], so
//! that products of two lengths (or of a length and a percentage) never
//! overflow a `u64`.

use vstd::prelude::*;

verus! {

/// Largest representable length or percentage. The bound guarantees that
/// the product of any two in-range values fits in a `u64`.
pub const MAX_LENGTH: u64 = 0xFFFF_FFFF;

/// A position on screen, in pixels, relative to the top-left corner.
#[derive(Clone, Copy, PartialEq, Eq, Structural, Debug)]
pub struct ScreenPosition {
    pub left: u64,
    pub top: u64,
}

/// A size on screen, in pixels.
#[derive(Clone, Copy, PartialEq, Eq, Structural, Debug)]
pub struct ScreenSize {
    pub width: u64,
    pub height: u64,
}

/// An axis-aligned clip rectangle, given by its edges in screen pixels.
/// A point is inside when `left <= x < right` and `top <= y < bottom`.
#[derive(Clone, Copy, PartialEq, Eq, Structural, Debug)]
pub struct ScreenClip {
    pub left: u64,
    pub top: u64,
    pub right: u64,
    pub bottom: u64,
}

impl ScreenPosition {
    /// Whether both coordinates are in range.
    pub open spec fn valid(self) -> bool {
        self.left <= MAX_LENGTH && self.top <= MAX_LENGTH
    }
}

impl ScreenSize {
    /// Whether both lengths are in range.
    pub open spec fn valid(self) -> bool {
        self.width <= MAX_LENGTH && self.height <= MAX_LENGTH
    }

    pub fn uniform(length: u64) -> (r: ScreenSize)
        ensures
            r.width == length,
            r.height == length,
    {
        ScreenSize { width: length, height: length }
    }
}

impl ScreenClip {
    /// Whether a point lies inside the clip rectangle.
    pub open spec fn spec_contains(self, x: u64, y: u64) -> bool {
        self.left <= x < self.right && self.top <= y < self.bottom
    }

    pub fn contains(self, x: u64, y: u64) -> (r: bool)
        ensures
            r == self.spec_contains(x, y),
    {
        self.left <= x && x < self.right && self.top <= y && y < self.bottom
    }

    /// The intersection of two clip rectangles.
    pub open spec fn spec_intersect(self, other: ScreenClip) -> ScreenClip {
        ScreenClip {
            left: if self.left >= other.left { self.left } else { other.left },
            top: if self.top >= other.top { self.top } else { other.top },
            right: if self.right <= other.right { self.right } else { other.right },
            bottom: if self.bottom <= other.bottom { self.bottom } else { other.bottom },
        }
    }

    pub fn intersect(self, other: ScreenClip) -> (r: ScreenClip)
        ensures
            r == self.spec_intersect(other),
    {
        ScreenClip {
            left: if self.left >= other.left { self.left } else { other.left },
            top: if self.top >= other.top { self.top } else { other.top },
            right: if self.right <= other.right { self.right } else { other.right },
            bottom: if self.bottom <= other.bottom { self.bottom } else { other.bottom },
        }
    }
}

/// A color with red, green, blue and alpha channels.
#[derive(Clone, Copy, PartialEq, Eq, Structural, Debug)]
pub struct Color {
    pub red: u8,
    pub green: u8,
    pub blue: u8,
    pub alpha: u8,
}

impl Color {
    pub fn rgb(red: u8, green: u8, blue: u8) -> (r: Color)
        ensures
            r == (Color { red, green, blue, alpha: 255u8 }),
    {
        Color { red, green, blue, alpha: 255 }
    }

    pub fn monochrome_u8(brightness: u8) -> (r: Color)
        ensures
            r == (Color { red: brightness, green: brightness, blue: brightness, alpha: 255u8 }),
    {
        Color { red: brightness, green: brightness, blue: brightness, alpha: 255 }
    }
}

/// Selects a background color for a window.
#[derive(Clone, Copy, PartialEq, Eq, Structural, Debug)]
pub struct ColorSelector {
    pub color: Color,
}

/// Which theme a window is rendered with.
#[derive(Clone, Copy, PartialEq, Eq, Structural, Debug)]
pub enum ThemeKind {
    Regular,
    Menu,
}

impl Default for ThemeKind {
    fn default() -> (r: Self)
        ensures
            r == ThemeKind::Regular,
    {
        ThemeKind::Regular
    }
}

/// Interface-wide settings consulted during layout.
#[derive(Clone, Copy, PartialEq, Eq, Structural, Debug)]
pub struct InterfaceSettings {
    /// DPI scaling in hundredths: `100` is unscaled, `150` is one and a half.
    pub scaling: u64,
}

impl InterfaceSettings {
    pub open spec fn valid(self) -> bool {
        self.scaling <= MAX_LENGTH
    }

    pub fn new(scaling: u64) -> (r: InterfaceSettings)
        ensures
            r.scaling == scaling,
    {
        InterfaceSettings { scaling }
    }
}

} // verus!
