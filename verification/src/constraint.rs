//! Declarative size constraints and their resolution into concrete pixel
//! lengths.
//!
//! A [`DimensionConstraint`] describes how one axis of an element's size is
//! computed from its context: the available space, the parent's resolved
//! value, the space remaining for flexible siblings, and the interface
//! scaling factor. A [`SizeBound`] pairs a constraint per axis with optional
//! minimum and maximum constraints; minima and maxima always override the
//! axis's own result and are applied after primary resolution, never before.
//! Resolution clamps out-of-range results; it never fails.

use vstd::prelude::*;

use crate::units::MAX_LENGTH;
use crate::units::ScreenPosition;
use crate::units::ScreenSize;

verus! {

/// How one axis of a size resolves. Percentages and scaling factors are in
/// hundredths, so `Relative(50)` is half of the parent's resolved value.
#[derive(Clone, Copy, PartialEq, Eq, Structural, Debug)]
pub enum DimensionConstraint {
    /// A fixed pixel length, multiplied by the scaling factor.
    Absolute(u64),
    /// A percentage of the parent's resolved value.
    Relative(u64),
    /// A percentage of the available space.
    RelativeToAvailable(u64),
    /// Consumes the space left over by the preceding siblings, floored at
    /// zero.
    Flexible,
    /// Copies the parent's own resolved value for this axis.
    Super,
}

impl DimensionConstraint {
    /// Whether the stored value is in range, so that resolution cannot
    /// overflow.
    pub open spec fn valid(self) -> bool {
        match self {
            DimensionConstraint::Absolute(px) => px <= MAX_LENGTH,
            DimensionConstraint::Relative(percent) => percent <= MAX_LENGTH,
            DimensionConstraint::RelativeToAvailable(percent) => percent <= MAX_LENGTH,
            DimensionConstraint::Flexible => true,
            DimensionConstraint::Super => true,
        }
    }
}

/// The resolved length of a constraint, as a mathematical integer.
pub open spec fn spec_resolve(
    constraint: DimensionConstraint,
    available: int,
    parent: int,
    remaining: int,
    scaling: int,
) -> int {
    match constraint {
        DimensionConstraint::Absolute(px) => px * scaling / 100,
        DimensionConstraint::Relative(percent) => percent * parent / 100,
        DimensionConstraint::RelativeToAvailable(percent) => percent * available / 100,
        DimensionConstraint::Flexible => remaining,
        DimensionConstraint::Super => parent,
    }
}

/// Bounds the product of two in-range values.
proof fn lemma_mul_in_range(a: u64, b: u64)
    requires
        a <= MAX_LENGTH,
        b <= MAX_LENGTH,
    ensures
        a * b <= MAX_LENGTH * MAX_LENGTH,
{
    assert(a * b <= MAX_LENGTH * MAX_LENGTH) by (nonlinear_arith)
        requires
            a <= MAX_LENGTH,
            b <= MAX_LENGTH,
    ;
}

/// Resolves a single constraint against its context. See [`spec_resolve`]
/// for the exact result.
pub fn resolve(
    constraint: DimensionConstraint,
    available: u64,
    parent: u64,
    remaining: u64,
    scaling: u64,
) -> (r: u64)
    requires
        constraint.valid(),
        available <= MAX_LENGTH,
        parent <= MAX_LENGTH,
        remaining <= MAX_LENGTH,
        scaling <= MAX_LENGTH,
    ensures
        r == spec_resolve(constraint, available as int, parent as int, remaining as int, scaling as int),
{
    match constraint {
        DimensionConstraint::Absolute(px) => {
            proof {
                lemma_mul_in_range(px, scaling);
            }
            px * scaling / 100
        },
        DimensionConstraint::Relative(percent) => {
            proof {
                lemma_mul_in_range(percent, parent);
            }
            percent * parent / 100
        },
        DimensionConstraint::RelativeToAvailable(percent) => {
            proof {
                lemma_mul_in_range(percent, available);
            }
            percent * available / 100
        },
        DimensionConstraint::Flexible => remaining,
        DimensionConstraint::Super => parent,
    }
}

/// Clamps a value against an optional maximum, then an optional minimum.
/// The minimum wins if the two conflict.
pub open spec fn spec_clamp(value: int, minimum: Option<int>, maximum: Option<int>) -> int {
    let capped = match maximum {
        Option::Some(m) => if value > m { m } else { value },
        Option::None => value,
    };
    match minimum {
        Option::Some(m) => if capped < m { m } else { capped },
        Option::None => capped,
    }
}

/// The resolved value of an optional constraint, as an optional integer.
pub open spec fn spec_resolve_opt(
    constraint: Option<DimensionConstraint>,
    available: int,
    parent: int,
    remaining: int,
    scaling: int,
) -> Option<int> {
    match constraint {
        Option::Some(c) => Option::Some(spec_resolve(c, available, parent, remaining, scaling)),
        Option::None => Option::None,
    }
}

/// Primary resolution of one axis followed by the minimum/maximum clamp.
pub open spec fn spec_resolve_axis(
    constraint: DimensionConstraint,
    minimum: Option<DimensionConstraint>,
    maximum: Option<DimensionConstraint>,
    available: int,
    parent: int,
    remaining: int,
    scaling: int,
) -> int {
    spec_clamp(
        spec_resolve(constraint, available, parent, remaining, scaling),
        spec_resolve_opt(minimum, available, parent, remaining, scaling),
        spec_resolve_opt(maximum, available, parent, remaining, scaling),
    )
}

/// Resolves one axis of a bound: primary constraint first, then the
/// minimum/maximum clamp.
pub fn resolve_axis(
    constraint: DimensionConstraint,
    minimum: Option<DimensionConstraint>,
    maximum: Option<DimensionConstraint>,
    available: u64,
    parent: u64,
    remaining: u64,
    scaling: u64,
) -> (r: u64)
    requires
        constraint.valid(),
        minimum is Some ==> minimum->0.valid(),
        maximum is Some ==> maximum->0.valid(),
        available <= MAX_LENGTH,
        parent <= MAX_LENGTH,
        remaining <= MAX_LENGTH,
        scaling <= MAX_LENGTH,
    ensures
        r == spec_resolve_axis(
            constraint,
            minimum,
            maximum,
            available as int,
            parent as int,
            remaining as int,
            scaling as int,
        ),
{
    let primary = resolve(constraint, available, parent, remaining, scaling);
    let capped = match maximum {
        Option::Some(c) => {
            let m = resolve(c, available, parent, remaining, scaling);
            if primary > m {
                m
            } else {
                primary
            }
        },
        Option::None => primary,
    };
    match minimum {
        Option::Some(c) => {
            let m = resolve(c, available, parent, remaining, scaling);
            if capped < m {
                m
            } else {
                capped
            }
        },
        Option::None => capped,
    }
}

/// A size description: a primary constraint per axis plus optional minimum
/// and maximum constraints per axis.
#[derive(Clone, Copy, PartialEq, Eq, Structural, Debug)]
pub struct SizeBound {
    pub width: DimensionConstraint,
    pub minimum_width: Option<DimensionConstraint>,
    pub maximum_width: Option<DimensionConstraint>,
    pub height: DimensionConstraint,
    pub minimum_height: Option<DimensionConstraint>,
    pub maximum_height: Option<DimensionConstraint>,
}

impl SizeBound {
    /// Whether every stored constraint is in range.
    pub open spec fn valid(self) -> bool {
        &&& self.width.valid()
        &&& self.height.valid()
        &&& (self.minimum_width is Some ==> self.minimum_width->0.valid())
        &&& (self.maximum_width is Some ==> self.maximum_width->0.valid())
        &&& (self.minimum_height is Some ==> self.minimum_height->0.valid())
        &&& (self.maximum_height is Some ==> self.maximum_height->0.valid())
    }

    /// The width of a freshly resolved window: the axis resolved against the
    /// available space alone (a window has no parent, so the available space
    /// stands in for the parent's value, and a `Flexible` axis takes the full
    /// available space). Fresh resolution is not clamped at the available
    /// space — an absolute or percentage result larger than the viewport
    /// stands as computed — only the machine bound [`MAX_LENGTH`] caps it.
    pub open spec fn spec_window_width(self, available: int, scaling: int) -> int {
        let raw = spec_resolve_axis(
            self.width,
            self.minimum_width,
            self.maximum_width,
            available,
            available,
            available,
            scaling,
        );
        if raw > MAX_LENGTH {
            MAX_LENGTH as int
        } else {
            raw
        }
    }

    /// The height of a freshly resolved window; see [`Self::spec_window_width`].
    pub open spec fn spec_window_height(self, available: int, scaling: int) -> int {
        let raw = spec_resolve_axis(
            self.height,
            self.minimum_height,
            self.maximum_height,
            available,
            available,
            available,
            scaling,
        );
        if raw > MAX_LENGTH {
            MAX_LENGTH as int
        } else {
            raw
        }
    }

    /// A cached width re-validated against the current context: clamped by
    /// the resolved minimum/maximum, then capped at the available space. The
    /// cap comes last, so a minimum that no longer fits on screen loses to
    /// the available space.
    pub open spec fn spec_validated_width(self, cached: int, available: int, scaling: int) -> int {
        let clamped = spec_clamp(
            cached,
            spec_resolve_opt(self.minimum_width, available, available, available, scaling),
            spec_resolve_opt(self.maximum_width, available, available, available, scaling),
        );
        if clamped > available {
            available
        } else {
            clamped
        }
    }

    /// A cached height re-validated; see [`Self::spec_validated_width`].
    pub open spec fn spec_validated_height(self, cached: int, available: int, scaling: int) -> int {
        let clamped = spec_clamp(
            cached,
            spec_resolve_opt(self.minimum_height, available, available, available, scaling),
            spec_resolve_opt(self.maximum_height, available, available, available, scaling),
        );
        if clamped > available {
            available
        } else {
            clamped
        }
    }

    /// Computes a fresh window size with no cache. Even a fully `Flexible`
    /// bound resolves to a definite size: a flexible axis with no siblings
    /// takes the full available space.
    pub fn resolve_window(&self, available: ScreenSize, scaling: u64) -> (r: ScreenSize)
        requires
            self.valid(),
            available.valid(),
            scaling <= MAX_LENGTH,
        ensures
            r.width == self.spec_window_width(available.width as int, scaling as int),
            r.height == self.spec_window_height(available.height as int, scaling as int),
            r.valid(),
    {
        let raw_width = resolve_axis(
            self.width,
            self.minimum_width,
            self.maximum_width,
            available.width,
            available.width,
            available.width,
            scaling,
        );
        let raw_height = resolve_axis(
            self.height,
            self.minimum_height,
            self.maximum_height,
            available.height,
            available.height,
            available.height,
            scaling,
        );
        ScreenSize {
            width: if raw_width > MAX_LENGTH { MAX_LENGTH } else { raw_width },
            height: if raw_height > MAX_LENGTH { MAX_LENGTH } else { raw_height },
        }
    }

    /// Re-validates a previously cached window size against the current
    /// available space and bounds, for the case where the viewport changed
    /// since the size was cached.
    pub fn validated_window_size(
        &self,
        cached: ScreenSize,
        available: ScreenSize,
        scaling: u64,
    ) -> (r: ScreenSize)
        requires
            self.valid(),
            available.valid(),
            scaling <= MAX_LENGTH,
        ensures
            r.width == self.spec_validated_width(cached.width as int, available.width as int, scaling as int),
            r.height == self.spec_validated_height(cached.height as int, available.height as int, scaling as int),
            r.valid(),
    {
        let minimum_width = match self.minimum_width {
            Option::Some(c) => Option::Some(
                resolve(c, available.width, available.width, available.width, scaling),
            ),
            Option::None => Option::None,
        };
        let maximum_width = match self.maximum_width {
            Option::Some(c) => Option::Some(
                resolve(c, available.width, available.width, available.width, scaling),
            ),
            Option::None => Option::None,
        };
        let minimum_height = match self.minimum_height {
            Option::Some(c) => Option::Some(
                resolve(c, available.height, available.height, available.height, scaling),
            ),
            Option::None => Option::None,
        };
        let maximum_height = match self.maximum_height {
            Option::Some(c) => Option::Some(
                resolve(c, available.height, available.height, available.height, scaling),
            ),
            Option::None => Option::None,
        };
        let width = clamp_exec(cached.width, minimum_width, maximum_width);
        let height = clamp_exec(cached.height, minimum_height, maximum_height);
        ScreenSize {
            width: if width > available.width { available.width } else { width },
            height: if height > available.height { available.height } else { height },
        }
    }

    /// The position after pushing a window back on screen: each coordinate
    /// is capped so that the window lies fully inside the available space.
    pub open spec fn spec_validated_left(size: int, available: int, position: int) -> int {
        if position > available - size {
            available - size
        } else {
            position
        }
    }

    /// Re-validates a cached position so the window of the given size stays
    /// fully on screen.
    pub fn validated_position(
        &self,
        position: ScreenPosition,
        size: ScreenSize,
        available: ScreenSize,
    ) -> (r: ScreenPosition)
        requires
            size.width <= available.width,
            size.height <= available.height,
        ensures
            r.left == Self::spec_validated_left(size.width as int, available.width as int, position.left as int),
            r.top == Self::spec_validated_left(size.height as int, available.height as int, position.top as int),
    {
        let max_left = available.width - size.width;
        let max_top = available.height - size.height;
        ScreenPosition {
            left: if position.left > max_left { max_left } else { position.left },
            top: if position.top > max_top { max_top } else { position.top },
        }
    }
}

/// Clamps an executable value against optional resolved bounds.
fn clamp_exec(value: u64, minimum: Option<u64>, maximum: Option<u64>) -> (r: u64)
    ensures
        r == spec_clamp(
            value as int,
            match minimum {
                Option::Some(m) => Option::Some(m as int),
                Option::None => Option::None,
            },
            match maximum {
                Option::Some(m) => Option::Some(m as int),
                Option::None => Option::None,
            },
        ),
{
    let capped = match maximum {
        Option::Some(m) => if value > m { m } else { value },
        Option::None => value,
    };
    match minimum {
        Option::Some(m) => if capped < m { m } else { capped },
        Option::None => capped,
    }
}

/// An `Absolute(px)` constraint resolves to `px * scaling / 100`,
/// independent of the available space, the parent's value and the
/// remaining space.
pub proof fn lemma_absolute_resolution(
    px: u64,
    scaling: int,
    available1: int,
    parent1: int,
    remaining1: int,
    available2: int,
    parent2: int,
    remaining2: int,
)
    ensures
        spec_resolve(DimensionConstraint::Absolute(px), available1, parent1, remaining1, scaling)
            == px * scaling / 100,
        spec_resolve(DimensionConstraint::Absolute(px), available1, parent1, remaining1, scaling)
            == spec_resolve(DimensionConstraint::Absolute(px), available2, parent2, remaining2, scaling),
{
}

/// A `Relative(percent)` constraint resolves to
/// `percent * parent / 100`, independent of the available and remaining
/// space, for every percentage, also outside `[0, 100]`.
pub proof fn lemma_relative_resolution(
    percent: u64,
    parent: int,
    scaling: int,
    available1: int,
    remaining1: int,
    available2: int,
    remaining2: int,
)
    ensures
        spec_resolve(DimensionConstraint::Relative(percent), available1, parent, remaining1, scaling)
            == percent * parent / 100,
        spec_resolve(DimensionConstraint::Relative(percent), available1, parent, remaining1, scaling)
            == spec_resolve(DimensionConstraint::Relative(percent), available2, parent, remaining2, scaling),
{
}

/// At a freshly resolved window, an `Absolute` axis without minimum and
/// maximum keeps the scaled pixel value, independent of the available
/// space; only the machine bound caps it.
pub proof fn lemma_fresh_window_absolute(
    bound: SizeBound,
    px: u64,
    available1: int,
    available2: int,
    scaling: int,
)
    requires
        bound.width == DimensionConstraint::Absolute(px),
        bound.minimum_width is None,
        bound.maximum_width is None,
        px * scaling / 100 <= MAX_LENGTH,
    ensures
        bound.spec_window_width(available1, scaling) == px * scaling / 100,
        bound.spec_window_width(available1, scaling) == bound.spec_window_width(
            available2,
            scaling,
        ),
{
}

/// At a freshly resolved window, a `Relative` axis without minimum and
/// maximum yields the percentage of the available space, which stands in
/// for the parent of a root window — for every percentage, also outside
/// [0, 100]; only the machine bound caps it.
pub proof fn lemma_fresh_window_relative(
    bound: SizeBound,
    percent: u64,
    available: int,
    scaling: int,
)
    requires
        bound.width == DimensionConstraint::Relative(percent),
        bound.minimum_width is None,
        bound.maximum_width is None,
        percent * available / 100 <= MAX_LENGTH,
    ensures
        bound.spec_window_width(available, scaling) == percent * available / 100,
{
}

/// With a positive resolved minimum and a resolved maximum below the
/// available space (and the bound's invariant `minimum <= maximum`), the
/// resolved window size lies within `[minimum, maximum]` on both axes,
/// regardless of the raw constraint result and of any cached size.
pub proof fn lemma_size_within_bounds(
    bound: SizeBound,
    cached: ScreenSize,
    available: ScreenSize,
    scaling: int,
)
    requires
        available.valid(),
        bound.minimum_width is Some,
        bound.maximum_width is Some,
        bound.minimum_height is Some,
        bound.maximum_height is Some,
        ({
            let min_w = spec_resolve(bound.minimum_width->0, available.width as int, available.width as int, available.width as int, scaling);
            let max_w = spec_resolve(bound.maximum_width->0, available.width as int, available.width as int, available.width as int, scaling);
            let min_h = spec_resolve(bound.minimum_height->0, available.height as int, available.height as int, available.height as int, scaling);
            let max_h = spec_resolve(bound.maximum_height->0, available.height as int, available.height as int, available.height as int, scaling);
            &&& 0 < min_w <= max_w < available.width
            &&& 0 < min_h <= max_h < available.height
        }),
    ensures
        ({
            let min_w = spec_resolve(bound.minimum_width->0, available.width as int, available.width as int, available.width as int, scaling);
            let max_w = spec_resolve(bound.maximum_width->0, available.width as int, available.width as int, available.width as int, scaling);
            let min_h = spec_resolve(bound.minimum_height->0, available.height as int, available.height as int, available.height as int, scaling);
            let max_h = spec_resolve(bound.maximum_height->0, available.height as int, available.height as int, available.height as int, scaling);
            &&& min_w <= bound.spec_window_width(available.width as int, scaling) <= max_w
            &&& min_h <= bound.spec_window_height(available.height as int, scaling) <= max_h
            &&& min_w <= bound.spec_validated_width(cached.width as int, available.width as int, scaling) <= max_w
            &&& min_h <= bound.spec_validated_height(cached.height as int, available.height as int, scaling) <= max_h
        }),
{
}

/// Re-validating an already validated window size and position changes
/// nothing: window resolution is idempotent under an unchanged available
/// space and scaling factor.
pub proof fn lemma_validation_idempotent(
    bound: SizeBound,
    cached: ScreenSize,
    position: ScreenPosition,
    available: ScreenSize,
    scaling: int,
)
    ensures
        ({
            let w = bound.spec_validated_width(cached.width as int, available.width as int, scaling);
            let h = bound.spec_validated_height(cached.height as int, available.height as int, scaling);
            &&& bound.spec_validated_width(w, available.width as int, scaling) == w
            &&& bound.spec_validated_height(h, available.height as int, scaling) == h
        }),
        ({
            let l = SizeBound::spec_validated_left(cached.width as int, available.width as int, position.left as int);
            let t = SizeBound::spec_validated_left(cached.height as int, available.height as int, position.top as int);
            &&& SizeBound::spec_validated_left(cached.width as int, available.width as int, l) == l
            &&& SizeBound::spec_validated_left(cached.height as int, available.height as int, t) == t
        }),
{
}

} // verus!
