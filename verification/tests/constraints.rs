use ui_layout::constraint::DimensionConstraint;
use ui_layout::constraint::SizeBound;
use ui_layout::constraint::resolve;
use ui_layout::units::ScreenPosition;
use ui_layout::units::ScreenSize;

fn bounded(
    width: DimensionConstraint,
    minimum: Option<DimensionConstraint>,
    maximum: Option<DimensionConstraint>,
) -> SizeBound {
    SizeBound {
        width,
        minimum_width: minimum,
        maximum_width: maximum,
        height: width,
        minimum_height: minimum,
        maximum_height: maximum,
    }
}

#[test]
fn absolute_scales_with_the_scaling_factor() {
    // 50 px at 150 % scaling is 75 px.
    let resolved = resolve(DimensionConstraint::Absolute(50), 800, 600, 400, 150);
    assert_eq!(resolved, 75);
    // At 100 % scaling the pixel value passes through unchanged.
    assert_eq!(resolve(DimensionConstraint::Absolute(50), 800, 600, 400, 100), 50);
}

#[test]
fn absolute_is_independent_of_available_space() {
    let small = resolve(DimensionConstraint::Absolute(120), 10, 10, 10, 100);
    let large = resolve(DimensionConstraint::Absolute(120), 4000, 3000, 2000, 100);
    assert_eq!(small, large);
    assert_eq!(small, 120);
}

#[test]
fn relative_is_a_percentage_of_the_parent_value() {
    // Boundary percentages: 0, 100 and an out-of-range 150, which is not
    // clamped.
    assert_eq!(resolve(DimensionConstraint::Relative(0), 800, 640, 400, 100), 0);
    assert_eq!(resolve(DimensionConstraint::Relative(100), 800, 640, 400, 100), 640);
    assert_eq!(resolve(DimensionConstraint::Relative(150), 800, 640, 400, 100), 960);
    // Half of an odd parent value rounds down.
    assert_eq!(resolve(DimensionConstraint::Relative(50), 800, 33, 400, 100), 16);
}

#[test]
fn relative_to_available_uses_the_available_space() {
    assert_eq!(resolve(DimensionConstraint::RelativeToAvailable(25), 800, 640, 400, 100), 200);
}

#[test]
fn flexible_takes_the_remaining_space() {
    assert_eq!(resolve(DimensionConstraint::Flexible, 800, 640, 400, 100), 400);
}

#[test]
fn super_copies_the_parent_value() {
    assert_eq!(resolve(DimensionConstraint::Super, 800, 640, 400, 100), 640);
}

#[test]
fn size_stays_within_minimum_and_maximum() {
    let available = ScreenSize { width: 800, height: 600 };
    let minimum = Some(DimensionConstraint::Absolute(200));
    let maximum = Some(DimensionConstraint::Absolute(300));

    // A raw result far above the maximum is clamped down to it.
    let oversized = bounded(DimensionConstraint::Absolute(1000), minimum, maximum);
    let size = oversized.resolve_window(available, 100);
    assert_eq!(size, ScreenSize { width: 300, height: 300 });

    // A raw result below the minimum is raised to it.
    let undersized = bounded(DimensionConstraint::Absolute(10), minimum, maximum);
    let size = undersized.resolve_window(available, 100);
    assert_eq!(size, ScreenSize { width: 200, height: 200 });

    // A cached size is clamped the same way.
    let cached = ScreenSize { width: 9999, height: 1 };
    let validated = oversized.validated_window_size(cached, available, 100);
    assert_eq!(validated, ScreenSize { width: 300, height: 200 });
}

#[test]
fn validated_position_pushes_the_window_back_on_screen() {
    let bound = bounded(DimensionConstraint::Absolute(100), None, None);
    let size = ScreenSize { width: 100, height: 100 };
    let available = ScreenSize { width: 400, height: 300 };
    let kept = bound.validated_position(ScreenPosition { left: 50, top: 60 }, size, available);
    assert_eq!(kept, ScreenPosition { left: 50, top: 60 });
    let pushed = bound.validated_position(ScreenPosition { left: 390, top: 295 }, size, available);
    assert_eq!(pushed, ScreenPosition { left: 300, top: 200 });
}

#[test]
fn fully_flexible_window_takes_the_available_space() {
    let bound = bounded(DimensionConstraint::Flexible, None, None);
    let size = bound.resolve_window(ScreenSize { width: 640, height: 480 }, 100);
    assert_eq!(size, ScreenSize { width: 640, height: 480 });
}
