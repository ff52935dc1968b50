use render_core::geometry::{PixelRect, Point, Rectangle, Size, Vector};
use render_core::units::{half, minus, plus, saturate, to_pixels, units, UNIT};
use render_core::viewport::Viewport;

fn rect(x: i32, y: i32, width: i32, height: i32) -> Rectangle {
    Rectangle::new(Point::new(x, y), Size::new(width, height))
}

#[test]
fn one_unit_has_1024_steps() {
    assert_eq!(UNIT, 1024);
    assert_eq!(units(1), 1024);
    assert_eq!(units(-3), -3072);
    assert_eq!(units(0), 0);
}

#[test]
fn units_saturate_at_the_ends_of_the_range() {
    assert_eq!(units(i32::MAX), i32::MAX);
    assert_eq!(units(i32::MIN), i32::MIN);
    assert_eq!(units(2_097_152), i32::MAX);
    assert_eq!(units(2_097_151), 2_147_482_624);
}

#[test]
fn sums_and_differences_saturate() {
    assert_eq!(plus(1, 2), 3);
    assert_eq!(plus(i32::MAX, 1), i32::MAX);
    assert_eq!(plus(i32::MIN, -1), i32::MIN);
    assert_eq!(minus(5, 7), -2);
    assert_eq!(minus(i32::MIN, 1), i32::MIN);
    assert_eq!(minus(i32::MAX, -1), i32::MAX);
    assert_eq!(saturate(i64::MAX), i32::MAX);
    assert_eq!(saturate(i64::MIN), i32::MIN);
    assert_eq!(saturate(-17), -17);
}

#[test]
fn half_rounds_towards_zero() {
    assert_eq!(half(7), 3);
    assert_eq!(half(-7), -3);
    assert_eq!(half(8), 4);
    assert_eq!(half(0), 0);
    assert_eq!(half(i32::MIN), -1_073_741_824);
}

#[test]
fn pixels_drop_fractions_and_negative_scalars() {
    assert_eq!(to_pixels(units(10), UNIT as u32), 10);
    assert_eq!(to_pixels(units(10) + 1023, UNIT as u32), 10);
    assert_eq!(to_pixels(units(10), 2 * UNIT as u32), 20);
    assert_eq!(to_pixels(-5, UNIT as u32), 0);
    assert_eq!(to_pixels(0, UNIT as u32), 0);
    assert_eq!(to_pixels(1023, UNIT as u32), 0);
    assert_eq!(to_pixels(i32::MAX, u32::MAX), u32::MAX);
}

#[test]
fn intersection_is_the_shared_area() {
    let a = rect(0, 0, 120, 120);
    let b = rect(50, 50, 100, 100);
    assert_eq!(a.intersection(&b), Some(rect(50, 50, 70, 70)));
    assert_eq!(b.intersection(&a), Some(rect(50, 50, 70, 70)));
    assert_eq!(a.intersection(&a), Some(a));
}

#[test]
fn intersection_of_apart_or_touching_rectangles_is_none() {
    let a = rect(0, 0, 100, 100);
    assert_eq!(a.intersection(&rect(1000, 1000, 10, 10)), None);
    assert_eq!(a.intersection(&rect(100, 0, 10, 10)), None);
    assert_eq!(a.intersection(&rect(0, 100, 10, 10)), None);
    assert_eq!(a.intersection(&rect(10, 10, 0, 5)), None);
    assert_eq!(a.intersection(&rect(10, 10, -5, 5)), None);
}

#[test]
fn intersection_at_the_ends_of_the_range_is_exact() {
    let a = rect(i32::MAX - 10, i32::MAX - 10, i32::MAX, i32::MAX);
    let b = rect(i32::MAX - 5, i32::MAX - 20, 100, 100);
    assert_eq!(
        a.intersection(&b),
        Some(rect(i32::MAX - 5, i32::MAX - 10, 100, 90))
    );
}

#[test]
fn union_is_the_hull() {
    let a = rect(0, 0, 10, 10);
    let b = rect(20, -5, 10, 10);
    assert_eq!(a.union(&b), rect(0, -5, 30, 15));
    assert_eq!(b.union(&a), rect(0, -5, 30, 15));
    let far = rect(i32::MIN, 0, 1, 1).union(&rect(i32::MAX - 1, 0, 1, 1));
    assert_eq!(far, rect(i32::MIN, 0, i32::MAX, 1));
}

#[test]
fn expand_grows_each_side() {
    assert_eq!(rect(10, 10, 20, 20).expand(3), rect(7, 7, 26, 26));
    assert_eq!(
        rect(i32::MIN, 0, i32::MAX, 5).expand(1),
        rect(i32::MIN, -1, i32::MAX, 7)
    );
}

#[test]
fn translate_moves_the_corner_only() {
    assert_eq!(
        rect(1, 2, 3, 4).translate(Vector::new(10, -10)),
        rect(11, -8, 3, 4)
    );
    assert_eq!(
        rect(i32::MAX, 0, 3, 4).translate(Vector::new(1, 0)),
        rect(i32::MAX, 0, 3, 4)
    );
    assert_eq!(Vector::new(1, 2).plus(Vector::new(3, 4)), Vector::new(4, 6));
}

#[test]
fn snap_scales_to_pixels() {
    let r = Rectangle::new(
        Point::new(units(10), units(-4)),
        Size::new(units(30) + 512, units(2)),
    );
    assert_eq!(
        r.snap(UNIT as u32),
        PixelRect { x: 10, y: 0, width: 30, height: 2 }
    );
    assert_eq!(
        r.snap(2 * UNIT as u32),
        PixelRect { x: 20, y: 0, width: 61, height: 4 }
    );
}

#[test]
fn constructors_give_what_they_name() {
    assert_eq!(Point::origin(), Point { x: 0, y: 0 });
    assert_eq!(Size::zero(), Size { width: 0, height: 0 });
    assert_eq!(Size::infinity(), Size { width: i32::MAX, height: i32::MAX });
    assert_eq!(Rectangle::with_size(Size::new(3, 4)), rect(0, 0, 3, 4));
}

#[test]
fn viewport_logical_size_divides_by_the_scale_factor() {
    let viewport = Viewport::with_physical_size(200, 100, 2 * UNIT as u32);
    assert_eq!(viewport.physical_size(), (200, 100));
    assert_eq!(viewport.scale_factor(), 2048);
    assert_eq!(viewport.logical_size(), Size::new(units(100), units(50)));
    let plain = Viewport::with_physical_size(120, 120, UNIT as u32);
    assert_eq!(plain.logical_size(), Size::new(units(120), units(120)));
    let endless = Viewport::with_physical_size(1, 1, 0);
    assert_eq!(endless.logical_size(), Size::infinity());
}
