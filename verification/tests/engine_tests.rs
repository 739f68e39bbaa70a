use mandelzoom::engine::{palette_color, pixel_counter};
use mandelzoom::fixed::SCALE;

#[test]
fn origin_exhausts_any_budget() {
    assert_eq!(pixel_counter(0, 0, 1), 1);
    assert_eq!(pixel_counter(0, 0, 7), 7);
    assert_eq!(pixel_counter(0, 0, 40), 40);
}

#[test]
fn corner_point_escapes_quickly() {
    // c = (-1, -1): |z| passes 2 on the third iteration.
    assert_eq!(pixel_counter(-SCALE, -SCALE, 10), 3);
}

#[test]
fn counter_never_exceeds_budget() {
    for depth in [1u32, 2, 5, 40] {
        let n = pixel_counter(-SCALE, SCALE / 2, depth);
        assert!(n <= depth);
    }
}

#[test]
fn palette_escaped_formula() {
    // counter < depth: (counter % 64 * 4, counter % 8 * 10, counter % 6 * 10)
    assert_eq!(palette_color(3, 10), (12, 30, 30));
    assert_eq!(palette_color(70, 100), (24, 60, 40));
    assert_eq!(palette_color(0, 10), (0, 0, 0));
    assert_eq!(palette_color(63, 64), (252, 70, 30));
}

#[test]
fn palette_exhausted_is_black() {
    assert_eq!(palette_color(5, 5), (0, 0, 0));
    assert_eq!(palette_color(40, 40), (0, 0, 0));
    assert_eq!(palette_color(6, 5), (0, 0, 0));
}
