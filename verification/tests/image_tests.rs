use mandelzoom::fixed::SCALE;
use mandelzoom::image::Image;
use mandelzoom::pixel::Pixel;

fn colors(img: &Image) -> Vec<(u8, u8, u8)> {
    img.contents().iter().map(Pixel::get_color).collect()
}

#[test]
fn create_fills_full_grid() {
    let mut img = Image::new();
    assert_eq!(img.get_width(), 512);
    assert_eq!(img.get_height(), 512);
    assert_eq!(img.contents().len(), 512 * 512);
    assert_eq!(img.max_depth(), 40);
    img.tick();
    assert_eq!(img.contents().len(), 512 * 512);
    assert_eq!(img.get_width(), 512);
    assert_eq!(img.get_height(), 512);
    assert_eq!(img.max_depth(), 45);
}

#[test]
fn small_grid_known_colors() {
    // 4x4 grid over the square [-1, 1] x [-1, 1], budget 10.
    let img = Image::with_frame(4, 4, -SCALE, -SCALE, SCALE, SCALE, 10);
    let expected = vec![
        (12, 30, 30),
        (16, 40, 40),
        (0, 0, 0),
        (8, 20, 20),
        (20, 50, 50),
        (0, 0, 0),
        (0, 0, 0),
        (20, 50, 50),
        (0, 0, 0),
        (0, 0, 0),
        (0, 0, 0),
        (20, 50, 50),
        (20, 50, 50),
        (0, 0, 0),
        (0, 0, 0),
        (20, 50, 50),
    ];
    assert_eq!(colors(&img), expected);
}

#[test]
fn corner_pixel_not_black() {
    // Pixel (0, 0) samples c = (-1, -1), which escapes: the escaped-branch
    // palette value, not black.
    let img = Image::with_frame(4, 4, -SCALE, -SCALE, SCALE, SCALE, 10);
    assert_eq!(img.contents()[0].get_color(), (12, 30, 30));
}

#[test]
fn cardioid_point_black() {
    // Pixel (2, 2) samples c = (0, 0), inside the set: black at any budget.
    let img = Image::with_frame(4, 4, -SCALE, -SCALE, SCALE, SCALE, 10);
    assert_eq!(img.contents()[10].get_color(), (0, 0, 0));
    let img = Image::with_frame(4, 4, -SCALE, -SCALE, SCALE, SCALE, 1);
    assert_eq!(img.contents()[10].get_color(), (0, 0, 0));
    let img = Image::with_frame(4, 4, -SCALE, -SCALE, SCALE, SCALE, 100);
    assert_eq!(img.contents()[10].get_color(), (0, 0, 0));
}

#[test]
fn zoom_schedule() {
    let mut img = Image::with_frame(4, 4, -SCALE, -SCALE, SCALE, SCALE, 10);
    img.tick();
    // Each edge moved an eighth of the range inward: range is 3/4 of 2.
    assert_eq!(
        img.viewport(),
        (
            -3 * SCALE / 4,
            -3 * SCALE / 4,
            3 * SCALE / 4,
            3 * SCALE / 4
        )
    );
    assert_eq!(img.max_depth(), 15);
    img.tick();
    img.tick();
    let (sx, sy, ex, ey) = img.viewport();
    // After three ticks the range on each axis is exactly 2 * (3/4)^3.
    assert_eq!(ex - sx, 2 * SCALE * 27 / 64);
    assert_eq!(ey - sy, 2 * SCALE * 27 / 64);
    assert_eq!(img.max_depth(), 25);
}

#[test]
fn center_invariant_under_tick() {
    let mut img = Image::with_frame(4, 4, -SCALE, -SCALE / 2, SCALE / 2, SCALE, 9);
    let (sx0, sy0, ex0, ey0) = img.viewport();
    for _ in 0..10 {
        img.tick();
        let (sx, sy, ex, ey) = img.viewport();
        assert_eq!(sx + ex, sx0 + ex0);
        assert_eq!(sy + ey, sy0 + ey0);
    }
}

#[test]
fn viewport_never_inverts() {
    let mut img = Image::with_frame(4, 4, -SCALE, -SCALE, SCALE, SCALE, 1);
    for _ in 0..50 {
        img.tick();
        let (sx, sy, ex, ey) = img.viewport();
        assert!(sx < ex);
        assert!(sy < ey);
    }
}

#[test]
fn identical_frames_render_identically() {
    let a = Image::with_frame(6, 3, -SCALE, -SCALE / 4, SCALE / 2, SCALE, 25);
    let b = Image::with_frame(6, 3, -SCALE, -SCALE / 4, SCALE / 2, SCALE, 25);
    assert_eq!(colors(&a), colors(&b));
}

#[test]
fn refill_is_idempotent() {
    let mut img = Image::with_frame(5, 5, -SCALE, -SCALE, SCALE, SCALE, 30);
    let before = colors(&img);
    img.fill();
    assert_eq!(colors(&img), before);
}

#[test]
fn dimensions_survive_ticks() {
    let mut img = Image::with_frame(7, 2, -SCALE, -SCALE, SCALE, SCALE, 5);
    assert_eq!(img.get_width(), 7);
    assert_eq!(img.get_height(), 2);
    for _ in 0..5 {
        img.tick();
    }
    assert_eq!(img.get_width(), 7);
    assert_eq!(img.get_height(), 2);
    assert_eq!(img.contents().len(), 14);
}

#[test]
fn single_pixel_grid() {
    // Smallest grid: one pixel sampling the lower corner.
    let img = Image::with_frame(1, 1, 0, 0, SCALE, SCALE, 10);
    assert_eq!(img.contents().len(), 1);
    // c = (0, 0) never escapes: black.
    assert_eq!(img.contents()[0].get_color(), (0, 0, 0));
}
