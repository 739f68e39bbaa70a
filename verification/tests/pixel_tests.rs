use mandelzoom::pixel::Pixel;

#[test]
fn new_pixel_is_black() {
    let p = Pixel::new();
    assert_eq!(p.get_color(), (0, 0, 0));
}

#[test]
fn set_color_overwrites_all_channels() {
    let mut p = Pixel::new();
    p.set_color(12, 30, 30);
    assert_eq!(p.get_color(), (12, 30, 30));
    p.set_color(255, 0, 128);
    assert_eq!(p.get_color(), (255, 0, 128));
}
