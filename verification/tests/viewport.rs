use gamelib::fx::Fx;
use gamelib::render::Viewport;

#[test]
fn fit_letterboxes_wide_surface() {
    // 2x2 virtual extent on a 200x100 surface: a centred 100x100 square.
    let vp = Viewport::fit(Fx::from_int(2), Fx::from_int(2));
    assert_eq!(vp.get_dimensions((200, 100)), (50, 0, 100, 100));
}

#[test]
fn fit_letterboxes_tall_extent() {
    // 4x1 virtual extent on a 100x100 surface: a 100x25 strip, centred
    // vertically, keeping the 4:1 aspect ratio.
    let vp = Viewport::fit(Fx::from_int(4), Fx::from_int(1));
    assert_eq!(vp.get_dimensions((100, 100)), (0, 37, 100, 25));
}

#[test]
fn fit_equal_aspect_keeps_origin() {
    // Equal aspect ratios leave both fringes at zero.
    let vp = Viewport::fit(Fx::from_int(2), Fx::from_int(1));
    assert_eq!(vp.get_dimensions((200, 100)), (0, 0, 100, 50));
}

#[test]
fn fit_within_surface_and_aspect() {
    let vp = Viewport::fit(Fx::from_int(3), Fx::from_int(2));
    let (l, b, w, h) = vp.get_dimensions((640, 480));
    assert!(w <= 640 && h <= 480);
    // aspect kept up to one rounding unit on either side
    let (w, h) = (w as i64, h as i64);
    let (vw, vh) = (3 * 65536i64, 2 * 65536i64);
    assert!(w * vh <= h * vw + vw);
    assert!(h * vw <= w * vh + vh);
    assert!(l <= 640 && b <= 480);
}

#[test]
fn stretch_uses_full_surface() {
    let vp = Viewport::stretch(Fx::from_int(1), Fx::from_int(1));
    assert_eq!(vp.get_dimensions((640, 480)), (0, 0, 640, 480));
}

#[test]
fn zero_surface_floored_to_one_pixel() {
    let vp = Viewport::stretch(Fx::from_int(1), Fx::from_int(1));
    assert_eq!(vp.get_dimensions((0, 0)), (0, 0, 1, 1));
}
