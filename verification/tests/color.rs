use wterm::utils::color::{Rgba, ansi_256_to_rgb};

#[test]
fn base_colours() {
    assert_eq!(ansi_256_to_rgb(0), Rgba { r: 0, g: 0, b: 0, a: 255 });
    assert_eq!(ansi_256_to_rgb(1), Rgba { r: 194, g: 54, b: 33, a: 255 });
    assert_eq!(ansi_256_to_rgb(7), Rgba { r: 203, g: 204, b: 205, a: 255 });
    assert_eq!(ansi_256_to_rgb(12), Rgba { r: 88, g: 51, b: 255, a: 255 });
    assert_eq!(ansi_256_to_rgb(15), Rgba { r: 233, g: 235, b: 235, a: 255 });
}

#[test]
fn colour_cube() {
    assert_eq!(ansi_256_to_rgb(16), Rgba::from_rgb(0, 0, 0));
    assert_eq!(ansi_256_to_rgb(21), Rgba::from_rgb(0, 0, 255));
    assert_eq!(ansi_256_to_rgb(196), Rgba::from_rgb(255, 0, 0));
    assert_eq!(ansi_256_to_rgb(231), Rgba::from_rgb(255, 255, 255));
    // 16 + 36 * 1 + 6 * 2 + 3: levels 1, 2, 3.
    assert_eq!(ansi_256_to_rgb(67), Rgba::from_rgb(95, 135, 175));
}

#[test]
fn grey_ramp() {
    assert_eq!(ansi_256_to_rgb(232), Rgba::from_rgb(8, 8, 8));
    assert_eq!(ansi_256_to_rgb(244), Rgba::from_rgb(128, 128, 128));
    assert_eq!(ansi_256_to_rgb(255), Rgba::from_rgb(238, 238, 238));
}

#[test]
fn named_colours() {
    assert_eq!(Rgba::white(), Rgba { r: 255, g: 255, b: 255, a: 255 });
    assert_eq!(Rgba::transparent(), Rgba { r: 0, g: 0, b: 0, a: 0 });
}
