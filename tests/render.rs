use julia::fraction::Fraction;
use julia::palette::color_palette;
use julia::render::{frame_colors, pixel_color};

/// First check at which the orbit of `z0` under z*z + c leaves the disc of radius 2.
fn first_escape(z0: (f64, f64), c: (f64, f64), max_iter: u32) -> Option<u32> {
    let (mut x, mut y) = z0;
    for k in 0..max_iter {
        if x.hypot(y) > 2.0 {
            return Some(k);
        }
        let nx = x * x - y * y + c.0;
        let ny = x * y + y * x + c.1;
        x = nx;
        y = ny;
    }
    None
}

#[test]
fn small_frame_top_left_pixel() {
    let width = 4u32;
    let height = 4u32;
    let window_width = 0.64;
    let window_height = 0.64;
    let scale = window_width / width as f64;
    let center = (-0.385, 0.297);
    let c = (-0.747, 0.2);
    let crystal = color_palette("crystal");
    let (x, y) = (0u32, 0u32);
    let z0 = (
        x as f64 * scale - window_width / 2.0 + center.0,
        (height - y) as f64 * scale - window_height / 2.0 + center.1,
    );
    let e = first_escape(z0, c, 255);
    assert_eq!(e, Some(4));
    assert_eq!(pixel_color(e, 255, Fraction::new(0, 1), &crystal, &crystal), Some([252, 255, 255]));
}

#[test]
fn frame_colors_in_pixel_order() {
    let crystal = color_palette("crystal");
    let escapes = vec![Some(4), Some(162), None];
    let colors = frame_colors(&escapes, 255, Fraction::new(0, 1), &crystal, &crystal).unwrap();
    assert_eq!(colors, vec![[252, 255, 255], [118, 150, 215], [1, 1, 3]]);
}

#[test]
fn strength_above_one_has_no_color() {
    let crystal = color_palette("crystal");
    assert_eq!(pixel_color(None, 300, Fraction::new(0, 1), &crystal, &crystal), None);
    assert_eq!(pixel_color(Some(256), 300, Fraction::new(0, 1), &crystal, &crystal), Some([0, 0, 0]));
    assert_eq!(frame_colors(&vec![Some(3), None], 300, Fraction::new(0, 1), &crystal, &crystal), None);
}
