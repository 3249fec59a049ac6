use julia::color::{color_at, segment_index};
use julia::fraction::Fraction;
use julia::palette::color_palette;

fn f(num: u32, den: u32) -> Fraction {
    Fraction::new(num, den)
}

#[test]
fn segment_last_match_wins_on_shared_stops() {
    assert_eq!(segment_index(f(0, 1)), 0);
    assert_eq!(segment_index(f(8, 25)), 1);
    assert_eq!(segment_index(f(11, 25)), 2);
    assert_eq!(segment_index(f(204, 255)), 3);
    assert_eq!(segment_index(f(1, 1)), 3);
    assert_eq!(segment_index(f(1, 2)), 2);
}

#[test]
fn stop_positions_give_stop_colors() {
    let a = color_palette("crystal");
    let b = color_palette("cool");
    let stops = [f(0, 25), f(8, 25), f(11, 25), f(20, 25), f(25, 25)];
    for (k, s) in stops.iter().enumerate() {
        assert_eq!(color_at(*s, f(0, 1), &a, &b), a[k]);
        assert_eq!(color_at(*s, f(1, 1), &a, &b), b[k]);
    }
}

#[test]
fn stop_position_blended_halfway() {
    let a = color_palette("crystal");
    let b = color_palette("cool");
    assert_eq!(color_at(f(0, 255), f(1, 2), &a, &b), [127, 127, 127]);
}

#[test]
fn interpolates_within_segment_and_truncates() {
    let a = color_palette("crystal");
    let b = color_palette("cool");
    assert_eq!(color_at(f(1, 2), f(0, 1), &a, &b), [140, 198, 242]);
}

#[test]
fn blends_two_palettes() {
    let plasma = color_palette("plasma");
    let firelotus = color_palette("firelotus");
    assert_eq!(color_at(f(100, 255), f(1, 3), &plasma, &firelotus), [156, 156, 138]);
    let cool = color_palette("cool");
    assert_eq!(color_at(f(150, 255), f(2, 5), &cool, &plasma), [134, 168, 190]);
}

#[test]
fn blend_ends_pick_one_palette() {
    let a = color_palette("plasma");
    let b = color_palette("firelotus");
    for n in [0u32, 37, 81, 112, 150, 204, 255] {
        let s = f(n, 255);
        assert_eq!(color_at(s, f(0, 7), &a, &b), color_at(s, f(0, 1), &a, &a));
        assert_eq!(color_at(s, f(7, 7), &a, &b), color_at(s, f(0, 1), &b, &b));
    }
}

#[test]
fn same_palette_blend_has_no_effect() {
    let a = color_palette("underwater");
    assert_eq!(color_at(f(90, 255), f(1, 3), &a, &a), color_at(f(90, 255), f(0, 1), &a, &a));
}
