use julia::escape::{escape_count, escape_strength};

#[test]
fn first_check_escape_records_zero() {
    assert_eq!(escape_count(Some(0), 255), 0);
}

#[test]
fn later_escape_records_one_less() {
    assert_eq!(escape_count(Some(1), 255), 0);
    assert_eq!(escape_count(Some(5), 255), 4);
}

#[test]
fn no_escape_records_last_iteration() {
    assert_eq!(escape_count(None, 255), 254);
    assert_eq!(escape_count(None, 0), 0);
    assert_eq!(escape_count(None, 1000), 999);
}

#[test]
fn strength_is_count_over_255() {
    let s = escape_strength(Some(52), 100);
    assert_eq!((s.num, s.den), (51, 255));
    let s = escape_strength(None, 1000);
    assert_eq!((s.num, s.den), (999, 255));
}

#[test]
fn strength_non_decreasing_in_escape_index() {
    let mut last = 0;
    for k in 0..255u32 {
        let s = escape_strength(Some(k), 255);
        assert!(s.num >= last);
        last = s.num;
    }
    assert!(escape_strength(None, 255).num >= last);
}
