use julia::numeric::{parse_pair, parse_u32, parse_u64};

#[test]
fn reads_unsigned_integers() {
    assert_eq!(parse_u32("255"), Some(255));
    assert_eq!(parse_u32("+42"), Some(42));
    assert_eq!(parse_u32("007"), Some(7));
    assert_eq!(parse_u32("4294967295"), Some(u32::MAX));
    assert_eq!(parse_u64("18446744073709551615"), Some(u64::MAX));
}

#[test]
fn rejects_bad_integers() {
    assert_eq!(parse_u32(""), None);
    assert_eq!(parse_u32("+"), None);
    assert_eq!(parse_u32("-1"), None);
    assert_eq!(parse_u32("12a"), None);
    assert_eq!(parse_u32("4294967296"), None);
    assert_eq!(parse_u64("18446744073709551616"), None);
    assert_eq!(parse_u64("99999999999999999999999999999"), None);
}

#[test]
fn reads_aspect_and_dimensions() {
    assert_eq!(parse_pair("16:9", b':'), Some((16, 9)));
    assert_eq!(parse_pair("1920x1080", b'x'), Some((1920, 1080)));
    assert_eq!(parse_pair("4:3:2", b':'), Some((4, 3)));
}

#[test]
fn rejects_bad_pairs() {
    assert_eq!(parse_pair("169", b':'), None);
    assert_eq!(parse_pair("16:", b':'), None);
    assert_eq!(parse_pair(":9", b':'), None);
    assert_eq!(parse_pair("16x9", b':'), None);
    assert_eq!(parse_pair("a:9", b':'), None);
}
