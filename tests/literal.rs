use julia::literal::split_complex_literal;

#[test]
fn splits_signed_literal() {
    let s = "[-0.747+0.2i]";
    let p = split_complex_literal(s).unwrap();
    assert_eq!(&s[1..p], "-0.747");
    assert_eq!(&s[p..s.len() - 2], "+0.2");
}

#[test]
fn splits_unsigned_literal() {
    let s = "[1-2i]";
    let p = split_complex_literal(s).unwrap();
    assert_eq!(&s[1..p], "1");
    assert_eq!(&s[p..s.len() - 2], "-2");
    assert_eq!(split_complex_literal("[+.5-3.25i]"), Some(4));
}

#[test]
fn rejects_malformed_literals() {
    assert_eq!(split_complex_literal("abc"), None);
    assert_eq!(split_complex_literal("[1+2]"), None);
    assert_eq!(split_complex_literal("[1+2i"), None);
    assert_eq!(split_complex_literal("[1.+2i]"), None);
    assert_eq!(split_complex_literal("[1..2+2i]"), None);
    assert_eq!(split_complex_literal("[+-1+2i]"), None);
    assert_eq!(split_complex_literal("[1+2+3i]"), None);
    assert_eq!(split_complex_literal(""), None);
}
