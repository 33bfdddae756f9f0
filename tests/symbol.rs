use turing::symbol::{same_cell, Tapeable};

#[test]
fn bool_and_char_texts() {
    assert_eq!(bool::from_text("true"), Some(true));
    assert_eq!(bool::from_text("false"), Some(false));
    assert_eq!(bool::from_text("True"), None);
    assert_eq!(bool::from_text(""), None);
    assert_eq!(char::from_text("x"), Some('x'));
    assert_eq!(char::from_text("xy"), None);
    assert_eq!(char::from_text(""), None);
}

#[test]
fn unsigned_texts() {
    assert_eq!(u8::from_text("255"), Some(255));
    assert_eq!(u8::from_text("256"), None);
    assert_eq!(u8::from_text("+7"), Some(7));
    assert_eq!(u8::from_text("007"), Some(7));
    assert_eq!(u8::from_text("-0"), None);
    assert_eq!(u8::from_text("+"), None);
    assert_eq!(u8::from_text(""), None);
    assert_eq!(u8::from_text("1 "), None);
    assert_eq!(u64::from_text("18446744073709551615"), Some(u64::MAX));
    assert_eq!(u64::from_text("18446744073709551616"), None);
    assert_eq!(usize::from_text("123456789012345678901234567890"), None);
    assert_eq!(u16::from_text("65535"), Some(65535));
    assert_eq!(u32::from_text("4294967296"), None);
}

#[test]
fn signed_texts() {
    assert_eq!(i8::from_text("-128"), Some(-128));
    assert_eq!(i8::from_text("-129"), None);
    assert_eq!(i8::from_text("127"), Some(127));
    assert_eq!(i8::from_text("128"), None);
    assert_eq!(i32::from_text("-0"), Some(0));
    assert_eq!(i32::from_text("+42"), Some(42));
    assert_eq!(i32::from_text("-"), None);
    assert_eq!(i32::from_text("--1"), None);
    assert_eq!(i64::from_text("-9223372036854775808"), Some(i64::MIN));
    assert_eq!(i64::from_text("9223372036854775808"), None);
    assert_eq!(isize::from_text("-1"), Some(-1));
    assert_eq!(i16::from_text("-32768"), Some(i16::MIN));
}

#[test]
fn texts_agree_with_std() {
    for s in ["0", "1", "+1", "-1", "255", "256", "-128", "x", "", "+", "-", "99999999999999999999"] {
        assert_eq!(u8::from_text(s), s.parse::<u8>().ok());
        assert_eq!(i8::from_text(s), s.parse::<i8>().ok());
        assert_eq!(i64::from_text(s), s.parse::<i64>().ok());
        assert_eq!(u64::from_text(s), s.parse::<u64>().ok());
        assert_eq!(bool::from_text(s), s.parse::<bool>().ok());
    }
}

#[test]
fn same_cell_compares_symbols_and_blanks() {
    assert!(same_cell(&Some(3u8), &Some(3u8)));
    assert!(!same_cell(&Some(3u8), &Some(4u8)));
    assert!(!same_cell(&Some(3u8), &None));
    assert!(same_cell::<u8>(&None, &None));
    assert!(true.same(&true));
    assert!(!'a'.same(&'b'));
}
