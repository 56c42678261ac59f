use context_info::text::push_decimal;
use context_info::text::str_eq;
use context_info::text::strip_mark;

#[test]
fn str_eq_compares_characters() {
    assert!(str_eq("", ""));
    assert!(str_eq("ctxA", "ctxA"));
    assert!(str_eq("héllo\u{1F600}", "héllo\u{1F600}"));
    assert!(!str_eq("ctxA", "ctxB"));
    assert!(!str_eq("ctx", "ctxA"));
    assert!(!str_eq("ctxA", ""));
    assert!(!str_eq("é", "e"));
}

#[test]
fn strip_mark_drops_only_a_leading_mark() {
    assert_eq!(strip_mark("\u{feff}[default]"), "[default]");
    assert_eq!(strip_mark("[default]"), "[default]");
    assert_eq!(strip_mark(""), "");
    assert_eq!(strip_mark("\u{feff}"), "");
    assert_eq!(strip_mark("a\u{feff}b"), "a\u{feff}b");
    assert_eq!(strip_mark("\u{feff}\u{feff}x"), "\u{feff}x");
}

#[test]
fn push_decimal_writes_digits() {
    let mut s = String::new();
    push_decimal(&mut s, 0);
    assert_eq!(s, "0");
    let mut s = String::from("t=");
    push_decimal(&mut s, 7);
    assert_eq!(s, "t=7");
    let mut s = String::new();
    push_decimal(&mut s, 10);
    assert_eq!(s, "10");
    let mut s = String::new();
    push_decimal(&mut s, 1_700_000_123);
    assert_eq!(s, "1700000123");
    let mut s = String::new();
    push_decimal(&mut s, u64::MAX);
    assert_eq!(s, "18446744073709551615");
}

#[test]
fn push_decimal_agrees_with_display() {
    let samples: [u64; 8] = [1, 9, 11, 99, 100, 101, 909_090, 1 << 40];
    for n in samples {
        let mut s = String::new();
        push_decimal(&mut s, n);
        assert_eq!(s, format!("{}", n));
    }
}
