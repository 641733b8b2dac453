use focusrite_watch::numerals::{push_digits, signed_decimal_string};

#[test]
fn signed_decimal_matches_to_string() {
    for n in [0i64, 7, -7, 10, -10, 99, 100, 1688712542, i64::MAX, i64::MIN, i64::MIN + 1] {
        assert_eq!(signed_decimal_string(n), n.to_string());
    }
}

#[test]
fn push_digits_appends_numeral() {
    let mut s = String::from("x=");
    push_digits(&mut s, 255, 16);
    assert_eq!(s, "x=FF");
    push_digits(&mut s, 0, 10);
    assert_eq!(s, "x=FF0");
    let mut b = String::new();
    push_digits(&mut b, 5, 2);
    assert_eq!(b, "101");
    let mut m = String::new();
    push_digits(&mut m, u64::MAX, 10);
    assert_eq!(m, u64::MAX.to_string());
}
