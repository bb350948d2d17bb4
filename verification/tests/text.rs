use robot_dog_rust::text::{contains_str, is_blank, push_decimal, push_fixed, push_padded, str_equal, trim};

fn fixed(m: i64, decimals: u32) -> String {
    let mut s = String::new();
    push_fixed(&mut s, m, decimals);
    s
}

#[test]
fn trim_matches_std_trim() {
    for s in ["  a b  ", "\t\n x\u{3000}", "", "   ", "\u{85}y\u{a0}", "中 文"] {
        assert_eq!(trim(s), s.trim());
    }
}

#[test]
fn blank_means_only_whitespace() {
    assert!(is_blank(""));
    assert!(is_blank(" \t\u{2028}"));
    assert!(!is_blank(" a "));
}

#[test]
fn contains_matches_std_contains() {
    for (s, p) in [("走2秒", "秒"), ("abc", "bd"), ("abc", ""), ("", "a"), ("ababc", "abc")] {
        assert_eq!(contains_str(s, p), s.contains(p));
    }
}

#[test]
fn str_equal_compares_characters() {
    assert!(str_equal("online", "online"));
    assert!(!str_equal("online", "onlin"));
    assert!(!str_equal("online", "Online"));
}

#[test]
fn decimal_and_padded_digits() {
    let mut s = String::new();
    push_decimal(&mut s, 0);
    push_decimal(&mut s, 1234567);
    push_padded(&mut s, 7, 3);
    push_padded(&mut s, 12345, 2);
    assert_eq!(s, "0123456700745");
}

/// The float that a decimal number of thousandths names, as parsing it gives.
fn float_of(m: i64) -> f32 {
    let sign = if m < 0 { "-" } else { "" };
    let a = m.unsigned_abs();
    format!("{sign}{}.{:03}", a / 1000, a % 1000).parse::<f32>().unwrap()
}

#[test]
fn fixed_point_writes_the_nearest_float() {
    assert_eq!(fixed(250, 2), "0.25");
    assert_eq!(fixed(1200, 2), "1.20");
    assert_eq!(fixed(125, 2), "0.12");
    assert_eq!(fixed(135, 2), "0.14");
    assert_eq!(fixed(165, 2), "0.17");
    assert_eq!(fixed(30450, 1), "30.5");
    assert_eq!(fixed(30250, 1), "30.2");
    assert_eq!(fixed(-1, 2), "-0.00");
    assert_eq!(fixed(1500, 3), "1.500");
    assert_eq!(fixed(-150, 3), "-0.150");
}

#[test]
fn fixed_point_matches_float_formatting() {
    let mut values: Vec<i64> = Vec::new();
    for m in -3000..3000 {
        values.push(m);
    }
    for m in (0..200_000).map(|k| k * 37 + 5) {
        values.push(m);
        values.push(-m);
    }
    for m in [
        16_384_005, 16_777_215, 32_768_005, 8_388_608_000, 8_388_608_001, 16_777_216_000,
        123_456_789_015, 999_999_999_999, i64::MAX, i64::MIN, i64::MIN + 1, 2_147_483_647,
        -2_147_483_648,
    ] {
        values.push(m);
    }
    for m in values {
        let f = float_of(m);
        assert_eq!(fixed(m, 1), format!("{:.1}", f), "m = {m}");
        assert_eq!(fixed(m, 2), format!("{:.2}", f), "m = {m}");
        assert_eq!(fixed(m, 3), format!("{:.3}", f), "m = {m}");
    }
}
