use cpu_mode::format::{format_bytes, format_count, format_ns, ns_field, safe_filename_component};
use cpu_mode::json::{field_string, field_u64, first_str, string_list, Json};
use cpu_mode::text::{
    decimal_text, is_blank, is_white_space, same_text, trim, trim_end_matches, utf8_len,
};
use cpu_mode::wire::parse_json_body;

fn json(text: &str) -> Json {
    parse_json_body(text).unwrap()
}

fn in_floating_point(ns: u64) -> String {
    format!("{:.3} ms", ns as f64 / 1_000_000.0)
}

#[test]
fn sizes_are_told_in_kib_or_bytes() {
    assert_eq!(format_bytes(65536), "64 KiB");
    assert_eq!(format_bytes(0), "0 KiB");
    assert_eq!(format_bytes(1000), "1000 bytes");
    assert_eq!(format_bytes(1025), "1025 bytes");
    assert_eq!(format_bytes(u64::MAX), "18446744073709551615 bytes");
}

#[test]
fn counts_have_commas() {
    assert_eq!(format_count(0), "0");
    assert_eq!(format_count(7), "7");
    assert_eq!(format_count(999), "999");
    assert_eq!(format_count(1000), "1,000");
    assert_eq!(format_count(1_002_003), "1,002,003");
    assert_eq!(format_count(1_234_567), "1,234,567");
    assert_eq!(format_count(u64::MAX), "18,446,744,073,709,551,615");
}

#[test]
fn counts_without_commas_are_decimals() {
    for n in [0u64, 5, 10, 123, 1000, 10_000, 999_999, 123_456_789, u64::MAX] {
        let text = format_count(n);
        assert_eq!(text.replace(',', ""), n.to_string());
        for (i, c) in text.chars().enumerate() {
            assert_eq!(c == ',', (text.len() - i) % 4 == 0);
        }
    }
}

#[test]
fn decimals_match_the_standard_library() {
    for n in [0u64, 9, 10, 11, 99, 100, 12_345, u64::MAX] {
        assert_eq!(decimal_text(n), n.to_string());
    }
}

#[test]
fn times_have_three_decimal_places() {
    assert_eq!(format_ns(0), "0.000 ms");
    assert_eq!(format_ns(1), "0.000 ms");
    assert_eq!(format_ns(499), "0.000 ms");
    assert_eq!(format_ns(501), "0.001 ms");
    assert_eq!(format_ns(1_500_000), "1.500 ms");
    assert_eq!(format_ns(1_234_567), "1.235 ms");
    assert_eq!(format_ns(62_500), "0.062 ms");
}

#[test]
fn times_agree_with_floating_point_everywhere() {
    for ns in 0u64..200_000 {
        assert_eq!(format_ns(ns), in_floating_point(ns));
    }
    for k in 0u64..200_000 {
        let tie = k * 1000 + 500;
        assert_eq!(format_ns(tie), in_floating_point(tie));
    }
    let mut x: u64 = 0x9e37_79b9_7f4a_7c15;
    for _ in 0..200_000 {
        x = x.wrapping_mul(6_364_136_223_846_793_005).wrapping_add(1_442_695_040_888_963_407);
        for shift in [0u32, 5, 11, 17, 23, 31, 43] {
            let ns = x >> shift;
            assert_eq!(format_ns(ns), in_floating_point(ns));
        }
    }
    for bit in 0u32..64 {
        let p = 1u64 << bit;
        for ns in [p - 1, p, p + 1] {
            assert_eq!(format_ns(ns), in_floating_point(ns));
        }
    }
    for ns in [u64::MAX, u64::MAX - 1, u64::MAX - 1024, u64::MAX - 1025] {
        assert_eq!(format_ns(ns), in_floating_point(ns));
    }
}

#[test]
fn shown_times_are_nearest() {
    for ns in [0u64, 1, 500, 999, 1500, 2500, 123_456_789, (1 << 53) - 1] {
        let text = format_ns(ns);
        let digits: String = text.chars().filter(|c| c.is_ascii_digit()).collect();
        let shown: i128 = digits.parse().unwrap();
        let off = 1000 * shown - ns as i128;
        assert!((-500..=500).contains(&off));
    }
    for ns in [1u64 << 53, (1 << 53) + 1, 1 << 60, u64::MAX - 1025, u64::MAX] {
        let text = format_ns(ns);
        let digits: String = text.chars().filter(|c| c.is_ascii_digit()).collect();
        let shown: i128 = digits.parse().unwrap();
        assert!((-4000..=4000).contains(&(1000 * shown - ns as i128)));
    }
}

#[test]
fn file_names_are_made_safe() {
    assert_eq!(safe_filename_component("job_12-a.b"), "job_12-a.b");
    assert_eq!(safe_filename_component("../a b"), ".._a_b");
    assert_eq!(safe_filename_component("\u{e9}\u{4e2d}"), "__");
    let once = safe_filename_component("x/y\\z:\u{1f600}");
    assert_eq!(safe_filename_component(&once), once);
    assert_eq!(once.chars().count(), 7);
}

#[test]
fn white_space_is_unicode_white_space() {
    for n in 0u32..=0x10ffff {
        if let Some(c) = char::from_u32(n) {
            assert_eq!(is_white_space(c), c.is_whitespace());
        }
    }
}

#[test]
fn texts_are_trimmed() {
    for s in ["", " ", "\n\t", "a", " a ", "a b", "\u{3000}tok\u{a0}\n", "x\n"] {
        assert_eq!(trim(s), s.trim());
        assert_eq!(is_blank(s), s.trim().is_empty());
    }
    for s in ["", "/", "https://x", "https://x/", "https://x///", "/a/"] {
        assert_eq!(trim_end_matches(s, '/'), s.trim_end_matches('/'));
    }
    assert!(same_text("a\u{e9}", "a\u{e9}"));
    assert!(!same_text("a", "b"));
    assert!(!same_text("a", "ab"));
    assert_eq!(utf8_len("\u{e9}\u{4e2d}a"), 6);
}

#[test]
fn fields_are_read() {
    let v = json(r#"{"id":"x","n":5,"neg":-5,"frac":1.5,"deep":{"k":"v"},"yes":true,"null":null}"#);
    assert_eq!(field_string(&v, "id"), "x");
    assert_eq!(field_string(&v, "n"), "-");
    assert_eq!(field_string(&v, "missing"), "-");
    assert_eq!(field_u64(&v, "n"), Some(5));
    assert_eq!(field_u64(&v, "neg"), None);
    assert_eq!(field_u64(&v, "frac"), None);
    assert_eq!(field_u64(&v, "id"), None);
    assert_eq!(first_str(&v, &["missing", "n", "id"]), Some("x"));
    assert_eq!(first_str(&v, &["missing"]), None);
    assert_eq!(v.get("deep").and_then(|d| d.str_at("k")), Some("v"));
    assert_eq!(v.bool_at("yes"), Some(true));
    assert!(v.get("null").is_some());
    assert!(json("[1]").get("id").is_none());
}

#[test]
fn lists_of_texts_are_joined() {
    let v = json(r#"{"a":["x",1,"y",null,"z"],"b":[],"c":[1],"d":"x","e":[""],"f":["",""]}"#);
    assert_eq!(string_list(v.get("a")), Some("x, y, z".to_string()));
    assert_eq!(string_list(v.get("b")), None);
    assert_eq!(string_list(v.get("c")), None);
    assert_eq!(string_list(v.get("d")), None);
    assert_eq!(string_list(v.get("e")), None);
    assert_eq!(string_list(v.get("f")), Some(", ".to_string()));
    assert_eq!(string_list(None), None);
}

#[test]
fn a_missing_time_is_a_dash() {
    let v = json(r#"{"t":2000000,"s":"2"}"#);
    assert_eq!(ns_field(&v, "t"), "2.000 ms");
    assert_eq!(ns_field(&v, "s"), "-");
    assert_eq!(ns_field(&v, "u"), "-");
}
