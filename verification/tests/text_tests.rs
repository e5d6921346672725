use plin::text::{contains, int_string, nat_string, parse_u64, trim};

fn chars(s: &str) -> Vec<char> {
    s.chars().collect()
}

#[test]
fn decimal_rendering_of_numbers() {
    assert_eq!(nat_string(0), "0");
    assert_eq!(nat_string(7), "7");
    assert_eq!(nat_string(1234), "1234");
    assert_eq!(nat_string(u64::MAX), "18446744073709551615");
    assert_eq!(int_string(-42), "-42");
    assert_eq!(int_string(0), "0");
    assert_eq!(int_string(i64::MIN), "-9223372036854775808");
    assert_eq!(int_string(i64::MAX), "9223372036854775807");
}

#[test]
fn trimming_removes_unicode_whitespace_at_both_ends() {
    assert_eq!(trim(&chars("  10 min \t\n")), chars("10 min"));
    assert_eq!(trim(&chars("\u{a0}x\u{3000}")), chars("x"));
    assert_eq!(trim(&chars("   ")), chars(""));
    assert_eq!(trim(&chars("")), chars(""));
    assert_eq!(trim(&chars("a b")), chars("a b"));
}

#[test]
fn parsing_follows_str_parse_u64() {
    for text in ["0", "12", "+12", "+", "", "-1", "12a", " 1", "18446744073709551615",
        "18446744073709551616", "99999999999999999999", "+0007"]
    {
        assert_eq!(parse_u64(&chars(text)), text.parse::<u64>().ok(), "text {:?}", text);
    }
}

#[test]
fn substring_search() {
    assert!(contains(&chars("{\"name\":\"x\"}"), &chars("name")));
    assert!(!contains(&chars("{\"reason\":\"notFound\"}"), &chars("name")));
    assert!(contains(&chars("name"), &chars("name")));
    assert!(!contains(&chars("nam"), &chars("name")));
    assert!(contains(&chars("abc"), &chars("")));
}
