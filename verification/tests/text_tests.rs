use recapit::text::{
    eq_ignore_case, parse_u32, parse_u64, replace_all, split_char, str_eq, trim, trim_end,
    u64_to_string, u64_to_string2, u64_to_string3,
};

#[test]
fn trimming_strips_ascii_blanks() {
    assert_eq!(trim("  hello \t\n"), "hello");
    assert_eq!(trim(""), "");
    assert_eq!(trim(" \t "), "");
    assert_eq!(trim("inner  space"), "inner  space");
    assert_eq!(trim_end("a \n"), "a");
    assert_eq!(trim_end("  a"), "  a");
}

#[test]
fn decimal_rendering_is_exact() {
    assert_eq!(u64_to_string(0), "0");
    assert_eq!(u64_to_string(7), "7");
    assert_eq!(u64_to_string(1234567890), "1234567890");
    assert_eq!(u64_to_string(u64::MAX), "18446744073709551615");
    assert_eq!(u64_to_string2(3), "03");
    assert_eq!(u64_to_string2(42), "42");
    assert_eq!(u64_to_string3(5), "005");
    assert_eq!(u64_to_string3(45), "045");
    assert_eq!(u64_to_string3(450), "450");
}

#[test]
fn decimal_parsing_round_trips() {
    assert_eq!(parse_u32("0"), Some(0));
    assert_eq!(parse_u32("4294967295"), Some(u32::MAX));
    assert_eq!(parse_u32("4294967296"), None);
    assert_eq!(parse_u32(""), None);
    assert_eq!(parse_u32("12a"), None);
    assert_eq!(parse_u32("-1"), None);
    assert_eq!(parse_u64("18446744073709551615"), Some(u64::MAX));
    assert_eq!(parse_u64("18446744073709551616"), None);
}

#[test]
fn case_insensitive_matching_folds_ascii_only() {
    assert!(eq_ignore_case("VIDEO", "video"));
    assert!(eq_ignore_case("MiXeD", "mixed"));
    assert!(!eq_ignore_case("video", "videos"));
    assert!(str_eq("same", "same"));
    assert!(!str_eq("same", "Same"));
}

#[test]
fn replace_all_hits_every_occurrence() {
    assert_eq!(replace_all("{{X}} and {{X}}", "{{X}}", "y"), "y and y");
    assert_eq!(replace_all("abc", "d", "e"), "abc");
    assert_eq!(replace_all("aaa", "aa", "b"), "ba");
    assert_eq!(replace_all("text", "", "x"), "text");
}

#[test]
fn splitting_keeps_empty_pieces() {
    let parts = split_char("a,b,,c", ',');
    assert_eq!(parts, vec!["a", "b", "", "c"]);
    assert_eq!(split_char("", ','), vec![""]);
    assert_eq!(split_char("one", ','), vec!["one"]);
}
