use svgtextbox::attributes::{collect_sorted, get_attr, remove_attr, text_eq, text_less, write_attributes};
use svgtextbox::errors::IntParseFailure;
use svgtextbox::text::{
    chars_of, contains_char, exceeds_bytes, is_all_whitespace, is_whitespace, parse_i32, parse_integer, parse_u16,
    push_decimal, push_integer, replace, split_whitespace, stands_at, str_eq, string_of, trim,
    u16s_from_str, u16s_to_string,
};
use svgtextbox::utils::{members_of, set_of, sorted_unique, sorted_unique_u16, vec_from_str};

fn chars(s: &str) -> Vec<char> {
    s.chars().collect()
}

#[test]
fn v16() {
    let testcases = [("100", vec![100]), ("100 200", vec![100, 200]), ("100 200 300", vec![100, 200, 300])];
    let bad = ["100 two hundred", "65536"];
    for (input, expected_output) in testcases.iter() {
        assert_eq!(vec_from_str(input).unwrap(), *expected_output);
    }
    for input in bad.iter() {
        assert!(vec_from_str(input).is_err());
    }
    assert_eq!(vec_from_str(" 1\t2\n0 "), Ok(vec![1, 2, 0]));
    assert_eq!(vec_from_str(""), Ok(vec![]));
    assert_eq!(u16s_from_str("1 0", true), Err(IntParseFailure::Zero));
}

#[test]
fn whitespace_is_what_std_takes_for_it() {
    for n in 0..0x11_0000u32 {
        if let Some(c) = char::from_u32(n) {
            assert_eq!(is_whitespace(c), c.is_whitespace());
        }
    }
    assert!(is_all_whitespace(&chars(" \t\n\u{a0}\u{3000}")));
    assert!(is_all_whitespace(&chars("")));
    assert!(!is_all_whitespace(&chars(" a ")));
}

#[test]
fn tokens_and_trimming_as_std_does_them() {
    for text in ["", " ", "a", " a", "a ", "  a b\tc\n\nd  ", "\u{3000}x\u{a0}y", "a  b"] {
        let tokens: Vec<String> = split_whitespace(&chars(text)).iter().map(string_of).collect();
        assert_eq!(tokens, text.split_whitespace().collect::<Vec<&str>>());
        assert_eq!(string_of(&trim(&chars(text))), text.trim());
    }
    assert_eq!(chars_of("a\u{e9}"), vec!['a', '\u{e9}']);
    assert!(contains_char(&chars("a&b"), '&'));
    assert!(!contains_char(&chars("ab"), '&'));
}

#[test]
fn numbers_as_std_reads_them() {
    for text in ["0", "7", "007", "+7", "-7", "65535", "65536", "", "+", "-", "1x", "x", "99999999999", "-0", "++1", "1 "] {
        assert_eq!(parse_u16(&chars(text)).ok(), text.parse::<u16>().ok());
        assert_eq!(parse_i32(&chars(text)).ok(), text.parse::<i32>().ok());
    }
    for text in ["2147483647", "2147483648", "-2147483648", "-2147483649", "-12", "+12"] {
        assert_eq!(parse_i32(&chars(text)).ok(), text.parse::<i32>().ok());
    }
    assert_eq!(parse_u16(&chars("")), Err(IntParseFailure::Empty));
    assert_eq!(parse_u16(&chars("-")), Err(IntParseFailure::InvalidDigit));
    assert_eq!(parse_u16(&chars("70000x")), Err(IntParseFailure::PosOverflow));
    assert_eq!(parse_u16(&chars("7000x0")), Err(IntParseFailure::InvalidDigit));
    assert_eq!(parse_i32(&chars("-3000000000")), Err(IntParseFailure::NegOverflow));
    assert_eq!(parse_integer(&chars("-5"), -4, 4), Err(IntParseFailure::NegOverflow));
    assert_eq!(parse_integer(&chars("-4"), -4, 4), Ok(-4));
    assert_eq!(parse_integer(&chars("-4"), 0, 4), Err(IntParseFailure::InvalidDigit));
}

#[test]
fn numbers_as_std_writes_them() {
    for n in [0u64, 1, 9, 10, 99, 100, 65535, u64::MAX] {
        let mut out = chars("n=");
        push_decimal(&mut out, n);
        assert_eq!(string_of(&out), format!("n={}", n));
    }
    for n in [0i64, -1, 7, -10, i64::MIN, i64::MAX] {
        let mut out = Vec::new();
        push_integer(&mut out, n);
        assert_eq!(string_of(&out), format!("{}", n));
    }
    assert_eq!(u16s_to_string(&vec![1, 20, 300]), "1 20 300");
    assert_eq!(u16s_to_string(&vec![]), "");
    assert_eq!(u16s_from_str(&u16s_to_string(&vec![0, 65535, 7]), false), Ok(vec![0, 65535, 7]));
}

#[test]
fn texts_compared_and_replaced_as_std_does() {
    let cases = [
        ("a</defs>b</defs>", "</defs>", "X"),
        ("aaa", "aa", "b"),
        ("abc", "abc", ""),
        ("abc", "abcd", "x"),
        ("", "a", "b"),
        ("xay", "a", "aa"),
        ("ababab", "ab", "ba"),
    ];
    for (text, from, to) in cases.iter() {
        assert_eq!(string_of(&replace(&chars(text), &chars(from), &chars(to))), text.replace(from, to));
    }
    assert!(stands_at(&chars("abc"), &chars("bc"), 1));
    assert!(!stands_at(&chars("abc"), &chars("bc"), 2));
    assert!(stands_at(&chars("abc"), &chars(""), 3));
    assert!(str_eq("left", "left"));
    assert!(!str_eq("left", "Left"));
    for (a, b) in [("", ""), ("", "a"), ("a", ""), ("a", "b"), ("ab", "a"), ("a", "ab"), ("fill", "height"), ("\u{e9}", "z")] {
        assert_eq!(text_less(&chars(a), &chars(b)), a < b);
        assert_eq!(text_eq(&chars(a), &chars(b)), a == b);
    }
}

#[test]
fn bytes_of_a_text() {
    assert!(!exceeds_bytes(&chars("abc"), 3));
    assert!(exceeds_bytes(&chars("abc"), 2));
    for text in ["", "a", "\u{e9}", "\u{2015}", "\u{1f600}", "a\u{e9}\u{2015}\u{1f600}"] {
        assert!(!exceeds_bytes(&chars(text), text.len()));
        if text.len() > 0 {
            assert!(exceeds_bytes(&chars(text), text.len() - 1));
        }
    }
}

#[test]
fn attributes_in_the_order_given_and_in_the_order_of_names() {
    let pair = |k: &str, v: &str| (k.to_string(), v.to_string());
    let mut attrs = vec![pair("b", "1"), pair("a", "2"), pair("b", "3"), pair("c", "4")];
    assert_eq!(get_attr(&attrs, "b"), Some("1".to_string()));
    assert_eq!(get_attr(&attrs, "d"), None);
    let sorted = collect_sorted(&attrs);
    assert_eq!(string_of(&write_attributes(&sorted)), "a=\"2\" b=\"3\" c=\"4\"");
    assert_eq!(remove_attr(&mut attrs, "b"), Some("1".to_string()));
    assert_eq!(attrs, vec![pair("a", "2"), pair("c", "4")]);
    assert_eq!(remove_attr(&mut attrs, "b"), None);
    assert_eq!(attrs.len(), 2);
    assert_eq!(string_of(&write_attributes(&Vec::new())), "");
}

#[test]
fn members_in_ascending_order() {
    assert_eq!(sorted_unique(&vec![3, -1, 3, 2, -1]), vec![-1, 2, 3]);
    assert_eq!(sorted_unique(&vec![]), Vec::<i32>::new());
    assert_eq!(sorted_unique_u16(&vec![3, 1, 3, 2, 65535, 0]), vec![0, 1, 2, 3, 65535]);
    let set = set_of(&vec![3, 1, 3]);
    assert_eq!(set.len(), 2);
    let mut members = members_of(&set);
    members.sort();
    assert_eq!(members, vec![1, 3]);
}
