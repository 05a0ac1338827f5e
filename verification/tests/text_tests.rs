use porovnavac::clock::{stamp_of, WallClock};
use porovnavac::order::sort_order;
use porovnavac::text::{
    chars_le, chars_of, decimal_string, digit_char, push_decimal, replace_text, string_of, trim,
};

fn chars(s: &str) -> Vec<char> {
    s.chars().collect()
}

#[test]
fn characters_and_back() {
    assert_eq!(chars_of("ab\u{11b}"), vec!['a', 'b', '\u{11b}']);
    assert_eq!(chars_of(""), Vec::<char>::new());
    assert_eq!(string_of(&vec!['x', 'y']), "xy");
    assert_eq!(string_of(&chars_of("Přehled změn")), "Přehled změn");
}

#[test]
fn decimals() {
    assert_eq!(decimal_string(0), "0");
    assert_eq!(decimal_string(7), "7");
    assert_eq!(decimal_string(10), "10");
    assert_eq!(decimal_string(1234567890), "1234567890");
    assert_eq!(decimal_string(u128::MAX), "340282366920938463463374607431768211455");
    assert_eq!(digit_char(0), '0');
    assert_eq!(digit_char(9), '9');
    let mut s = String::from("n=");
    push_decimal(&mut s, 405);
    assert_eq!(s, "n=405");
}

#[test]
fn trimming() {
    assert_eq!(trim("  a b \t\n"), "a b");
    assert_eq!(trim("a"), "a");
    assert_eq!(trim(""), "");
    assert_eq!(trim(" \u{a0}\u{3000} "), "");
    assert_eq!(trim("\u{2003}x\u{2003}"), "x");
}

#[test]
fn replacing_text() {
    assert_eq!(replace_text("a{n}b{n}", "{n}", "12"), "a12b12");
    assert_eq!(replace_text("aaa", "aa", "b"), "ba");
    assert_eq!(replace_text("abc", "abcd", "x"), "abc");
    assert_eq!(replace_text("abc", "", "x"), "abc");
    assert_eq!(replace_text("", "a", "x"), "");
    assert_eq!(replace_text("xx", "x", "xx"), "xxxx");
    assert_eq!(replace_text("ab", "b", ""), "a");
}

#[test]
fn order_of_texts() {
    assert!(chars_le(&chars(""), &chars("")));
    assert!(chars_le(&chars(""), &chars("a")));
    assert!(!chars_le(&chars("a"), &chars("")));
    assert!(chars_le(&chars("a"), &chars("a")));
    assert!(chars_le(&chars("a"), &chars("ab")));
    assert!(!chars_le(&chars("ab"), &chars("a")));
    assert!(chars_le(&chars("Z"), &chars("a")));
    assert!(chars_le(&chars("ab"), &chars("b")));
    assert!(!chars_le(&chars("é"), &chars("z")));
}

#[test]
fn the_order_agrees_with_that_of_strings() {
    let words = ["", "a", "A", "ab", "b", "é", "z", "\u{10000}", "\u{ffff}", "a b", "a-b"];
    for x in words {
        for y in words {
            assert_eq!(chars_le(&chars(x), &chars(y)), x <= y, "{x:?} {y:?}");
        }
    }
}

#[test]
fn sorting_is_stable() {
    let keys = vec![chars("b"), chars("a"), chars("b"), chars("a"), chars("c"), chars("")];
    assert_eq!(sort_order(&keys), vec![5, 1, 3, 0, 2, 4]);
    assert_eq!(sort_order(&Vec::new()), Vec::<usize>::new());
    assert_eq!(sort_order(&vec![chars("x")]), vec![0]);
}

#[test]
fn stamps() {
    let c = WallClock { year: 2024, month: 3, day: 5, hour: 9, minute: 7 };
    assert_eq!(stamp_of(&c), "05.03.2024 09:07");
    let c = WallClock { year: 1999, month: 12, day: 31, hour: 23, minute: 59 };
    assert_eq!(stamp_of(&c), "31.12.1999 23:59");
    let c = WallClock { year: 33, month: 1, day: 1, hour: 0, minute: 0 };
    assert_eq!(stamp_of(&c), "01.01.0033 00:00");
    let c = WallClock { year: 12345, month: 1, day: 1, hour: 0, minute: 0 };
    assert_eq!(stamp_of(&c), "01.01.+12345 00:00");
    let c = WallClock { year: -44, month: 3, day: 15, hour: 12, minute: 0 };
    assert_eq!(stamp_of(&c), "15.03.-0044 12:00");
}
