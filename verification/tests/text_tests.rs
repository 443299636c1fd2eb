use markdown_latex::chars::CharClass;
use markdown_latex::text::{clean_chars, push_all, replace_pair_in, string_of};

fn chars(s: &str) -> Vec<char> {
    s.chars().collect()
}

#[test]
fn classes_hold_their_characters() {
    assert!(CharClass::Is('#').test('#'));
    assert!(!CharClass::Is('#').test('*'));
    assert!(CharClass::Not(']').test('a'));
    assert!(!CharClass::Not(']').test(']'));
    assert!(CharClass::Digit.test('0'));
    assert!(CharClass::Digit.test('9'));
    assert!(!CharClass::Digit.test('a'));
    assert!(!CharClass::Digit.test('٣'));
    assert!(CharClass::Plain.test('-'));
    assert!(CharClass::Plain.test(']'));
    for c in ['#', '*', '[', '\n'] {
        assert!(!CharClass::Plain.test(c));
    }
    assert!(CharClass::Space.test(' '));
    assert!(CharClass::Space.test('\n'));
    assert!(CharClass::Space.test('\u{a0}'));
    assert!(!CharClass::Space.test('x'));
    assert!(!CharClass::Space.test('\u{200b}'));
}

#[test]
fn replacing_goes_left_to_right_without_overlap() {
    let with = chars("_");
    assert_eq!(replace_pair_in(&chars("aaa"), 'a', 'a', &with), chars("_a"));
    assert_eq!(replace_pair_in(&chars("aaaa"), 'a', 'a', &with), chars("__"));
    assert_eq!(replace_pair_in(&chars("abab"), 'a', 'b', &with), chars("__"));
    assert_eq!(replace_pair_in(&chars("ba"), 'a', 'b', &with), chars("ba"));
    assert_eq!(replace_pair_in(&chars(""), 'a', 'b', &with), chars(""));
    assert_eq!(replace_pair_in(&chars("a"), 'a', 'b', &with), chars("a"));
    assert_eq!(replace_pair_in(&chars("xaby"), 'a', 'b', &chars("")), chars("xy"));
}

#[test]
fn replacing_agrees_with_the_standard_library() {
    for s in ["", " ", "  ", "   ", "a  b   c    d", " - -  - ", "--  --", "x -", " -"] {
        let std_way = s.replace("  ", " ").replace(" -", "~--");
        assert_eq!(clean_chars(&chars(s)), std_way, "{:?}", s);
    }
}

#[test]
fn cleaning_exact_values() {
    assert_eq!(clean_chars(&chars("a  b")), "a b");
    assert_eq!(clean_chars(&chars("a -b")), "a~--b");
    assert_eq!(clean_chars(&chars("a  -b")), "a~--b");
    assert_eq!(clean_chars(&chars("a~--b")), "a~--b");
    assert_eq!(clean_chars(&chars("")), "");
}

#[test]
fn string_of_a_range() {
    let v = chars("héllo");
    assert_eq!(string_of(&v, 0, 5), "héllo");
    assert_eq!(string_of(&v, 1, 3), "él");
    assert_eq!(string_of(&v, 2, 2), "");
}

#[test]
fn push_all_appends() {
    let mut out = chars("ab");
    push_all(&mut out, &chars("cd"));
    assert_eq!(out, chars("abcd"));
    push_all(&mut out, &chars(""));
    assert_eq!(out, chars("abcd"));
}
