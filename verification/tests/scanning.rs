use battery_info::text::{scan_prefix, scan_suffix, spells, split_once, strip, to_chars, CharClass};

fn chars(s: &str) -> Vec<char> {
    s.chars().collect()
}

#[test]
fn whitespace_is_what_std_calls_whitespace() {
    let mut c = '\0';
    loop {
        assert_eq!(CharClass::Whitespace.contains(c), c.is_whitespace(), "{:?}", c);
        if c == char::MAX {
            break;
        }
        c = char::from_u32(c as u32 + 1).unwrap_or('\u{e000}');
    }
}

#[test]
fn classes_hold_their_characters() {
    assert!(CharClass::Quote.contains('"'));
    assert!(!CharClass::Quote.contains('\''));
    assert!(!CharClass::Quote.contains('“'));
    for c in '0'..='9' {
        assert!(CharClass::Digit.contains(c));
    }
    assert!(!CharClass::Digit.contains('/'));
    assert!(!CharClass::Digit.contains(':'));
    assert!(!CharClass::Digit.contains('٣'));
    assert!(CharClass::Except('=').contains('a'));
    assert!(!CharClass::Except('=').contains('='));
}

#[test]
fn prefix_and_suffix_are_counted() {
    let s = chars("  \t key \n");
    assert_eq!(scan_prefix(&s, CharClass::Whitespace), 4);
    assert_eq!(scan_suffix(&s, CharClass::Whitespace), 2);
    assert_eq!(scan_prefix(&chars("   "), CharClass::Whitespace), 3);
    assert_eq!(scan_suffix(&chars("   "), CharClass::Whitespace), 3);
    assert_eq!(scan_prefix(&chars(""), CharClass::Digit), 0);
    assert_eq!(scan_suffix(&chars(""), CharClass::Digit), 0);
    assert_eq!(scan_prefix(&chars("123.45"), CharClass::Digit), 3);
    assert_eq!(scan_suffix(&chars("123.45"), CharClass::Digit), 2);
    assert_eq!(scan_prefix(&chars("key = value"), CharClass::Except('=')), 4);
    assert_eq!(scan_prefix(&chars("key value"), CharClass::Except('=')), 9);
}

#[test]
fn strip_is_what_std_trims() {
    for case in ["", " ", "a", " a", "a ", "  a b  ", "\t\r\n a \u{a0}\u{3000}", "\u{200b} a", "\u{2028}x\u{2029}"] {
        assert_eq!(strip(&chars(case), CharClass::Whitespace), &chars(case.trim())[..], "{:?}", case);
    }
    for case in ["", "\"", "\"\"", "\"a\"", "\"\"a", "a\"\"\"", "\"a\"b\"", " \"a\" "] {
        assert_eq!(strip(&chars(case), CharClass::Quote), &chars(case.trim_matches('"'))[..], "{:?}", case);
    }
}

#[test]
fn split_once_is_what_std_splits() {
    for case in ["", "=", "a=b", "a = b = c", "no separator", "=b", "a=", "==", "\"Key\" = Value"] {
        let s = chars(case);
        let (head, tail) = split_once(&s, '=');
        match case.split_once('=') {
            Some((before, after)) => {
                assert_eq!(head, &chars(before)[..], "{:?}", case);
                assert_eq!(tail, Some(&chars(after)[..]), "{:?}", case);
            }
            None => {
                assert_eq!(head, &s[..], "{:?}", case);
                assert_eq!(tail, None, "{:?}", case);
            }
        }
    }
}

#[test]
fn spells_compares_whole_texts() {
    assert!(spells(&chars("Yes"), "Yes"));
    assert!(spells(&chars(""), ""));
    assert!(spells(&chars("°C ⇡"), "°C ⇡"));
    assert!(!spells(&chars("Yes"), "yes"));
    assert!(!spells(&chars("Ye"), "Yes"));
    assert!(!spells(&chars("Yess"), "Yes"));
    assert!(!spells(&chars(""), "Yes"));
    assert!(!spells(&chars("Yes"), ""));
}

#[test]
fn to_chars_keeps_every_character() {
    assert_eq!(to_chars(""), chars(""));
    assert_eq!(to_chars("a=b\n"), vec!['a', '=', 'b', '\n']);
    assert_eq!(to_chars("36.50 °C ⇣"), chars("36.50 °C ⇣"));
}
