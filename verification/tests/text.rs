use caliban_operator::text::{
    decimal_of, joined, parse_i32, parse_unsigned, push_decimal, same, same_opt, split_at_each,
    trimmed, white_space,
};

#[test]
fn white_space_is_that_of_the_standard_library() {
    for n in 0..=0x10ffff_u32 {
        if let Some(c) = char::from_u32(n) {
            assert_eq!(white_space(c), c.is_whitespace(), "{n:x}");
        }
    }
}

#[test]
fn trimming_takes_white_space_off_both_ends() {
    for s in ["", " ", "a", " a", "a ", "\u{2003}a b\u{85}", "\u{200b}a", "\t\n"] {
        assert_eq!(trimmed(s), s.trim(), "{s:?}");
    }
}

#[test]
fn splitting_and_joining_undo_each_other() {
    for s in ["", ",", "a", "a,b", ",a,,b,", "é,→"] {
        let pieces = split_at_each(s, ',');
        let expected: Vec<&str> = s.split(',').collect();
        assert_eq!(pieces, expected, "{s:?}");
        assert_eq!(joined(&pieces, ","), s);
    }
    assert_eq!(joined(&vec!["a".to_string(), "b".to_string()], "; "), "a; b");
    assert_eq!(joined(&vec![], "; "), "");
}

#[test]
fn numbers_are_written_in_decimal() {
    for n in [0, 1, 9, 10, 99, 100, -1, -10, i64::MAX, i64::MIN, 8443] {
        assert_eq!(decimal_of(n), n.to_string());
    }
    let mut s = "x".to_string();
    push_decimal(&mut s, u64::MAX);
    assert_eq!(s, format!("x{}", u64::MAX));
}

#[test]
fn numbers_are_read_as_the_standard_library_does() {
    let texts = [
        "", "0", "-0", "+0", "00", "7", "-7", "+7", "--7", "+-7", "2147483647", "2147483648",
        "-2147483648", "-2147483649", "99999999999999999999", "1_0", "1.0", "٣", "a", "-", "+", " 1",
    ];
    for t in texts {
        assert_eq!(parse_i32(t), t.parse::<i32>().ok(), "{t:?}");
        assert_eq!(
            parse_unsigned(t, 255),
            t.parse::<u8>().ok().map(u64::from),
            "{t:?}"
        );
    }
}

#[test]
fn strings_are_compared_by_their_characters() {
    assert!(same("é", "é") && !same("é", "e") && !same("a", "ab") && same("", ""));
    let some = |s: &str| Some(s.to_string());
    assert!(same_opt(&None, &None) && same_opt(&some("a"), &some("a")));
    assert!(!same_opt(&some(""), &None) && !same_opt(&some("a"), &some("b")));
}
