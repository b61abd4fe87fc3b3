use clnaddress::text::{chars_of, parse_unsigned, push_number, split_string, trim};

#[test]
fn numbers_are_written_in_a_base() {
    for (number, base, digits) in [
        (0, 10, "0"),
        (10, 10, "10"),
        (u64::MAX, 10, "18446744073709551615"),
        (0o644, 8, "644"),
        (5, 2, "101"),
    ] {
        let mut out = String::from("n=");
        push_number(&mut out, number, base);
        assert_eq!(out, format!("n={digits}"));
    }
}

#[test]
fn numbers_are_read_up_to_a_limit() {
    assert_eq!(parse_unsigned("0", 10), Some(0));
    assert_eq!(parse_unsigned("007", 10), Some(7));
    assert_eq!(parse_unsigned("+10", 10), Some(10));
    assert_eq!(parse_unsigned("11", 10), None);
    assert_eq!(parse_unsigned("9", 5), None);
    assert_eq!(parse_unsigned("1a", 100), None);
    assert_eq!(parse_unsigned("++1", 100), None);
}

#[test]
fn texts_are_taken_apart_at_a_separator() {
    assert_eq!(split_string("a:b:c", ':'), vec!["a", "b", "c"]);
    assert_eq!(split_string("", ':'), vec![""]);
    assert_eq!(split_string(":", ':'), vec!["", ""]);
    assert_eq!(split_string("goat🐐:x", ':'), vec!["goat🐐", "x"]);
}

#[test]
fn margins_are_trimmed() {
    assert_eq!(trim(" a b \n"), "a b");
    assert_eq!(trim(""), "");
    assert_eq!(trim(" \t\r\n"), "");
    assert_eq!(trim("a"), "a");
}

#[test]
fn white_space_is_that_of_unicode() {
    for code in 0..=0x10ffffu32 {
        if let Some(c) = char::from_u32(code) {
            assert_eq!(trim(&c.to_string()).is_empty(), c.is_whitespace());
        }
    }
}

#[test]
fn characters_are_listed_in_order() {
    assert_eq!(chars_of("a🐐"), vec!['a', '🐐']);
}
