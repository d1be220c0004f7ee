use bear_tv::text::{
    append_number, cut_ends, is_word, parse_number, split_space, trim, CutSet, NumberError,
};

#[test]
fn trim_agrees_with_std_on_every_character() {
    for c in '\0'..=char::MAX {
        let text = format!("{c}a{c}b{c}");
        assert_eq!(trim(&text), text.trim());
    }
}

#[test]
fn trim_of_white_space_is_empty() {
    assert_eq!(trim(""), "");
    assert_eq!(trim(" \t\r\n\u{3000}"), "");
    assert_eq!(trim("  a b  "), "a b");
}

#[test]
fn trim_twice_is_trim_once() {
    let once = trim(" \u{85} 0 alice \n").to_string();
    assert_eq!(once, "0 alice");
    assert_eq!(trim(&once), once);
}

#[test]
fn nul_is_cut_at_the_ends_only() {
    assert_eq!(cut_ends("\0\0a\0b\0", CutSet::Nul), "a\0b");
    assert_eq!(cut_ends(" a ", CutSet::Nul), " a ");
    assert_eq!(cut_ends("\0\0", CutSet::Nul), "");
}

#[test]
fn words_ignore_ascii_case() {
    assert!(is_word("EXIT", "exit"));
    assert!(is_word("eXit", "exit"));
    assert!(!is_word("exit ", "exit"));
    assert!(!is_word("exi", "exit"));
    assert!(!is_word("U\u{308}", "u"));
    assert!(!is_word("\u{212a}", "k"));
}

#[test]
fn text_is_split_at_the_first_space() {
    assert_eq!(split_space("0 alice"), Some(("0", "alice")));
    assert_eq!(split_space("0 alice smith"), Some(("0", "alice smith")));
    assert_eq!(split_space("0  alice"), Some(("0", " alice")));
    assert_eq!(split_space(" alice"), Some(("", "alice")));
    assert_eq!(split_space("é b"), Some(("é", "b")));
    assert_eq!(split_space("0\talice"), None);
    assert_eq!(split_space(""), None);
}

#[test]
fn numbers_are_read_like_std_reads_them() {
    let texts = [
        "0", "7", "007", "+7", "+", "-", "-0", "", "65535", "65536", "99999999999999999999", "1x",
        "x1", " 1", "1 ", "++1", "999999x", "6553٣", "+65535", "65540",
    ];
    for text in texts {
        let expected = text.parse::<u16>();
        match parse_number(text, 65535) {
            Ok(number) => assert_eq!(expected, Ok(number as u16)),
            Err(error) => assert_eq!(expected.unwrap_err().to_string(), error.message()),
        }
    }
}

#[test]
fn each_number_error_occurs() {
    assert_eq!(parse_number("", 9), Err(NumberError::Empty));
    assert_eq!(parse_number("+", 9), Err(NumberError::InvalidDigit));
    assert_eq!(parse_number("1a", 99), Err(NumberError::InvalidDigit));
    assert_eq!(parse_number("10", 9), Err(NumberError::TooLarge));
    assert_eq!(parse_number("4294967295", u32::MAX), Ok(4294967295));
    assert_eq!(parse_number("4294967296", u32::MAX), Err(NumberError::TooLarge));
}

#[test]
fn numbers_are_written_and_read_back() {
    for number in [0, 9, 10, 99, 100, 65535, 1234567890, u32::MAX] {
        let mut text = "n=".to_string();
        append_number(&mut text, number);
        assert_eq!(text, format!("n={number}"));
        assert_eq!(parse_number(&text[2..], u32::MAX), Ok(number));
    }
}
