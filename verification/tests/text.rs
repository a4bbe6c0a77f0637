use hyprtuird::text::{
    count_to_string, eq_ignore_ascii_case, i32_to_string, is_text_less, same_text, trim, whitespace,
};

#[test]
fn counts_in_decimal() {
    assert_eq!(count_to_string(0), "0");
    assert_eq!(count_to_string(9), "9");
    assert_eq!(count_to_string(10), "10");
    assert_eq!(count_to_string(1204), "1204");
    assert_eq!(count_to_string(usize::MAX), usize::MAX.to_string());
}

#[test]
fn signed_numbers_in_decimal() {
    for i in [0, 1, -1, 7, -98, 100, i32::MAX, i32::MIN] {
        assert_eq!(i32_to_string(i), i.to_string());
    }
}

#[test]
fn whitespace_agrees_with_unicode() {
    for code in 0..=0x10ffffu32 {
        if let Some(c) = char::from_u32(code) {
            assert_eq!(whitespace(c), c.is_whitespace(), "{:x}", code);
        }
    }
}

#[test]
fn trims_both_ends() {
    for text in ["", " ", "\n\t", "ok", " ok\n", "\u{a0}a b\u{3000}", "a", " a", "a ", "\u{e9} "] {
        assert_eq!(trim(text), text.trim());
    }
}

#[test]
fn compares_ignoring_ascii_case() {
    for (a, b) in [
        ("ok", "ok"),
        ("OK", "ok"),
        ("oK", "Ok"),
        ("ok", "okay"),
        ("okay", "ok"),
        ("", ""),
        ("o\u{212a}", "ok"),
        ("\u{c9}", "\u{e9}"),
        ("[", "{"),
        ("@", "`"),
    ] {
        assert_eq!(eq_ignore_ascii_case(a, b), a.eq_ignore_ascii_case(b));
    }
}

#[test]
fn orders_texts_as_std_does() {
    let texts = ["", "a", "b", "ab", "aa", "A", "\u{e9}", "z", "\u{ffff}", "\u{10000}", "\u{7f}", "\u{80}"];
    for a in texts {
        for b in texts {
            assert_eq!(is_text_less(a, b), a < b);
            assert_eq!(same_text(a, b), a == b);
        }
    }
}
