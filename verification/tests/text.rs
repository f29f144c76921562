use key_capture::number::{parse_integer, push_decimal};
use key_capture::text::{bytes_are, chars_of, same_text, trimmed, white_space};

#[test]
fn white_space_is_that_of_char() {
    for code in 0..=0x10ffffu32 {
        if let Some(c) = char::from_u32(code) {
            assert_eq!(white_space(c), c.is_whitespace(), "{code:x}");
        }
    }
}

#[test]
fn trimming_is_that_of_str() {
    for s in ["", " ", "a", " a ", "\u{2003}a b\u{85}", "\n\t ", "x\u{3000}"] {
        let got: String = trimmed(&chars_of(s)).into_iter().collect();
        assert_eq!(got, s.trim());
    }
}

#[test]
fn integers_parse_as_i64() {
    let texts = [
        "0", "7", "-7", "+7", "", "-", "+", "+-1", "007", "12a", "9223372036854775807",
        "9223372036854775808", "-9223372036854775808", "-9223372036854775809",
        "000000000000000000000000000001", "18446744073709551615", "92233720368547758070", "٣",
    ];
    for s in texts {
        assert_eq!(parse_integer(&chars_of(s)), s.parse::<i64>().ok(), "{s}");
    }
}

#[test]
fn decimals_are_written_out() {
    for n in [0u64, 9, 10, 11, 99, 100, 65, 4242, u32::MAX as u64, u64::MAX] {
        let mut out = String::from("<");
        push_decimal(&mut out, n);
        assert_eq!(out, format!("<{n}"));
    }
}

#[test]
fn texts_compare_by_content() {
    assert!(same_text("ptt", "ptt"));
    assert!(!same_text("ptt", "PTT"));
    assert!(!same_text("ptt", "pt"));
    assert!(same_text("", ""));
}

#[test]
fn bytes_are_those_of_a_text() {
    for text in ["", "evdev", "é\u{1f600}"] {
        assert!(bytes_are(&text.as_bytes().to_vec(), text));
        assert!(!bytes_are(&[text.as_bytes(), b"x"].concat(), text));
    }
    assert!(!bytes_are(&vec![0xff], "ÿ"));
    assert!(!bytes_are(&b"evdex".to_vec(), "evdev"));
}
