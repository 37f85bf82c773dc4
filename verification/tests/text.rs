use aio_idea::text::{
    alphanumeric, decimal_text, eq_ignore_ascii_case, hex_text, holds, is_blank, is_hex_text,
    is_printable, join, lines, octet, signed_decimal_text, split, split_once, strip_prefix,
    strip_suffix, to_ascii_lowercase, to_lower, trim, whitespace,
};

fn all_chars() -> Vec<char> {
    (0..=0x10ffff).filter_map(char::from_u32).collect()
}

#[test]
fn character_classes_are_those_of_the_standard_library() {
    for c in all_chars() {
        assert_eq!(whitespace(c), c.is_whitespace(), "{c:?}");
        assert_eq!(alphanumeric(c), c.is_ascii_alphanumeric(), "{c:?}");
        assert_eq!(to_lower(c), c.to_ascii_lowercase(), "{c:?}");
    }
    for c in all_chars().into_iter().take(0x300) {
        assert_eq!(is_printable(&c.to_string()), !c.is_control(), "{c:?}");
    }
}

const SAMPLES: [&str; 12] = [
    "",
    " ",
    "a",
    "a,b,,c",
    ",",
    "\u{3000}字符 \n",
    "line\r\nnext\n",
    "line\n\n",
    "last\r",
    "no end",
    "Bearer token",
    "ÄÖ aZ",
];

#[test]
fn splitting_and_trimming_are_those_of_the_standard_library() {
    for sample in SAMPLES {
        assert_eq!(trim(sample), sample.trim());
        assert_eq!(is_blank(sample), sample.trim().is_empty());
        assert_eq!(split(sample, ','), sample.split(',').collect::<Vec<_>>());
        assert_eq!(lines(sample), sample.lines().collect::<Vec<_>>());
        assert_eq!(to_ascii_lowercase(sample), sample.to_ascii_lowercase());
        assert_eq!(strip_prefix(sample, "Bearer ").as_deref(), sample.strip_prefix("Bearer "));
        assert_eq!(strip_suffix(sample, "\n").as_deref(), sample.strip_suffix("\n"));
        let halves = split_once(sample, ',');
        assert_eq!(
            halves.as_ref().map(|(left, right)| (left.as_str(), right.as_str())),
            sample.split_once(',')
        );
        assert_eq!(join(&split(sample, ','), ","), sample);
        for other in SAMPLES {
            assert_eq!(eq_ignore_ascii_case(sample, other), sample.eq_ignore_ascii_case(other));
        }
    }
}

#[test]
fn numbers_are_written_in_decimal() {
    for value in [0, 9, 10, 99, 100, 12345, u64::MAX] {
        assert_eq!(decimal_text(value), value.to_string());
    }
    for value in [0, 1, -1, 10, -10, i64::MAX, i64::MIN] {
        assert_eq!(signed_decimal_text(value), value.to_string());
    }
    for value in 0..=255u8 {
        assert_eq!(octet(&value.to_string()), Some(value));
    }
    for text in ["", "256", "01", "00", "1a", "+1", "999"] {
        assert_eq!(octet(text), None, "{text}");
    }
}

#[test]
fn bytes_are_written_in_hexadecimal() {
    assert_eq!(hex_text(&[0, 1, 0x7f, 0x80, 0xff]), "00017f80ff");
    assert!(is_hex_text("00017f80FF", 10));
    assert!(!is_hex_text("00017f80ff", 9));
    assert!(!is_hex_text("0x", 2));
}

#[test]
fn lists_hold_their_items() {
    let list = vec!["a".to_owned(), "b".to_owned()];
    assert!(holds(&list, "b"));
    assert!(!holds(&list, "c"));
    assert!(!holds(&Vec::new(), ""));
}
