use otp_fill::number::{append_decimal, parse_i64};
use otp_fill::text::{contains_text, lines, same_text, trim, whitespace};

#[test]
fn white_space_is_what_unicode_says() {
    for u in 0..=0x10ffffu32 {
        if let Some(c) = char::from_u32(u) {
            assert_eq!(whitespace(c), c.is_whitespace(), "{:x}", u);
        }
    }
}

const SAMPLES: [&str; 16] = [
    "",
    " ",
    "\r",
    "\n",
    "\r\n",
    "a",
    " a b ",
    "a\nb",
    "a\r\nb\r\n",
    "a\r",
    "a\r\r\nb",
    "\n\na\n\n",
    "\u{3000}x\u{a0}\u{2028}",
    "\u{200b}y\u{200b}",
    "1|eins\n2|zwei\n",
    "  \n 7 | x \r\n",
];

#[test]
fn trims_and_splits_lines_like_any_text() {
    for sample in SAMPLES {
        assert_eq!(trim(sample), sample.trim());
        assert_eq!(lines(sample), sample.lines().collect::<Vec<&str>>());
    }
}

#[test]
fn finds_parts_of_a_text() {
    for whole in ["", "a", "aab", "permission denied", "aaab", "ünïcode"] {
        for part in ["", "a", "ab", "aab", "denied", "permission denied!", "ï", "b"] {
            assert_eq!(contains_text(whole, part), whole.contains(part), "{} {}", whole, part);
            assert_eq!(same_text(whole, part), whole == part);
        }
    }
}

#[test]
fn reads_numbers_that_fit() {
    for s in [
        "", "0", "-0", "+0", "7", "+7", "-7", "007", "-", "+", "+-1", "--1", "1 ", " 1", "1_0", "x",
        "12x", "9223372036854775807", "9223372036854775808", "-9223372036854775808",
        "-9223372036854775809", "+9223372036854775807", "92233720368547758070",
        "99999999999999999999999999", "00000000000000000000000000000042", "\u{0661}", "1\u{301}",
    ] {
        assert_eq!(parse_i64(s), s.parse::<i64>().ok(), "{}", s);
    }
}

#[test]
fn writes_numbers_that_read_back() {
    for n in [0, 1, 9, 10, 11, 99, 100, 123456, -1, -10, i64::MAX, i64::MIN, i64::MIN + 1] {
        let mut s = String::from("n=");
        append_decimal(&mut s, n);
        assert_eq!(s, format!("n={}", n));
        assert_eq!(parse_i64(&s[2..]), Some(n));
    }
}
