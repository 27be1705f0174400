use stmt_parser::number::{decimal_of, digit_of, is_ascii_digit, parse_i64};
use stmt_parser::split::{split_char, split_whitespace};
use stmt_parser::text::{
    chars_of, contains_char, find_first, find_last, is_space, slice, string_of, trimmed,
};

fn strings(v: Vec<Vec<char>>) -> Vec<String> {
    v.iter().map(string_of).collect()
}

const SAMPLES: [&str; 24] = [
    "",
    " ",
    "a",
    "  a b \t",
    "\u{3000}x\u{2003}",
    "abc",
    " \r\n",
    "1 + 2",
    "1 + 2 + 3",
    "a+b c d",
    "\ta\u{a0}b\u{85}c\u{1680}d\u{2028}e\u{2029}f\u{202f}g\u{205f}h ",
    "x\u{200b}y",
    "f(1, 2)",
    ",",
    ",,",
    "a,",
    ",a",
    "a, b ,c",
    "int x = 5\nint y = x + 1\nfoo(x, y)",
    "\n",
    "a\n\nb\n",
    "line\r\nnext\r\n",
    "h\u{e9}llo w\u{f6}rld",
    "\u{1d11e} \u{10ffff}",
];

#[test]
fn chars_and_back() {
    for s in SAMPLES {
        let v = chars_of(s);
        assert_eq!(v, s.chars().collect::<Vec<char>>());
        assert_eq!(string_of(&v), s);
    }
}

#[test]
fn string_of_builds_the_text() {
    assert_eq!(string_of(&vec!['a', 'b', '\u{e9}']), "ab\u{e9}");
    assert_eq!(string_of(&Vec::new()), "");
}

#[test]
fn white_space_matches_std() {
    let mut n: u32 = 0;
    while n <= 0x10ffff {
        if let Some(c) = char::from_u32(n) {
            assert_eq!(is_space(c), c.is_whitespace(), "code point {:x}", n);
        }
        n += 1;
    }
}

#[test]
fn digits_match_std() {
    let mut n: u32 = 0;
    while n <= 0x3000 {
        if let Some(c) = char::from_u32(n) {
            assert_eq!(is_ascii_digit(c), c.is_ascii_digit(), "code point {:x}", n);
        }
        n += 1;
    }
}

#[test]
fn trim_matches_std() {
    for s in SAMPLES {
        assert_eq!(string_of(&trimmed(&chars_of(s))), s.trim());
    }
}

#[test]
fn trim_examples() {
    assert_eq!(string_of(&trimmed(&chars_of("  a b \t"))), "a b");
    assert_eq!(string_of(&trimmed(&chars_of(" \r\n"))), "");
    assert_eq!(string_of(&trimmed(&chars_of("x"))), "x");
}

#[test]
fn split_whitespace_matches_std() {
    for s in SAMPLES {
        let expected: Vec<String> = s.split_whitespace().map(String::from).collect();
        assert_eq!(strings(split_whitespace(&chars_of(s))), expected, "text {:?}", s);
    }
}

#[test]
fn split_whitespace_examples() {
    assert_eq!(strings(split_whitespace(&chars_of("1 + 2"))), vec!["1", "+", "2"]);
    assert_eq!(strings(split_whitespace(&chars_of("  a \t b  "))), vec!["a", "b"]);
    assert!(split_whitespace(&chars_of(" \t ")).is_empty());
    assert!(split_whitespace(&chars_of("")).is_empty());
}

#[test]
fn split_char_matches_std() {
    for s in SAMPLES {
        for sep in [',', '\n', ' ', '='] {
            let expected: Vec<String> = s.split(sep).map(String::from).collect();
            assert_eq!(strings(split_char(&chars_of(s), sep)), expected, "text {:?}", s);
        }
    }
}

#[test]
fn split_char_examples() {
    assert_eq!(strings(split_char(&chars_of(""), ',')), vec![""]);
    assert_eq!(strings(split_char(&chars_of(","), ',')), vec!["", ""]);
    assert_eq!(strings(split_char(&chars_of("a, b"), ',')), vec!["a", " b"]);
    assert_eq!(strings(split_char(&chars_of("a\n\nb\n"), '\n')), vec!["a", "", "b", ""]);
}

#[test]
fn find_and_contains_match_std() {
    for s in SAMPLES {
        let v = chars_of(s);
        for c in ['(', ')', '+', '-', ',', ' ', 'a', '\n'] {
            let all: Vec<char> = s.chars().collect();
            assert_eq!(contains_char(&v, c), s.contains(c));
            assert_eq!(find_first(&v, c), all.iter().position(|d| *d == c));
            assert_eq!(find_last(&v, c), all.iter().rposition(|d| *d == c));
        }
    }
}

#[test]
fn find_examples() {
    let v = chars_of("f(g(1), 2)");
    assert_eq!(find_first(&v, '('), Some(1));
    assert_eq!(find_last(&v, ')'), Some(9));
    assert_eq!(find_first(&v, 'x'), None);
    assert_eq!(find_last(&v, 'x'), None);
}

#[test]
fn slice_copies_the_range() {
    let v = chars_of("h\u{e9}llo");
    assert_eq!(string_of(&slice(&v, 1, 4)), "\u{e9}ll");
    assert_eq!(string_of(&slice(&v, 2, 2)), "");
    assert_eq!(string_of(&slice(&v, 0, 5)), "h\u{e9}llo");
}

#[test]
fn parse_i64_matches_std() {
    let texts = [
        "",
        "0",
        "7",
        "-7",
        "+7",
        "-",
        "+",
        "+-7",
        "--7",
        "007",
        "-007",
        "12a",
        "a12",
        " 12",
        "12 ",
        "1_000",
        "1.5",
        "9223372036854775807",
        "9223372036854775808",
        "-9223372036854775808",
        "-9223372036854775809",
        "+9223372036854775807",
        "00000000000000000000000000000000000000000000000042",
        "99999999999999999999999999999999999999999999999999",
        "-99999999999999999999999999999999999999999999999999",
        "18446744073709551616",
        "340282366920938463463374607431768211456",
        "\u{661}\u{662}",
        "１２",
        "1 + 2",
    ];
    for s in texts {
        assert_eq!(parse_i64(&chars_of(s)), s.parse::<i64>().ok(), "text {:?}", s);
    }
}

#[test]
fn parse_i64_examples() {
    assert_eq!(parse_i64(&chars_of("42")), Some(42));
    assert_eq!(parse_i64(&chars_of("-42")), Some(-42));
    assert_eq!(parse_i64(&chars_of("+42")), Some(42));
    assert_eq!(parse_i64(&chars_of("9223372036854775807")), Some(i64::MAX));
    assert_eq!(parse_i64(&chars_of("-9223372036854775808")), Some(i64::MIN));
    assert_eq!(parse_i64(&chars_of("9223372036854775808")), None);
    assert_eq!(parse_i64(&chars_of("abc")), None);
    assert_eq!(parse_i64(&chars_of("")), None);
}

#[test]
fn decimal_of_matches_std() {
    for n in [0usize, 1, 9, 10, 11, 99, 100, 101, 12345, 1_000_000, usize::MAX] {
        assert_eq!(string_of(&decimal_of(n)), n.to_string());
    }
}

#[test]
fn decimal_then_parse_gives_the_number_back() {
    for n in [0usize, 5, 10, 907, 65536, 4_000_000_000] {
        assert_eq!(parse_i64(&decimal_of(n)), Some(n as i64));
    }
}

#[test]
fn digit_of_examples() {
    assert_eq!(digit_of(0), '0');
    assert_eq!(digit_of(7), '7');
    assert_eq!(digit_of(9), '9');
}
