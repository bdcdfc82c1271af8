use mars_rover_technical_challenge::text::{
    char_is_whitespace, chars_of, next_line, next_token, parse_coordinate, push_decimal,
};

fn tokens_of(line: &str) -> Vec<String> {
    let chars: Vec<char> = line.chars().collect();
    let mut tokens = Vec::new();
    let mut from = 0;
    while let Some((start, end)) = next_token(&chars, from) {
        assert!(from <= start && start < end && end <= chars.len());
        tokens.push(chars[start..end].iter().collect());
        from = end;
    }
    tokens
}

fn lines_of(text: &str) -> Vec<String> {
    let chars: Vec<char> = text.chars().collect();
    let mut lines = Vec::new();
    let mut from = 0;
    while let Some((stop, next)) = next_line(&chars, from) {
        assert!(from <= stop && stop <= next && from < next && next <= chars.len());
        lines.push(chars[from..stop].iter().collect());
        from = next;
    }
    lines
}

fn coordinate_of(token: &str) -> Option<i16> {
    let chars: Vec<char> = token.chars().collect();
    parse_coordinate(&chars)
}

fn decimal_of(n: i32) -> String {
    let mut out = String::new();
    push_decimal(&mut out, n);
    out
}

#[test]
fn whitespace_is_what_the_standard_library_calls_whitespace() {
    let mut count = 0;
    for code in 0..=0x10ffff_u32 {
        if let Some(c) = char::from_u32(code) {
            assert_eq!(char_is_whitespace(c), c.is_whitespace(), "U+{:04X}", code);
            if char_is_whitespace(c) {
                count += 1;
            }
        }
    }
    assert_eq!(count, 25);
}

#[test]
fn the_characters_of_a_string_come_in_order() {
    assert_eq!(chars_of(""), Vec::<char>::new());
    assert_eq!(chars_of("5 5"), vec!['5', ' ', '5']);
    assert_eq!(chars_of("a\u{e9}\u{1f680}\n"), vec!['a', '\u{e9}', '\u{1f680}', '\n']);
}

#[test]
fn tokens_are_the_runs_between_whitespace() {
    assert_eq!(tokens_of(""), Vec::<String>::new());
    assert_eq!(tokens_of(" \t\n "), Vec::<String>::new());
    assert_eq!(tokens_of("4 2"), vec!["4", "2"]);
    assert_eq!(tokens_of("  1\t\t2   N "), vec!["1", "2", "N"]);
    assert_eq!(tokens_of("one"), vec!["one"]);
    assert_eq!(tokens_of("a\u{3000}b\u{a0}c\u{85}d"), vec!["a", "b", "c", "d"]);
    // A zero-width space is no whitespace.
    assert_eq!(tokens_of("a\u{200b}b c"), vec!["a\u{200b}b", "c"]);
}

#[test]
fn tokens_agree_with_split_whitespace() {
    let alphabet = ['1', '-', 'N', ' ', '\t', '\u{a0}', '\u{2003}', '\r'];
    // Every string of up to five characters over the alphabet.
    let mut texts = vec![String::new()];
    let mut from = 0;
    for _ in 0..5 {
        let until = texts.len();
        for i in from..until {
            for c in alphabet {
                let mut longer = texts[i].clone();
                longer.push(c);
                texts.push(longer);
            }
        }
        from = until;
    }
    assert_eq!(texts.len(), 1 + 8 + 64 + 512 + 4096 + 32768);
    for text in &texts {
        let expected: Vec<String> = text.split_whitespace().map(String::from).collect();
        assert_eq!(tokens_of(text), expected, "{:?}", text);
    }
}

#[test]
fn next_token_finds_nothing_behind_the_end() {
    let chars = ['a', ' ', 'b'];
    assert_eq!(next_token(&chars, 0), Some((0, 1)));
    assert_eq!(next_token(&chars, 1), Some((2, 3)));
    assert_eq!(next_token(&chars, 2), Some((2, 3)));
    assert_eq!(next_token(&chars, 3), None);
    assert_eq!(next_token(&chars, 4), None);
    assert_eq!(next_token(&chars, usize::MAX), None);
    assert_eq!(next_token(&[], 0), None);
}

#[test]
fn a_coordinate_is_a_signed_decimal_numeral() {
    assert_eq!(coordinate_of("0"), Some(0));
    assert_eq!(coordinate_of("7"), Some(7));
    assert_eq!(coordinate_of("42"), Some(42));
    assert_eq!(coordinate_of("-42"), Some(-42));
    assert_eq!(coordinate_of("+42"), Some(42));
    assert_eq!(coordinate_of("007"), Some(7));
    assert_eq!(coordinate_of("-0"), Some(0));
    assert_eq!(coordinate_of("+0"), Some(0));
    assert_eq!(coordinate_of("32767"), Some(32767));
    assert_eq!(coordinate_of("-32768"), Some(-32768));
    assert_eq!(coordinate_of("0000000000000000000000032767"), Some(32767));
    assert_eq!(coordinate_of("-000000000000000000000032768"), Some(-32768));
}

#[test]
fn what_is_no_numeral_or_does_not_fit_is_no_coordinate() {
    for token in [
        "", "+", "-", "--1", "++1", "+-1", "-+1", "1-", "1+", "1 ", " 1", "1.0", "1e3", "0x10",
        "1_000", "x", "N", "12a", "a12", "\u{661}", "\u{ff11}", "32768", "-32769", "+32768",
        "99999", "100000", "4294967296", "18446744073709551616",
        "99999999999999999999999999999999999999999999", "-99999999999999999999999999999999",
        "327680", "32768x", "3276x",
    ] {
        assert_eq!(coordinate_of(token), None, "{:?}", token);
    }
}

#[test]
fn coordinates_agree_with_the_standard_parser_on_every_numeral_near_the_range() {
    for n in -70000..=70000_i32 {
        for text in [
            format!("{}", n),
            format!("{:+}", n),
            format!("{:06}", n),
            format!("{:+08}", n),
        ] {
            assert_eq!(coordinate_of(&text), text.parse::<i16>().ok(), "{:?}", text);
        }
    }
}

#[test]
fn coordinates_agree_with_the_standard_parser_on_short_strings() {
    let alphabet = ['0', '1', '9', '+', '-', ' ', 'a', '3'];
    let mut texts = vec![String::new()];
    let mut from = 0;
    for _ in 0..6 {
        let until = texts.len();
        for i in from..until {
            for c in alphabet {
                let mut longer = texts[i].clone();
                longer.push(c);
                texts.push(longer);
            }
        }
        from = until;
    }
    for text in &texts {
        assert_eq!(coordinate_of(text), text.parse::<i16>().ok(), "{:?}", text);
    }
}

#[test]
fn a_numeral_is_written_without_leading_zeros() {
    assert_eq!(decimal_of(0), "0");
    assert_eq!(decimal_of(5), "5");
    assert_eq!(decimal_of(10), "10");
    assert_eq!(decimal_of(-1), "-1");
    assert_eq!(decimal_of(32768), "32768");
    assert_eq!(decimal_of(-32768), "-32768");
    assert_eq!(decimal_of(i32::MAX), "2147483647");
    assert_eq!(decimal_of(i32::MIN), "-2147483648");
    let mut out = String::from("x=");
    push_decimal(&mut out, 105);
    push_decimal(&mut out, -7);
    assert_eq!(out, "x=105-7");
}

#[test]
fn numerals_are_written_as_the_standard_library_writes_them() {
    for n in -70000..=70000_i32 {
        assert_eq!(decimal_of(n), n.to_string());
    }
    for n in [i32::MAX - 1, i32::MIN + 1, 1_000_000_000, -1_000_000_000, 999_999_999] {
        assert_eq!(decimal_of(n), n.to_string());
    }
}

#[test]
fn every_coordinate_is_written_and_read_back() {
    for n in i16::MIN..=i16::MAX {
        assert_eq!(coordinate_of(&decimal_of(n as i32)), Some(n));
    }
}

#[test]
fn lines_end_at_line_feeds() {
    assert_eq!(lines_of(""), Vec::<String>::new());
    assert_eq!(lines_of("\n"), vec![""]);
    assert_eq!(lines_of("a"), vec!["a"]);
    assert_eq!(lines_of("a\n"), vec!["a"]);
    assert_eq!(lines_of("a\nb"), vec!["a", "b"]);
    assert_eq!(lines_of("a\n\nb\n"), vec!["a", "", "b"]);
    assert_eq!(lines_of("a\r\nb\r\n"), vec!["a", "b"]);
    assert_eq!(lines_of("a\r"), vec!["a\r"]);
    assert_eq!(lines_of("a\r\r\n"), vec!["a\r"]);
    assert_eq!(lines_of("\r\n"), vec![""]);
    assert_eq!(lines_of("a\rb\n"), vec!["a\rb"]);
    assert_eq!(lines_of("5 5\n1 2 N\nLM\n"), vec!["5 5", "1 2 N", "LM"]);
}

#[test]
fn lines_agree_with_the_lines_of_the_standard_library() {
    let alphabet = ['a', '\n', '\r', ' '];
    let mut texts = vec![String::new()];
    let mut from = 0;
    for _ in 0..7 {
        let until = texts.len();
        for i in from..until {
            for c in alphabet {
                let mut longer = texts[i].clone();
                longer.push(c);
                texts.push(longer);
            }
        }
        from = until;
    }
    for text in &texts {
        let expected: Vec<String> = text.lines().map(String::from).collect();
        assert_eq!(lines_of(text), expected, "{:?}", text);
        let read: Vec<String> = std::io::BufRead::lines(text.as_bytes())
            .map(|line| line.unwrap())
            .collect();
        assert_eq!(lines_of(text), read, "{:?}", text);
    }
}

#[test]
fn next_line_finds_nothing_behind_the_end() {
    let chars = ['a', '\n', 'b'];
    assert_eq!(next_line(&chars, 0), Some((1, 2)));
    assert_eq!(next_line(&chars, 2), Some((3, 3)));
    assert_eq!(next_line(&chars, 3), None);
    assert_eq!(next_line(&chars, 9), None);
    assert_eq!(next_line(&[], 0), None);
}
