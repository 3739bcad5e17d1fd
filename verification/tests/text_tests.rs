use ai_review::number::{parse_i64, parse_unsigned, push_decimal};
use ai_review::split::{join, replace, split_lines, split_on, split_words};
use ai_review::text::{
    chars_of, comes_before, find_from, is_whitespace, occurs_at, same, string_of, strip_prefix,
    trim,
};

fn c(s: &str) -> Vec<char> {
    s.chars().collect()
}

fn shown(pieces: Vec<&[char]>) -> Vec<String> {
    pieces.into_iter().map(|p| p.iter().collect()).collect()
}

#[test]
fn characters_go_in_and_out() {
    assert_eq!(chars_of("héllo"), c("héllo"));
    assert_eq!(chars_of(""), Vec::<char>::new());
    assert_eq!(string_of(&c("héllo")), "héllo");
}

#[test]
fn white_space_is_what_std_says() {
    for code in 0..0x11000u32 {
        if let Some(ch) = char::from_u32(code) {
            assert_eq!(is_whitespace(ch), ch.is_whitespace(), "at {:x}", code);
        }
    }
}

#[test]
fn trim_is_what_std_says() {
    for s in ["", " ", "a", "  a b \t\r\n", "\u{a0}x\u{3000}", "x ", " x", "\n\n", "a\u{85}"] {
        assert_eq!(string_of(trim(&c(s))), s.trim(), "for {:?}", s);
    }
}

#[test]
fn lines_are_what_std_says() {
    for s in [
        "",
        "\n",
        "a",
        "a\n",
        "a\nb",
        "a\r\nb\r\n",
        "a\rb\n",
        "a\r",
        "\r\n",
        "\r\r\n",
        "a\n\nb\n\n",
        "\n\na",
        "a\r\n\r",
    ] {
        let expected: Vec<String> = s.lines().map(|l| l.to_string()).collect();
        assert_eq!(shown(split_lines(&c(s))), expected, "for {:?}", s);
    }
}

#[test]
fn splitting_is_what_std_says() {
    for s in ["", "|", "a", "a|b", "a||b", "|a|", "a|b|c|d|e|f", "||"] {
        let expected: Vec<String> = s.split('|').map(|l| l.to_string()).collect();
        assert_eq!(shown(split_on(&c(s), &c("|"))), expected, "for {:?}", s);
    }
    for s in ["", "\n\n", "a\n\nb", "a\n\n\nb", "a\n\n\n\nb", "a\nb\n\n", "\n", "\n\n\n"] {
        let expected: Vec<String> = s.split("\n\n").map(|l| l.to_string()).collect();
        assert_eq!(shown(split_on(&c(s), &c("\n\n"))), expected, "for {:?}", s);
    }
    assert_eq!(shown(split_on(&c("abc"), &c(""))), vec!["abc"]);
}

#[test]
fn words_are_what_std_says() {
    for s in ["", " ", "a", " a ", "a b", "M\tsrc/main.rs", "  a \t b\u{a0}c  ", "R100\told\tnew"] {
        let expected: Vec<String> = s.split_whitespace().map(|l| l.to_string()).collect();
        assert_eq!(shown(split_words(&c(s))), expected, "for {:?}", s);
    }
}

#[test]
fn replacing_is_what_std_says() {
    for s in ["", "a", "\r\n", "a\r\nb\r\n", "\r\r\n", "\r\n\n", "\n\r", "a\rb"] {
        let got: String = replace(&c(s), &c("\r\n"), &c("\n")).into_iter().collect();
        assert_eq!(got, s.replace("\r\n", "\n"), "for {:?}", s);
    }
    let got: String = replace(&c("aaa"), &c("aa"), &c("b")).into_iter().collect();
    assert_eq!(got, "ba");
    let same_text: String = replace(&c("abc"), &c(""), &c("x")).into_iter().collect();
    assert_eq!(same_text, "abc");
}

#[test]
fn joining_puts_the_separator_between() {
    let a = c("a");
    let b = c("");
    let d = c("cd");
    let items: Vec<&[char]> = vec![&a, &b, &d];
    assert_eq!(join(&items, 0, 3, &c("|")), "a||cd");
    assert_eq!(join(&items, 1, 3, &c(", ")), ", cd");
    assert_eq!(join(&items, 2, 3, &c("|")), "cd");
    assert_eq!(join(&items, 1, 1, &c("|")), "");
}

#[test]
fn searching_finds_the_first_place() {
    let s = c("a--b--c");
    assert_eq!(find_from(&s, 0, &c("--")), 1);
    assert_eq!(find_from(&s, 2, &c("--")), 4);
    assert_eq!(find_from(&s, 5, &c("--")), 7);
    assert_eq!(find_from(&s, 7, &c("--")), 7);
    assert_eq!(find_from(&s, 0, &c("x")), 7);
    assert!(occurs_at(&s, 1, &c("--b")));
    assert!(!occurs_at(&s, 5, &c("-c-")));
    assert!(occurs_at(&s, 7, &c("")));
    assert!(same(&c("ab"), &c("ab")));
    assert!(!same(&c("ab"), &c("abc")));
    assert!(!same(&c("ab"), &c("ac")));
    assert_eq!(strip_prefix(&c("GG-ID: x"), &c("GG-ID:")).map(|r| r.to_vec()), Some(c(" x")));
    assert_eq!(strip_prefix(&c("GG-I"), &c("GG-ID:")), None);
}

#[test]
fn order_is_that_of_strings() {
    let samples = ["", "a", "A", "ab", "b", "aa", "é", "z", "a\u{10000}", "a "];
    for x in samples {
        for y in samples {
            assert_eq!(comes_before(&c(x), &c(y)), x < y, "for {:?} and {:?}", x, y);
        }
    }
}

#[test]
fn decimals_are_written_as_std_writes_them() {
    for n in [0u64, 1, 9, 10, 11, 99, 100, 4294967295, u64::MAX] {
        let mut out = "n=".to_string();
        push_decimal(&mut out, n);
        assert_eq!(out, format!("n={}", n));
    }
}

#[test]
fn numbers_are_read_as_std_reads_them() {
    for s in [
        "", "0", "7", "+7", "-7", "-0", "+0", "007", "12a", " 1", "1 ", "+", "-", "++1", "--1",
        "4294967295", "4294967296", "18446744073709551615", "18446744073709551616",
        "9223372036854775807", "9223372036854775808", "-9223372036854775808",
        "-9223372036854775809", "١٢", "1_000",
    ] {
        assert_eq!(parse_i64(&c(s)), s.parse::<i64>().ok(), "i64 for {:?}", s);
        assert_eq!(parse_unsigned(&c(s), u64::MAX), s.parse::<u64>().ok(), "u64 for {:?}", s);
        assert_eq!(
            parse_unsigned(&c(s), u32::MAX as u64),
            s.parse::<u32>().ok().map(|n| n as u64),
            "u32 for {:?}",
            s
        );
    }
}
