use netd::text::{char_is_space, copy_texts, push_decimal, same_text, split_tokens, trim};

fn decimal_text(n: u64) -> String {
    let mut s = String::new();
    push_decimal(&mut s, n);
    s
}

fn owned(words: &[&str]) -> Vec<String> {
    words.iter().map(|w| w.to_string()).collect()
}

#[test]
fn tokens_are_the_runs_between_white_space() {
    assert_eq!(split_tokens("default via 10.0.0.1 dev eth0"), owned(&["default", "via", "10.0.0.1", "dev", "eth0"]));
    assert_eq!(split_tokens("  a\t\tb\nc  "), owned(&["a", "b", "c"]));
    assert_eq!(split_tokens("one"), owned(&["one"]));
}

#[test]
fn tokens_of_nothing_are_none() {
    assert_eq!(split_tokens(""), Vec::<String>::new());
    assert_eq!(split_tokens(" \n\t "), Vec::<String>::new());
}

#[test]
fn tokens_agree_with_split_whitespace() {
    let samples = [
        "2: eth0: <BROADCAST,MULTICAST,UP,LOWER_UP> mtu 1500\n    link/ether 52:54:00:12:34:56 brd ff:ff:ff:ff:ff:ff\n    alias \"CONFIGURED\"\n",
        "a\u{a0}b\u{2003}c\u{3000}d\u{85}e",
        "\u{1680}x\u{2028}y\u{2029}z\u{202f}w\u{205f}",
        "tab\there\u{b}and\u{c}there\r\n",
        "no-space",
        "zero\u{200b}width is no space",
    ];
    for s in samples {
        let expected: Vec<String> = s.split_whitespace().map(|w| w.to_string()).collect();
        assert_eq!(split_tokens(s), expected);
    }
}

#[test]
fn white_space_is_what_char_says() {
    for code in 0u32..0x3100 {
        if let Some(c) = char::from_u32(code) {
            assert_eq!(char_is_space(c), c.is_whitespace(), "U+{:04X}", code);
        }
    }
}

#[test]
fn trim_takes_both_ends() {
    assert_eq!(trim("  reset \n"), "reset");
    assert_eq!(trim("reload"), "reload");
    assert_eq!(trim("\t a b \t"), "a b");
    assert_eq!(trim("   "), "");
    assert_eq!(trim(""), "");
    assert_eq!(trim("\u{a0}x\u{3000}"), "x");
}

#[test]
fn decimal_of_numbers() {
    assert_eq!(decimal_text(0), "0");
    assert_eq!(decimal_text(7), "7");
    assert_eq!(decimal_text(10), "10");
    assert_eq!(decimal_text(24), "24");
    assert_eq!(decimal_text(3600), "3600");
    assert_eq!(decimal_text(65535), "65535");
    assert_eq!(decimal_text(u64::MAX), "18446744073709551615");
}

#[test]
fn decimal_is_appended() {
    let mut s = String::from("10.0.0.1/");
    push_decimal(&mut s, 24);
    assert_eq!(s, "10.0.0.1/24");
}

#[test]
fn same_text_compares_characters() {
    assert!(same_text("CONFIGURED", "CONFIGURED"));
    assert!(!same_text("CONFIGURED", "CONFIGURING"));
    assert!(!same_text("", "x"));
    assert!(same_text("", ""));
}

#[test]
fn copies_hold_the_same_strings() {
    let v = owned(&["a", "bc", ""]);
    assert_eq!(copy_texts(&v), v);
}

#[test]
fn trim_agrees_with_str_trim() {
    let samples = [
        "reset",
        " reset",
        "reset ",
        "\n\treload\r\n",
        "\u{2003}a b\u{85}",
        "   ",
        "",
        "a",
        " a b  c ",
        "\u{200b}x\u{200b}",
    ];
    for s in samples {
        assert_eq!(trim(s), s.trim(), "{:?}", s);
    }
}
