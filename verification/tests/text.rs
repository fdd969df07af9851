use plugin_host::text::{is_whitespace, same_text, starts_with, trim};

#[test]
fn whitespace_is_what_unicode_says() {
    let mut code: u32 = 0;
    while code <= 0x10FFFF {
        if let Some(c) = char::from_u32(code) {
            assert_eq!(is_whitespace(c), c.is_whitespace(), "U+{:04X}", code);
        }
        code += 1;
    }
}

#[test]
fn whitespace_edges() {
    assert!(is_whitespace(' '));
    assert!(is_whitespace('\t'));
    assert!(is_whitespace('\n'));
    assert!(is_whitespace('\r'));
    assert!(is_whitespace('\u{0B}'));
    assert!(is_whitespace('\u{0C}'));
    assert!(is_whitespace('\u{85}'));
    assert!(is_whitespace('\u{A0}'));
    assert!(is_whitespace('\u{2000}'));
    assert!(is_whitespace('\u{200A}'));
    assert!(is_whitespace('\u{3000}'));
    assert!(!is_whitespace('\u{08}'));
    assert!(!is_whitespace('\u{0E}'));
    assert!(!is_whitespace('\u{200B}'));
    assert!(!is_whitespace('\u{1FFF}'));
    assert!(!is_whitespace('a'));
    assert!(!is_whitespace('\0'));
}

#[test]
fn trim_takes_both_ends() {
    assert_eq!(trim("  exit \n"), "exit");
    assert_eq!(trim("exit\n"), "exit");
    assert_eq!(trim("exit\r\n"), "exit");
    assert_eq!(trim("\t echo hello  "), "echo hello");
    assert_eq!(trim("exit now"), "exit now");
}

#[test]
fn trim_keeps_inner_space() {
    assert_eq!(trim(" a  b \t c "), "a  b \t c");
}

#[test]
fn trim_of_nothing_but_space_is_empty() {
    assert_eq!(trim(""), "");
    assert_eq!(trim(" "), "");
    assert_eq!(trim("\n"), "");
    assert_eq!(trim(" \t\r\n\u{3000}\u{A0}"), "");
}

#[test]
fn trim_knows_wide_characters() {
    assert_eq!(trim("\u{3000}\u{e9}t\u{e9}\u{2003}"), "\u{e9}t\u{e9}");
    assert_eq!(trim("\u{200B}x\u{200B}"), "\u{200B}x\u{200B}");
    assert_eq!(trim(" \u{1F600} "), "\u{1F600}");
}

#[test]
fn trim_agrees_with_std() {
    let samples = [
        "",
        " ",
        "exit",
        " exit",
        "exit ",
        "\n\nexit\n\n",
        "  plugin1\r\n",
        "echo  two  words \t",
        "\u{85}next line\u{85}",
        "\u{1680}ogham\u{1680}",
        "\u{2028}line\u{2029}",
        "\u{202F}narrow\u{205F}",
        "no space at all",
        " \u{feff}bom ",
    ];
    for sample in samples.iter() {
        assert_eq!(trim(sample), sample.trim(), "{:?}", sample);
    }
}

#[test]
fn trim_twice_is_trim_once() {
    let samples = ["  a b  ", "\t\n", "exit\n", " \u{3000}x y\u{3000} "];
    for sample in samples.iter() {
        assert_eq!(trim(trim(sample)), trim(sample));
    }
}

#[test]
fn same_text_compares_every_character() {
    assert!(same_text("", ""));
    assert!(same_text("exit", "exit"));
    assert!(!same_text("exit", "exiT"));
    assert!(!same_text("exit", "Exit"));
    assert!(!same_text("exit", "exit "));
    assert!(!same_text("exit", "exi"));
    assert!(!same_text("", "x"));
    assert!(same_text("\u{e9}t\u{e9}", "\u{e9}t\u{e9}"));
    assert!(!same_text("\u{e9}", "e"));
}

#[test]
fn starts_with_needs_the_whole_prefix() {
    assert!(starts_with("echo hello", "echo "));
    assert!(starts_with("echo ", "echo "));
    assert!(starts_with("anything", ""));
    assert!(starts_with("", ""));
    assert!(!starts_with("echo", "echo "));
    assert!(!starts_with("ech", "echo "));
    assert!(!starts_with("Echo hello", "echo "));
    assert!(!starts_with(" echo hello", "echo "));
    assert!(!starts_with("", "echo "));
    assert!(starts_with("\u{e9}cho", "\u{e9}"));
}
