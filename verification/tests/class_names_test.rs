use leptos_animated_for::class_names::{
    is_valid_class_name, is_white_space_char, parse_class_prop, split_words,
};

fn strings(v: &[&str]) -> Vec<String> {
    v.iter().map(|s| s.to_string()).collect()
}

#[test]
fn white_space_agrees_with_std() {
    for u in 0u32..=0x10FFFF {
        if let Some(c) = char::from_u32(u) {
            assert_eq!(is_white_space_char(c), c.is_whitespace(), "U+{:04X}", u);
        }
    }
}

#[test]
fn split_words_matches_split_whitespace() {
    let cases = [
        "",
        "   ",
        "a",
        "  fade-enter  opacity-0 ",
        "a\tb\nc\r\nd\x0Ce",
        "x\u{A0}y\u{3000}z\u{2028}w",
        "bg-red-500/70 rounded flex",
        "é ü\u{1680}ß",
        "a  a",
    ];
    for s in cases {
        let expected: Vec<String> = s.split_whitespace().map(|w| w.to_owned()).collect();
        assert_eq!(split_words(s), expected, "{:?}", s);
    }
}

#[test]
fn absent_prop_gives_no_class() {
    assert_eq!(parse_class_prop(&None), Vec::<String>::new());
}

#[test]
fn prop_is_split_into_class_names() {
    let raw = Some("  opacity-0   scale-50\ttranslate-y-2 ".to_string());
    assert_eq!(parse_class_prop(&raw), strings(&["opacity-0", "scale-50", "translate-y-2"]));
}

#[test]
fn blank_prop_gives_no_class() {
    assert_eq!(parse_class_prop(&Some(" \n\t ".to_string())), Vec::<String>::new());
}

#[test]
fn valid_class_names() {
    assert!(is_valid_class_name("opacity-0"));
    assert!(is_valid_class_name("bg-red-500/70"));
    assert!(is_valid_class_name("x\u{A0}y"));
    assert!(!is_valid_class_name(""));
    assert!(!is_valid_class_name("a b"));
    assert!(!is_valid_class_name("a\tb"));
    assert!(!is_valid_class_name("\x0C"));
}
