use dbot::text::{
    byte_len, contains_char, contains_text, decimal_text, eq_ignore_ascii_case, replace_text,
    same_text, split_words, starts_with, strip_prefix, trim, white_space,
};

const SAMPLES: [&str; 9] = [
    "",
    "hola",
    "  hola\t mundo \n",
    " \u{a0}\u{2003}",
    "<@1><@<@1>1>",
    "aaaa",
    "ÄÖÜ ß İ",
    "\u{3000}una palabra\u{85}larga ",
    "../etc/..",
];

#[test]
fn white_space_is_that_of_the_standard_library() {
    for u in 0u32..0x11_0000 {
        if let Some(c) = char::from_u32(u) {
            assert_eq!(white_space(c), c.is_whitespace(), "{u:x}");
        }
    }
}

#[test]
fn trimming_and_words_agree_with_the_standard_library() {
    for s in SAMPLES {
        assert_eq!(trim(s), s.trim());
        let words: Vec<String> = s.split_whitespace().map(|w| w.to_string()).collect();
        assert_eq!(split_words(s), words);
        assert_eq!(byte_len(s), s.len());
    }
}

#[test]
fn searching_and_replacing_agree_with_the_standard_library() {
    for s in SAMPLES {
        for p in ["a", "aa", "<@1>", "..", " ", "hola", "ß"] {
            assert_eq!(contains_text(s, p), s.contains(p));
            assert_eq!(starts_with(s, p), s.starts_with(p));
            assert_eq!(strip_prefix(s, p), s.strip_prefix(p).map(|r| r.to_string()));
            for w in ["", "x", "aa"] {
                assert_eq!(replace_text(s, p, w), s.replace(p, w));
            }
        }
        for c in ['a', '/', '.', '\\', 'ß'] {
            assert_eq!(contains_char(s, c), s.contains(c));
        }
    }
}

#[test]
fn replacing_takes_occurrences_from_the_left() {
    assert_eq!(replace_text("<@<@1>1>", "<@1>", ""), "<@1>");
    assert_eq!(replace_text("aaa", "aa", "b"), "ba");
}

#[test]
fn numbers_are_written_in_decimal() {
    for n in [0, 7, 10, 99, 100, 1206341039548403764, u64::MAX] {
        assert_eq!(decimal_text(n), n.to_string());
    }
    assert_ne!(decimal_text(10), decimal_text(100));
}

#[test]
fn case_is_ignored_for_ascii_letters_only() {
    for a in ["Boing", "boing", "ÄH", "äh", "a1-Z", "@[`{", "A"] {
        for b in ["BOING", "bOiNg", "äH", "A1-z", "`{@[", "a", "aa"] {
            assert_eq!(eq_ignore_ascii_case(a, b), a.eq_ignore_ascii_case(b), "{a} {b}");
        }
    }
    assert!(same_text("join", "join"));
    assert!(!same_text("join", "Join"));
}
