use autosprint_mcbe::bytes::{find_byte, text_until_zero, until_zero};
use autosprint_mcbe::text::{
    characters, contains, contains_case_insensitive, eq_ignore_ascii_case, integer_text,
    lowered_characters, parse_i32, same_text, strip_prefix, trim,
};

fn trimmed(s: &str) -> String {
    trim(&characters(s)).iter().collect()
}

fn number(s: &str) -> Option<i32> {
    parse_i32(&characters(s))
}

#[test]
fn case_insensitive_search() {
    assert!(contains_case_insensitive("C:\\Games\\MinecraftPE\\options.txt", "minecraftpe"));
    assert!(contains_case_insensitive("minecraftpe", "MINECRAFTPE"));
    assert!(!contains_case_insensitive("minecraft", "minecraftpe"));
    assert!(!contains_case_insensitive("", "a"));
}

#[test]
fn empty_needle_is_never_contained() {
    assert!(!contains_case_insensitive("anything", ""));
    assert!(!contains_case_insensitive("", ""));
    // The plain search does find it.
    assert!(contains(&characters("anything"), &[]));
}

#[test]
fn plain_search_agrees_with_std() {
    let texts = ["", "a", "ab", "aab", "abab", "\u{e9}ab", "ba\u{1f600}b"];
    for t in texts {
        for n in texts {
            assert_eq!(contains(&characters(t), &characters(n)), t.contains(n), "{t:?} {n:?}");
        }
    }
}

#[test]
fn only_ascii_letters_are_folded() {
    let all: String = (0u32..0x300).filter_map(char::from_u32).collect();
    let low: String = lowered_characters(&all).iter().collect();
    assert_eq!(low, all.to_ascii_lowercase());
    assert!(eq_ignore_ascii_case("OPTIONS.txt", "options.TXT"));
    assert!(!eq_ignore_ascii_case("\u{c9}", "\u{e9}"));
    assert!(!eq_ignore_ascii_case("a", "ab"));
    // Folding twice is folding once.
    let twice: String = lowered_characters(&low).iter().collect();
    assert_eq!(twice, low);
}

#[test]
fn longer_text_keeps_an_occurrence() {
    for (before, after) in [("", ""), ("xx", ""), ("", "yy"), ("mo", "jang")] {
        let text = format!("{before}mojang{after}");
        assert!(contains(&characters(&text), &characters("mojang")));
    }
}

#[test]
fn trimming_agrees_with_std_on_every_character() {
    for v in 0u32..=0x10ffff {
        if let Some(c) = char::from_u32(v) {
            assert_eq!(trim(&[c]).is_empty(), c.is_whitespace(), "{v:#x}");
        }
    }
    assert_eq!(trimmed(" \t 1 2\r\n"), "1 2");
    assert_eq!(trimmed("\u{3000}x\u{a0}"), "x");
    assert_eq!(trimmed(" \n "), "");
    assert_eq!(trimmed(""), "");
}

#[test]
fn numbers_are_read_as_std_reads_them() {
    let cases = [
        "0", "-0", "+0", "7", "+7", "-7", "007", "87", "2147483647", "2147483648", "-2147483648",
        "-2147483649", "99999999999999999999999999", "", "+", "-", "--1", "+-1", "1-", "1 ", " 1",
        "1.0", "0x10", "\u{661}", "a",
    ];
    for s in cases {
        assert_eq!(number(s), s.parse::<i32>().ok(), "{s:?}");
    }
    assert_eq!(number("-2147483648"), Some(i32::MIN));
    assert_eq!(number("2147483648"), None);
}

#[test]
fn numbers_are_written_as_std_writes_them() {
    for n in [0, 1, 9, 10, 87, 100, 65535, i32::MAX, -1, -10, -87, i32::MIN] {
        assert_eq!(integer_text(n), n.to_string());
    }
}

#[test]
fn prefixes_are_stripped() {
    assert_eq!(strip_prefix("--latency=x", "--latency="), Some("x"));
    assert_eq!(strip_prefix("--latency=", "--latency="), Some(""));
    assert_eq!(strip_prefix("--latency", "--latency="), None);
    assert_eq!(strip_prefix("\u{e9}t\u{e9}", "\u{e9}"), Some("t\u{e9}"));
    assert_eq!(strip_prefix("x", ""), Some("x"));
}

#[test]
fn texts_are_compared_whole() {
    assert!(same_text("Minecraft", "Minecraft"));
    assert!(!same_text("Minecraft", "minecraft"));
    assert!(!same_text("Minecraft", "Minecraft "));
}

#[test]
fn first_byte_is_found() {
    assert_eq!(find_byte(b"ab\ncd\n", b'\n'), 2);
    assert_eq!(find_byte(b"abc", b'\n'), 3);
    assert_eq!(find_byte(b"", 0), 0);
}

#[test]
fn text_ends_at_the_first_zero() {
    assert_eq!(until_zero(b"ab\0cd\0"), Some(&b"ab"[..]));
    assert_eq!(until_zero(b"\0"), Some(&b""[..]));
    assert_eq!(until_zero(b"ab"), None);
    assert_eq!(text_until_zero("\u{e9}t\u{e9}\0x".as_bytes()), Some("\u{e9}t\u{e9}"));
    assert_eq!(text_until_zero(b"\xff\0"), None);
    assert_eq!(text_until_zero(b"ab"), None);
}
