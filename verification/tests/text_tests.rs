use rusty_dock::picker::matches_search;
use rusty_dock::text::{chars_of, clean_exec, contains_str, is_white_char, parse_exec, str_eq, string_of};

#[test]
fn white_space_matches_std() {
    for n in 0u32..0x11_0000 {
        if let Some(c) = char::from_u32(n) {
            assert_eq!(is_white_char(c), c.is_whitespace(), "code point {:x}", n);
        }
    }
}

#[test]
fn clean_exec_drops_field_codes() {
    assert_eq!(clean_exec("firefox %u"), "firefox");
    assert_eq!(clean_exec("  code   --new-window %F  "), "code --new-window");
    assert_eq!(clean_exec("%f %U"), "");
    assert_eq!(clean_exec(""), "");
    assert_eq!(clean_exec("a\tb\nc"), "a b c");
    assert_eq!(clean_exec("env X=1%  app"), "env X=1% app");
}

#[test]
fn clean_exec_agrees_with_split_whitespace() {
    let samples = ["gimp-2.10 %U", "\u{3000}x\u{2003}y %k z", "a  b", "%c", "tail%"];
    for s in samples {
        let expected: Vec<&str> = s.split_whitespace().filter(|w| !w.starts_with('%')).collect();
        assert_eq!(clean_exec(s), expected.join(" "));
    }
}

#[test]
fn parse_exec_honours_quotes() {
    assert_eq!(parse_exec("sh -c \"echo hello world\""), vec!["sh", "-c", "echo hello world"]);
    assert_eq!(parse_exec("  a   b "), vec!["a", "b"]);
    assert_eq!(parse_exec("\"\""), Vec::<String>::new());
    assert_eq!(parse_exec("x\"y z\"w"), vec!["xy zw"]);
    assert_eq!(parse_exec(""), Vec::<String>::new());
}

#[test]
fn parse_of_clean_without_quotes_gives_words() {
    let line = "  steam  -silent %U  ";
    assert_eq!(parse_exec(&clean_exec(line)), vec!["steam", "-silent"]);
    for s in ["\u{3000}x\u{2003}y %k z", "a\tb\nc %F", "", "%u"] {
        let words: Vec<&str> = s.split_whitespace().filter(|w| !w.starts_with('%')).collect();
        assert_eq!(parse_exec(&clean_exec(s)), words);
    }
}

#[test]
fn substring_search() {
    assert!(contains_str("firefox", "fox"));
    assert!(contains_str("firefox", ""));
    assert!(contains_str("", ""));
    assert!(!contains_str("fox", "firefox"));
    assert!(!contains_str("firefox", "Fox"));
    assert!(contains_str("aaab", "aab"));
}

#[test]
fn lowercase_follows_std() {
    // A lower-cased search matches a name exactly when the name lower-cased holds it.
    assert!(matches_search("FireFox", "firefox"));
    assert!(matches_search("ÄÖÜ", "äöü"));
    assert!(matches_search("already", "already"));
    assert!(!matches_search("FireFox", "FireFox"));
}

#[test]
fn string_helpers() {
    assert_eq!(chars_of("héllo"), vec!['h', 'é', 'l', 'l', 'o']);
    assert_eq!(string_of(&vec!['x', 'ÿ']), "xÿ");
    assert!(str_eq("abc", "abc"));
    assert!(!str_eq("abc", "abd"));
}
