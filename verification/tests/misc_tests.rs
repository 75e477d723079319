use dap_session::client::DAPClient;
use dap_session::ports::find_available_port;
use dap_session::session::{generate_token, token_from_bytes, SessionManager};
use dap_session::text::{chars_of, decimal_text, join, starts_with, str_eq, trim_text, white};
use dap_session::listing::{
    compare_bytes, compare_entries, is_after, sort_entries, FileEntry, Precedence,
};
use std::cell::RefCell;

#[test]
fn token_writes_each_byte_in_hex_without_padding() {
    assert_eq!(token_from_bytes(&[]), "");
    assert_eq!(token_from_bytes(&[0]), "0");
    assert_eq!(token_from_bytes(&[9, 10, 15, 16, 17, 255]), "9af1011ff");
    assert_eq!(token_from_bytes(&[0xab, 0x0c, 0xd0]), "abcd0");
}

#[test]
fn generated_token_is_hex_of_16_bytes() {
    for _ in 0..50 {
        let token = generate_token();
        assert!(token.len() >= 16 && token.len() <= 32, "{}", token);
        assert!(token.chars().all(|c| c.is_ascii_digit() || ('a'..='f').contains(&c)), "{}", token);
    }
}

#[test]
fn generated_tokens_differ() {
    let tokens: Vec<String> = (0..20).map(|_| generate_token()).collect();
    for i in 0..tokens.len() {
        for j in 0..i {
            assert_ne!(tokens[i], tokens[j]);
        }
    }
}

#[test]
fn sessions_are_found_by_token() {
    let mut manager = SessionManager::new();
    assert!(manager.get_session("abc").is_none());
    let mut used = DAPClient::new();
    used.initialize().unwrap();
    let first = manager.create_session(used);
    let second = manager.create_session(DAPClient::new());
    assert_ne!(first, second);
    let found = manager.get_session(&first).unwrap();
    assert_eq!(found.token, first);
    assert_eq!(found.client.next_sequence(), Some(2));
    assert!(!found.configuration_done_sent);
    let found = manager.get_session(&second).unwrap();
    assert_eq!(found.token, second);
    assert_eq!(found.client.next_sequence(), Some(1));
    assert!(manager.get_session("").is_none());
}

#[test]
fn removed_session_is_gone() {
    let mut manager = SessionManager::new();
    let first = manager.create_session(DAPClient::new());
    let second = manager.create_session(DAPClient::new());
    let removed = manager.remove_session(&first).unwrap();
    assert_eq!(removed.token, first);
    assert!(manager.get_session(&first).is_none());
    assert!(manager.get_session(&second).is_some());
    assert!(manager.remove_session(&first).is_none());
    assert!(manager.remove_session("never").is_none());
    assert!(manager.get_session(&second).is_some());
}

#[test]
fn port_search_takes_the_first_free_port() {
    let probed = RefCell::new(Vec::new());
    let found = find_available_port(5678, |p| {
        probed.borrow_mut().push(p);
        p >= 5681
    });
    assert_eq!(found, Some(5681));
    assert_eq!(*probed.borrow(), vec![5678, 5679, 5680, 5681]);
}

#[test]
fn port_search_starts_at_the_given_port() {
    assert_eq!(find_available_port(9123, |_| true), Some(9123));
    assert_eq!(find_available_port(0, |p| p == 3), Some(3));
}

#[test]
fn port_search_ends_at_the_last_port() {
    let probed = RefCell::new(Vec::new());
    let found = find_available_port(65533, |p| {
        probed.borrow_mut().push(p);
        false
    });
    assert_eq!(found, None);
    assert_eq!(*probed.borrow(), vec![65533, 65534, 65535]);
    assert_eq!(find_available_port(65535, |p| p == 65535), Some(65535));
    assert_eq!(find_available_port(65535, |_| false), None);
}

#[test]
fn text_equality() {
    assert!(str_eq("", ""));
    assert!(str_eq("stopped", "stopped"));
    assert!(!str_eq("stopped", "stoppe"));
    assert!(!str_eq("stopped", "Stopped"));
    assert!(str_eq("é", "\u{e9}"));
    assert!(!str_eq("e\u{301}", "\u{e9}"));
}

#[test]
fn text_prefix() {
    assert!(starts_with("expr -- a", "expr "));
    assert!(starts_with("expr ", "expr "));
    assert!(!starts_with("expr", "expr "));
    assert!(starts_with("anything", ""));
    assert!(starts_with("", ""));
    assert!(!starts_with("", "a"));
    assert!(starts_with("éa", "é"));
    assert!(!starts_with("ea", "é"));
}

#[test]
fn characters_of_a_text() {
    assert_eq!(chars_of("aé✓"), vec!['a', 'é', '✓']);
    assert_eq!(chars_of(""), Vec::<char>::new());
}

#[test]
fn white_space_is_unicode_white_space() {
    for c in ['\t', '\n', '\u{b}', '\u{c}', '\r', ' ', '\u{85}', '\u{a0}', '\u{1680}', '\u{2000}',
        '\u{200a}', '\u{2028}', '\u{2029}', '\u{202f}', '\u{205f}', '\u{3000}']
    {
        assert!(white(c), "{:?}", c);
    }
    for c in ['a', '0', '\u{8}', '\u{e}', '\u{1f}', '\u{200b}', '\u{180e}', '\u{feff}', '\u{2060}'] {
        assert!(!white(c), "{:?}", c);
    }
    for u in 0..0x3100u32 {
        if let Some(c) = char::from_u32(u) {
            assert_eq!(white(c), c.is_whitespace(), "{:x}", u);
        }
    }
}

#[test]
fn trim_text_matches_std() {
    for s in ["", " ", "  a  ", "\ta b\n", "\u{a0}x\u{3000}", "x", " \u{200b} ", "é ", "\r\n"] {
        assert_eq!(trim_text(s), s.trim(), "{:?}", s);
    }
}

#[test]
fn decimal_text_of_numbers() {
    assert_eq!(decimal_text(0), "0");
    assert_eq!(decimal_text(7), "7");
    assert_eq!(decimal_text(10), "10");
    assert_eq!(decimal_text(5678), "5678");
    assert_eq!(decimal_text(u64::MAX), "18446744073709551615");
}

#[test]
fn joined_texts() {
    assert_eq!(join("expr -- ", "a"), "expr -- a");
    assert_eq!(join("", ""), "");
}

fn entry(name: &str, is_dir: bool) -> FileEntry {
    FileEntry {
        name: name.to_string(),
        path: format!("/work/{}", name),
        content: if is_dir { None } else { Some(format!("content of {}", name)) },
        is_dir,
    }
}

#[test]
fn names_are_compared_by_their_bytes() {
    assert_eq!(compare_bytes(b"", b""), Precedence::Same);
    assert_eq!(compare_bytes(b"", b"a"), Precedence::Before);
    assert_eq!(compare_bytes(b"a", b""), Precedence::After);
    assert_eq!(compare_bytes(b"abc", b"abd"), Precedence::Before);
    assert_eq!(compare_bytes(b"abc", b"ab"), Precedence::After);
    assert_eq!(compare_bytes(b"Z", b"a"), Precedence::Before);
    assert_eq!(compare_bytes("é".as_bytes(), b"z"), Precedence::After);
    assert_eq!(compare_bytes(b"same", b"same"), Precedence::Same);
}

#[test]
fn directories_come_before_files() {
    assert_eq!(compare_entries(&entry("z", true), &entry("a", false)), Precedence::Before);
    assert_eq!(compare_entries(&entry("a", false), &entry("z", true)), Precedence::After);
    assert_eq!(compare_entries(&entry("a", true), &entry("b", true)), Precedence::Before);
    assert_eq!(compare_entries(&entry("b", false), &entry("a", false)), Precedence::After);
    assert_eq!(compare_entries(&entry("a", false), &entry("a", false)), Precedence::Same);
    assert!(is_after(&entry("b", false), &entry("a", false)));
    assert!(!is_after(&entry("a", false), &entry("a", false)));
}

#[test]
fn listing_is_sorted_like_a_stable_sort() {
    let names = [
        ("src", true),
        ("main.rs", false),
        ("Cargo.toml", false),
        ("target", true),
        ("a", false),
        ("README.md", false),
        (".git", true),
        ("a", true),
        ("é.txt", false),
    ];
    let entries: Vec<_> = names.iter().map(|(n, d)| entry(n, *d)).collect();
    let sorted = sort_entries(entries);
    let got: Vec<(&str, bool)> = sorted.iter().map(|e| (e.name.as_str(), e.is_dir)).collect();
    assert_eq!(
        got,
        vec![
            (".git", true),
            ("a", true),
            ("src", true),
            ("target", true),
            ("Cargo.toml", false),
            ("README.md", false),
            ("a", false),
            ("main.rs", false),
            ("é.txt", false),
        ]
    );
    assert_eq!(sorted[4].path, "/work/Cargo.toml");
    assert_eq!(sorted[4].content.as_deref(), Some("content of Cargo.toml"));
}

#[test]
fn equal_entries_keep_their_order() {
    let mut entries = Vec::new();
    for (i, name) in ["b", "a", "b", "a", "b"].iter().enumerate() {
        entries.push(FileEntry {
            name: name.to_string(),
            path: format!("{}", i),
            content: None,
            is_dir: false,
        });
    }
    let mut by_std: Vec<(String, String)> =
        entries.iter().map(|e| (e.name.clone(), e.path.clone())).collect();
    by_std.sort_by(|a, b| a.0.cmp(&b.0));
    let sorted: Vec<(String, String)> =
        sort_entries(entries).into_iter().map(|e| (e.name, e.path)).collect();
    assert_eq!(sorted, by_std);
    assert_eq!(sort_entries(vec![]), vec![]);
}
