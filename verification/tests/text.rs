use aistatus::string_map::StringMap;
use aistatus::text;

#[test]
fn texts_are_trimmed_as_std_does() {
    for s in ["", " ", "a", " a ", "\u{3000}a b\u{2028}", "\t\r\n", "\u{200b}x", "x\u{85}"] {
        assert_eq!(text::trim(s), s.trim());
    }
    for u in 0u32..0x3100 {
        if let Some(c) = char::from_u32(u) {
            let s = c.to_string();
            assert_eq!(text::trim(&s).is_empty(), c.is_whitespace());
            assert_eq!(text::to_ascii_lowercase(&s), s.to_ascii_lowercase());
        }
    }
}

#[test]
fn parts_are_found_and_replaced_as_std_does() {
    let samples = ["", "a", "aa", "aaa", "abab", "config.toml", "config.tomlconfig.toml", "über"];
    for s in samples {
        for part in ["", "a", "aa", "ab", "config.toml", "ü"] {
            assert_eq!(text::contains(s, part), s.contains(part));
            assert_eq!(text::starts_with(s, part), s.starts_with(part));
            if !part.is_empty() {
                assert_eq!(text::replace(s, part, "-x-"), s.replace(part, "-x-"));
            }
        }
        for other in samples {
            assert_eq!(text::precedes(s, other), s < other);
            assert_eq!(text::same(s, other), s == other);
        }
    }
}

#[test]
fn numbers_are_read_and_written_as_std_does() {
    for s in [
        "", "+", "-", "0", "007", "+5", "++5", "-1", "1_0", " 1", "18446744073709551615",
        "18446744073709551616", "99999999999999999999", "12a", "٣",
    ] {
        assert_eq!(text::parse_u64(s), s.parse::<u64>().ok(), "{}", s);
    }
    for n in [0u64, 9, 10, 99, 100, 12345, u64::MAX] {
        assert_eq!(text::from_u64(n), n.to_string());
        assert_eq!(text::parse_u64(&text::from_u64(n)), Some(n));
    }
}

#[test]
fn lines_are_joined() {
    let lines = |v: &[&str]| v.iter().map(|s| s.to_string()).collect::<Vec<String>>();
    for v in [&[][..], &[""], &["a"], &["", ""], &["a", "b", ""]] {
        assert_eq!(text::join_lines(&lines(v)), v.join("\n"));
    }
    assert_eq!(text::repeat('=', 3), "===");
    assert_eq!(text::repeat('=', 0), "");
}

#[test]
fn maps_keep_their_keys_in_order() {
    let mut map: StringMap<u64> = StringMap::new();
    assert!(map.is_empty());
    map.insert("b".to_owned(), 1);
    map.insert("a".to_owned(), 2);
    map.insert("ab".to_owned(), 3);
    map.insert("b".to_owned(), 4);
    assert_eq!(map.len(), 3);
    assert_eq!(map.key_at(0), "a");
    assert_eq!(map.key_at(1), "ab");
    assert_eq!(map.key_at(2), "b");
    assert_eq!(map.value_at(2), &4);
    assert_eq!(map.get("ab"), Some(&3));
    assert_eq!(map.get("c"), None);
    assert_eq!(map.position("b"), Some(2));
    assert_eq!(map.position("c"), None);
    assert_eq!(map.clone(), map);
}

#[test]
fn a_clone_of_a_map_has_its_entries() {
    let mut map: StringMap<String> = StringMap::new();
    map.insert("b".to_owned(), "two".to_owned());
    map.insert("a".to_owned(), "one".to_owned());
    let copy = map.clone();
    assert_eq!(copy, map);
    map.insert("a".to_owned(), "changed".to_owned());
    assert_eq!(copy.len(), 2);
    assert_eq!(copy.get("a").map(String::as_str), Some("one"));
    assert_eq!(copy.get("b").map(String::as_str), Some("two"));
}
