use sshdash::listing::{is_proper_name, listable_entries, shown_entry, RemoteEntry};
use sshdash::order::{arrange, is_key_less, is_lex_less, sort_order, SortKey};
use sshdash::paths::{child_path, completed_path, parent_path};
use sshdash::size_text::{decimal_text, size_in_kb};
use sshdash::text::{chars_of, starts_with, text_of};

fn key(is_dir: bool, name: &str) -> SortKey {
    SortKey { is_dir, name: name.chars().collect() }
}

#[test]
fn sizes_print_as_double_quotients() {
    let mut sizes: Vec<u64> = vec![
        0, 1, 51, 52, 256, 768, 1023, 102656, 103168, u64::MAX, u64::MAX - 1, 1 << 53,
        (1 << 53) + 1, (1 << 53) + 3, (1 << 63) + 1024, (1 << 63) + 1025, (1 << 63) + 3072,
    ];
    let mut seed: u64 = 99;
    for _ in 0..20000 {
        seed = seed.wrapping_mul(6364136223846793005).wrapping_add(1442695040888963407);
        sizes.push(seed >> (seed % 64));
        sizes.push(102400 + (seed >> 40));
    }
    for size in sizes {
        assert_eq!(size_in_kb(size), format!("{:.1}", size as f64 / 1024.0));
    }
}

#[test]
fn shown_sizes_round_ties_to_even() {
    assert_eq!(size_in_kb(102656), "100.2");
    assert_eq!(size_in_kb(103168), "100.8");
    assert_eq!(size_in_kb(u64::MAX), "18014398509481984.0");
}

#[test]
fn decimals_have_no_leading_zeros() {
    assert_eq!(decimal_text(0), "0");
    assert_eq!(decimal_text(9), "9");
    assert_eq!(decimal_text(10), "10");
    assert_eq!(decimal_text(u64::MAX), u64::MAX.to_string());
}

#[test]
fn texts_are_taken_apart_and_put_together() {
    let chars = chars_of("a\u{e4}\u{1f4c1}");
    assert_eq!(chars, vec!['a', '\u{e4}', '\u{1f4c1}']);
    assert_eq!(text_of(&chars, 0, 3), "a\u{e4}\u{1f4c1}");
    assert_eq!(text_of(&chars, 1, 2), "\u{e4}");
    assert_eq!(text_of(&chars, 2, 2), "");
}

#[test]
fn prefixes() {
    assert!(starts_with("local", "lo"));
    assert!(starts_with("local", ""));
    assert!(starts_with("lo", "lo"));
    assert!(!starts_with("l", "lo"));
    assert!(!starts_with("local", "ol"));
}

#[test]
fn names_are_ordered_by_code_points() {
    let less = |a: &str, b: &str| is_lex_less(&chars_of(a), &chars_of(b));
    assert!(less("", "a"));
    assert!(less("a", "aa"));
    assert!(less("ab", "b"));
    assert!(less("z", "\u{e4}"));
    assert!(less("\u{ffff}", "\u{1f4c1}"));
    assert!(!less("a", "a"));
    assert!(!less("b", "ab"));
}

#[test]
fn directories_are_ordered_before_files() {
    assert!(is_key_less(&key(true, "z"), &key(false, "a")));
    assert!(!is_key_less(&key(false, "a"), &key(true, "z")));
    assert!(is_key_less(&key(false, "a"), &key(false, "b")));
}

#[test]
fn equal_keys_keep_their_order() {
    let keys = vec![key(false, "b"), key(false, "a"), key(true, "b"), key(false, "a")];
    let order = sort_order(&keys);
    assert_eq!(order, vec![2, 1, 3, 0]);
    assert_eq!(arrange(vec!["w", "x", "y", "z"], &order), vec!["y", "x", "z", "w"]);
}

#[test]
fn paths_are_joined_and_cut() {
    assert_eq!(child_path("/a//", "b"), "/a/b");
    assert_eq!(child_path("/", "b"), "/b");
    assert_eq!(child_path("", "b"), "/b");
    assert_eq!(parent_path("/a/b"), "/a");
    assert_eq!(parent_path("/"), "/");
    assert_eq!(completed_path("/a", "b", false), "/a/b");
    assert_eq!(completed_path("/a/", "b", true), "/a/b/");
    assert_eq!(completed_path("", "b", false), "/b");
}

#[test]
fn dot_entries_are_not_proper() {
    assert!(!is_proper_name("."));
    assert!(!is_proper_name(".."));
    assert!(is_proper_name("..."));
    assert!(is_proper_name(".x"));
    assert!(is_proper_name(""));
}

#[test]
fn entries_are_shown_with_defaults() {
    let bare = RemoteEntry { name: "n".to_string(), size: None, permissions: None };
    let shown = shown_entry(bare);
    assert_eq!((shown.name.as_str(), shown.is_dir, shown.size), ("n", false, 0));
    assert_eq!(shown.permissions, "---------");
    let dir = RemoteEntry { name: "d".to_string(), size: Some(7), permissions: Some(0o040700) };
    let listed = listable_entries(vec![dir]);
    assert!(listed[0].is_dir);
    assert_eq!(listed[0].size, 7);
    assert_eq!(listed[0].permissions, "rwx------");
}
