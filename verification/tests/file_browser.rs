use sshdash::file_browser::{
    complete_goto, complete_listing, complete_read, enter_directory, fetch_goto_suggestions, go_up,
    permissions_string, read_file, refresh_listing, show_file, split_goto_input, FileBrowserState,
    FileEntry, ListReply, ReadReply, RemoteEntry,
};
use sshdash::listing::sort_entries;

fn entry(name: &str, is_dir: bool, size: u64) -> FileEntry {
    FileEntry { name: name.to_string(), is_dir, size, permissions: "rw-r--r--".to_string() }
}

fn remote(name: &str, permissions: u32) -> RemoteEntry {
    RemoteEntry { name: name.to_string(), size: Some(10), permissions: Some(permissions) }
}

fn names(entries: &Vec<FileEntry>) -> Vec<String> {
    entries.iter().map(|e| e.name.clone()).collect()
}

#[test]
fn test_permissions_string_755() {
    assert_eq!(permissions_string(0o755), "rwxr-xr-x");
}

#[test]
fn test_permissions_string_644() {
    assert_eq!(permissions_string(0o644), "rw-r--r--");
}

#[test]
fn test_permissions_string_700() {
    assert_eq!(permissions_string(0o700), "rwx------");
}

#[test]
fn test_permissions_string_000() {
    assert_eq!(permissions_string(0o000), "---------");
}

#[test]
fn test_permissions_string_777() {
    assert_eq!(permissions_string(0o777), "rwxrwxrwx");
}

#[test]
fn permissions_use_the_lower_nine_bits_only() {
    assert_eq!(permissions_string(0o104751), permissions_string(0o751));
    assert_eq!(permissions_string(0o751), "rwxr-x--x");
    assert_eq!(permissions_string(u32::MAX), "rwxrwxrwx");
}

#[test]
fn test_file_browser_state_new() {
    let state = FileBrowserState::new("/home/user".to_string());
    assert_eq!(state.current_path, "/home/user");
    assert!(state.entries.is_empty());
    assert_eq!(state.selected, 0);
    assert!(!state.loading);
    assert!(state.error.is_none());
    assert!(state.file_content.is_none());
    assert!(state.viewing_file.is_none());
    assert!(!state.search_mode);
    assert!(state.search_query.is_empty());
    assert!(!state.goto_mode);
    assert!(state.goto_path.is_empty());
    assert!(state.goto_suggestions.is_empty());
    assert_eq!(state.goto_selected, 0);
}

#[test]
fn test_close_file() {
    let mut state = FileBrowserState::new("/home/user".to_string());
    state.file_content = Some("hello".to_string());
    state.viewing_file = Some("test.txt".to_string());
    state.close_file();
    assert!(state.file_content.is_none());
    assert!(state.viewing_file.is_none());
}

#[test]
fn test_split_goto_input_absolute() {
    let (dir, prefix) = split_goto_input("/var/lo", "/home/user");
    assert_eq!(dir, "/var");
    assert_eq!(prefix, "lo");
}

#[test]
fn test_split_goto_input_trailing_slash() {
    let (dir, prefix) = split_goto_input("/etc/", "/home/user");
    assert_eq!(dir, "/etc");
    assert_eq!(prefix, "");
}

#[test]
fn test_split_goto_input_relative() {
    let (dir, prefix) = split_goto_input("lo", "/home/user");
    assert_eq!(dir, "/home/user");
    assert_eq!(prefix, "lo");
}

#[test]
fn test_split_goto_input_root() {
    let (dir, prefix) = split_goto_input("/", "/home/user");
    assert_eq!(dir, "/");
    assert_eq!(prefix, "");
}

#[test]
fn test_split_goto_input_empty() {
    let (dir, prefix) = split_goto_input("", "/home/user");
    assert_eq!(dir, "/home/user");
    assert_eq!(prefix, "");
}

#[test]
fn splitting_loses_nothing() {
    let (dir, prefix) = split_goto_input("a//\u{e4}b", "/home");
    assert_eq!((dir.as_str(), prefix.as_str()), ("a/", "\u{e4}b"));
    let (dir, prefix) = split_goto_input("/lo", "/home");
    assert_eq!((dir.as_str(), prefix.as_str()), ("/", "lo"));
}

#[test]
fn test_enter_exit_search() {
    let mut state = FileBrowserState::new("/home/user".to_string());
    state.enter_search();
    assert!(state.search_mode);
    state.search_query = "test".to_string();
    state.exit_search();
    assert!(!state.search_mode);
    assert!(state.search_query.is_empty());
}

#[test]
fn test_enter_exit_goto() {
    let mut state = FileBrowserState::new("/home/user".to_string());
    state.enter_goto();
    assert!(state.goto_mode);
    state.goto_path = "/var".to_string();
    state.exit_goto();
    assert!(!state.goto_mode);
    assert!(state.goto_path.is_empty());
    assert!(state.goto_suggestions.is_empty());
}

#[test]
fn entering_a_mode_clears_what_was_typed() {
    let mut state = FileBrowserState::new("/".to_string());
    state.search_query = "old".to_string();
    state.enter_search();
    assert!(state.search_query.is_empty());
    state.goto_path = "old".to_string();
    state.goto_suggestions = vec![entry("a", false, 0), entry("b", false, 0)];
    state.goto_selected = 1;
    state.enter_goto();
    assert!(state.goto_path.is_empty());
    assert!(state.goto_suggestions.is_empty());
    assert_eq!(state.goto_selected, 0);
}

#[test]
fn test_file_entry_sorting() {
    let entries = vec![
        FileEntry {
            name: "zebra.txt".to_string(),
            is_dir: false,
            size: 100,
            permissions: "rw-r--r--".to_string(),
        },
        FileEntry {
            name: "alpha".to_string(),
            is_dir: true,
            size: 4096,
            permissions: "rwxr-xr-x".to_string(),
        },
        FileEntry {
            name: "beta.rs".to_string(),
            is_dir: false,
            size: 200,
            permissions: "rw-r--r--".to_string(),
        },
        FileEntry {
            name: "docs".to_string(),
            is_dir: true,
            size: 4096,
            permissions: "rwxr-xr-x".to_string(),
        },
    ];

    let entries = sort_entries(entries);

    assert!(entries[0].is_dir);
    assert_eq!(entries[0].name, "alpha");
    assert!(entries[1].is_dir);
    assert_eq!(entries[1].name, "docs");
    assert!(!entries[2].is_dir);
    assert_eq!(entries[2].name, "beta.rs");
    assert!(!entries[3].is_dir);
    assert_eq!(entries[3].name, "zebra.txt");
}

#[test]
fn sorting_ignores_case_and_is_stable() {
    let entries = vec![
        entry("b", false, 1),
        entry("README", false, 2),
        entry("A", false, 3),
        entry("readme", false, 4),
        entry("Readme", false, 5),
        entry("\u{c4}", false, 6),
        entry("ab", false, 7),
    ];
    let sorted = sort_entries(entries);
    let sizes: Vec<u64> = sorted.iter().map(|e| e.size).collect();
    assert_eq!(sizes, vec![3, 7, 1, 2, 4, 5, 6]);
    let again = sort_entries(sorted);
    let sizes: Vec<u64> = again.iter().map(|e| e.size).collect();
    assert_eq!(sizes, vec![3, 7, 1, 2, 4, 5, 6]);
}

#[test]
fn sorting_agrees_with_a_stable_library_sort() {
    let mut seed: u64 = 7;
    let mut entries: Vec<FileEntry> = Vec::new();
    for i in 0..300 {
        seed = seed.wrapping_mul(6364136223846793005).wrapping_add(1442695040888963407);
        let letters = ["a", "B", "b", "\u{df}", "\u{130}", "-", "Z", ".", "\u{1f4c1}"];
        let first = letters[(seed >> 33) as usize % 9];
        let second = letters[(seed >> 40) as usize % 9];
        entries.push(entry(&format!("{first}{second}"), (seed >> 50) % 2 == 0, i));
    }
    let mut expected: Vec<(bool, String, u64)> =
        entries.iter().map(|e| (e.is_dir, e.name.clone(), e.size)).collect();
    expected.sort_by(|a, b| {
        b.0.cmp(&a.0).then_with(|| a.1.to_lowercase().cmp(&b.1.to_lowercase()))
    });
    let sorted: Vec<(bool, String, u64)> =
        sort_entries(entries).into_iter().map(|e| (e.is_dir, e.name, e.size)).collect();
    assert_eq!(sorted, expected);
}

#[test]
fn refreshing_asks_for_the_current_path() {
    let mut state = FileBrowserState::new("/srv".to_string());
    state.error = Some("old".to_string());
    let request = refresh_listing(&mut state);
    assert_eq!(request.path, "/srv");
    assert_eq!(request.timeout_secs, 5);
    assert!(state.loading);
    assert!(state.error.is_none());
}

#[test]
fn a_listing_shows_what_was_reported() {
    let mut state = FileBrowserState::new("/srv".to_string());
    state.selected = 4;
    refresh_listing(&mut state);
    let reply = vec![
        remote("zeta", 0o100644),
        remote(".", 0o040755),
        remote("..", 0o040755),
        remote("Lib", 0o040755),
        remote("...", 0o100600),
        remote("link", 0o120777),
        remote("socket", 0o140777),
        RemoteEntry { name: "bare".to_string(), size: None, permissions: None },
    ];
    complete_listing(&mut state, ListReply::Entries(reply));
    assert_eq!(names(&state.entries), vec!["Lib", "...", "bare", "link", "socket", "zeta"]);
    let dirs: Vec<bool> = state.entries.iter().map(|e| e.is_dir).collect();
    assert_eq!(dirs, vec![true, false, false, false, false, false]);
    assert_eq!(state.entries[0].permissions, "rwxr-xr-x");
    assert_eq!(state.entries[0].size, 10);
    assert_eq!(state.entries[2].permissions, "---------");
    assert_eq!(state.entries[2].size, 0);
    assert_eq!(state.selected, 0);
    assert!(!state.loading);
    assert!(state.error.is_none());
}

#[test]
fn a_failed_listing_clears_the_entries() {
    let mut state = FileBrowserState::new("/srv".to_string());
    state.entries = vec![entry("a", false, 1)];
    state.selected = 0;
    refresh_listing(&mut state);
    complete_listing(&mut state, ListReply::Failed("No such file".to_string()));
    assert_eq!(state.error.as_deref(), Some("SFTP error: No such file"));
    assert!(state.entries.is_empty());
    assert!(!state.loading);
}

#[test]
fn a_late_listing_keeps_the_entries() {
    let mut state = FileBrowserState::new("/srv".to_string());
    state.entries = vec![entry("a", false, 1), entry("b", false, 1)];
    state.selected = 1;
    refresh_listing(&mut state);
    complete_listing(&mut state, ListReply::TimedOut);
    assert_eq!(state.error.as_deref(), Some("\u{23f3} Directory listing timed out"));
    assert_eq!(names(&state.entries), vec!["a", "b"]);
    assert_eq!(state.selected, 1);
    assert!(!state.loading);
}

#[test]
fn entering_and_going_up_come_back() {
    let mut state = FileBrowserState::new("/home/user/".to_string());
    state.entries = vec![entry("docs", true, 0), entry("a.txt", false, 0)];
    assert!(enter_directory(&mut state, 2).is_none());
    assert!(enter_directory(&mut state, 1).is_none());
    assert_eq!(state.current_path, "/home/user/");
    assert!(!state.loading);
    let request = enter_directory(&mut state, 0).unwrap();
    assert_eq!(request.path, "/home/user/docs");
    assert_eq!(request.timeout_secs, 5);
    assert_eq!(state.current_path, "/home/user/docs");
    assert!(state.loading);
    complete_listing(&mut state, ListReply::TimedOut);
    let request = go_up(&mut state).unwrap();
    assert_eq!(request.path, "/home/user");
    assert_eq!(state.current_path, "/home/user");
    assert!(state.loading);
    assert!(state.error.is_none());
}

#[test]
fn climbing_ends_at_the_root() {
    let mut state = FileBrowserState::new("/a/b".to_string());
    assert_eq!(go_up(&mut state).unwrap().path, "/a");
    assert_eq!(go_up(&mut state).unwrap().path, "/");
    state.loading = false;
    assert!(go_up(&mut state).is_none());
    assert_eq!(state.current_path, "/");
    assert!(!state.loading);
}

#[test]
fn odd_paths_lead_up_to_the_root() {
    for path in ["", "//", "relative", "/a//", "a/"] {
        let mut state = FileBrowserState::new(path.to_string());
        assert_eq!(go_up(&mut state).unwrap().path, "/");
    }
    let mut state = FileBrowserState::new("a//b".to_string());
    assert_eq!(go_up(&mut state).unwrap().path, "a/");
}

#[test]
fn entering_from_the_root() {
    let mut state = FileBrowserState::new("/".to_string());
    state.entries = vec![entry("etc", true, 0)];
    assert_eq!(enter_directory(&mut state, 0).unwrap().path, "/etc");
    assert_eq!(go_up(&mut state).unwrap().path, "/");
}

#[test]
fn reading_a_file_shows_its_text() {
    let mut state = FileBrowserState::new("/etc".to_string());
    state.entries = vec![entry("motd", false, 102400)];
    state.error = Some("old".to_string());
    let request = read_file(&mut state, 0).unwrap();
    assert_eq!(request.path, "/etc/motd");
    assert_eq!(request.name, "motd");
    assert_eq!(request.timeout_secs, 3);
    assert!(state.loading);
    assert!(state.error.is_none());
    complete_read(&mut state, request.name, ReadReply::Content("gr\u{fc}n\n".as_bytes().to_vec()));
    assert_eq!(state.file_content.as_deref(), Some("gr\u{fc}n\n"));
    assert_eq!(state.viewing_file.as_deref(), Some("motd"));
    assert!(!state.loading);
    state.close_file();
    assert!(state.file_content.is_none());
    assert!(state.viewing_file.is_none());
}

#[test]
fn bytes_that_are_no_text_are_replaced() {
    let mut state = FileBrowserState::new("/".to_string());
    complete_read(&mut state, "bin".to_string(), ReadReply::Content(vec![b'a', 0xff, b'b']));
    assert_eq!(state.file_content.as_deref(), Some("a\u{fffd}b"));
}

#[test]
fn content_is_capped() {
    let mut state = FileBrowserState::new("/".to_string());
    let mut bytes = vec![b'a'; 102400];
    complete_read(&mut state, "full".to_string(), ReadReply::Content(bytes.clone()));
    assert_eq!(state.file_content.as_deref(), Some("a".repeat(102400).as_str()));
    bytes.extend_from_slice(b"bcd");
    complete_read(&mut state, "grown".to_string(), ReadReply::Content(bytes));
    assert_eq!(state.file_content.as_deref(), Some("a".repeat(102400).as_str()));
    assert_eq!(state.viewing_file.as_deref(), Some("grown"));
    assert!(state.error.is_none());
    assert!(!state.loading);
}

#[test]
fn a_character_cut_by_the_cap_is_replaced() {
    let mut state = FileBrowserState::new("/".to_string());
    let mut bytes = vec![b'a'; 102399];
    bytes.extend_from_slice("\u{fc}b".as_bytes());
    complete_read(&mut state, "grown".to_string(), ReadReply::Content(bytes));
    let expected = "a".repeat(102399) + "\u{fffd}";
    assert_eq!(state.file_content, Some(expected));
}

#[test]
fn a_shown_file_replaces_the_one_before() {
    let mut state = FileBrowserState::new("/".to_string());
    show_file(&mut state, "one".to_string(), "1".to_string());
    show_file(&mut state, "two".to_string(), "2".to_string());
    assert_eq!(state.viewing_file.as_deref(), Some("two"));
    assert_eq!(state.file_content.as_deref(), Some("2"));
}

#[test]
fn a_failed_read_reports_the_reason() {
    let mut state = FileBrowserState::new("/".to_string());
    state.loading = true;
    complete_read(&mut state, "f".to_string(), ReadReply::Failed("denied".to_string()));
    assert_eq!(state.error.as_deref(), Some("Failed to read file: denied"));
    assert!(state.file_content.is_none());
    assert!(!state.loading);
    state.loading = true;
    complete_read(&mut state, "f".to_string(), ReadReply::TimedOut);
    assert_eq!(state.error.as_deref(), Some("\u{23f3} File read timed out"));
    assert!(state.viewing_file.is_none());
    assert!(!state.loading);
}

#[test]
fn directories_and_missing_entries_are_not_read() {
    let mut state = FileBrowserState::new("/".to_string());
    state.entries = vec![entry("dir", true, 1)];
    assert!(read_file(&mut state, 0).is_none());
    assert!(read_file(&mut state, 1).is_none());
    assert!(state.error.is_none());
    assert!(!state.loading);
}

#[test]
fn large_files_are_refused() {
    let mut state = FileBrowserState::new("/".to_string());
    state.entries = vec![entry("big", false, 102401), entry("huge", false, 1536000)];
    assert!(read_file(&mut state, 0).is_none());
    assert_eq!(state.error.as_deref(), Some("File too large (100.0 KB, max 100 KB)"));
    assert!(read_file(&mut state, 1).is_none());
    assert_eq!(state.error.as_deref(), Some("File too large (1500.0 KB, max 100 KB)"));
    assert!(!state.loading);
}

#[test]
fn suggestions_match_the_prefix() {
    let mut state = FileBrowserState::new("/home".to_string());
    state.goto_path = "/var/Lo".to_string();
    let request = fetch_goto_suggestions(&state);
    assert_eq!(request.list.path, "/var");
    assert_eq!(request.list.timeout_secs, 2);
    assert_eq!(request.prefix, "Lo");
    state.goto_selected = 3;
    let reply = vec![
        remote("lock", 0o100644),
        remote("LOG", 0o040755),
        remote("lib", 0o040755),
        remote("local", 0o040755),
        remote(".", 0o040755),
    ];
    complete_goto(&mut state, &request.prefix, ListReply::Entries(reply));
    assert_eq!(names(&state.goto_suggestions), vec!["local", "LOG", "lock"]);
    assert_eq!(state.goto_selected, 0);
    assert_eq!(state.current_path, "/home");
    assert!(!state.loading);
}

#[test]
fn an_empty_prefix_suggests_all() {
    let mut state = FileBrowserState::new("/home".to_string());
    let reply = vec![remote("b", 0o100644), remote("..", 0o040755), remote("a", 0o100644)];
    complete_goto(&mut state, "", ListReply::Entries(reply));
    assert_eq!(names(&state.goto_suggestions), vec!["a", "b"]);
}

#[test]
fn prefixes_and_names_match_beyond_ascii() {
    let mut state = FileBrowserState::new("/home".to_string());
    let reply = vec![remote("\u{c4}pfel", 0o100644), remote("Apfel", 0o100644)];
    complete_goto(&mut state, "\u{e4}P", ListReply::Entries(reply));
    assert_eq!(names(&state.goto_suggestions), vec!["\u{c4}pfel"]);
}

#[test]
fn failures_clear_the_suggestions_silently() {
    for reply in [ListReply::Failed("gone".to_string()), ListReply::TimedOut] {
        let mut state = FileBrowserState::new("/home".to_string());
        state.goto_suggestions = vec![entry("a", false, 0)];
        state.goto_selected = 1;
        complete_goto(&mut state, "a", reply);
        assert!(state.goto_suggestions.is_empty());
        assert_eq!(state.goto_selected, 0);
        assert!(state.error.is_none());
    }
}

#[test]
fn autocompleting_a_directory_leads_into_it() {
    let mut state = FileBrowserState::new("/home".to_string());
    state.goto_path = "/var/lo".to_string();
    state.goto_suggestions = vec![entry("local", true, 0), entry("lock", false, 0)];
    state.autocomplete_selected();
    assert_eq!(state.goto_path, "/var/local/");
    assert!(state.goto_suggestions.is_empty());
    let request = fetch_goto_suggestions(&state);
    assert_eq!(request.list.path, "/var/local");
    assert_eq!(request.prefix, "");
    state.autocomplete_selected();
    assert_eq!(state.goto_path, "/var/local/");
}

#[test]
fn autocompleting_a_file_keeps_the_directory() {
    let mut state = FileBrowserState::new("/home".to_string());
    state.goto_path = "/var/lo".to_string();
    state.goto_suggestions = vec![entry("local", true, 0), entry("lock", false, 0)];
    state.goto_selected = 1;
    state.autocomplete_selected();
    assert_eq!(state.goto_path, "/var/lock");
    assert_eq!(state.goto_selected, 0);
    assert_eq!(fetch_goto_suggestions(&state).list.path, "/var");
}

#[test]
fn autocompleting_uses_the_current_path_and_the_root() {
    let mut state = FileBrowserState::new("/home/user".to_string());
    state.goto_suggestions = vec![entry("docs", true, 0)];
    state.autocomplete_selected();
    assert_eq!(state.goto_path, "/home/user/docs/");
    state.goto_path = "/d".to_string();
    state.goto_suggestions = vec![entry("dev", true, 0)];
    state.autocomplete_selected();
    assert_eq!(state.goto_path, "/dev/");
}

#[test]
fn autocompleting_nothing_changes_nothing() {
    let mut state = FileBrowserState::new("/home".to_string());
    state.goto_path = "/v".to_string();
    state.goto_suggestions = vec![entry("var", true, 0)];
    state.goto_selected = 1;
    state.autocomplete_selected();
    assert_eq!(state.goto_path, "/v");
    assert_eq!(state.goto_suggestions.len(), 1);
    assert_eq!(state.goto_selected, 1);
}
