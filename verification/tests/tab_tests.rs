use velo::entry::{FileEntry, GitFileStatus, SortBy};
use velo::tree::DirListing;
use velo::tab::Tab;

fn entry(name: &str, dir: &str, is_dir: bool, size: u64) -> FileEntry {
    FileEntry {
        name: name.to_string(),
        path: format!("{dir}/{name}"),
        is_dir,
        is_symlink: false,
        symlink_target: None,
        size,
        modified: None,
        git_status: None,
    }
}

fn fresh_tab(dir: &str) -> Tab {
    Tab::new(dir.to_string(), false, SortBy::Name)
}

#[test]
fn empty_directory_counts_nothing() {
    let mut tab = fresh_tab("/tmp/empty");
    tab.refresh(Vec::new(), None, Vec::new());
    assert_eq!(tab.file_count(), 0);
    assert!(tab.selected_entry().is_none());
}

#[test]
fn name_sort_orders_by_name() {
    let mut tab = fresh_tab("/tmp/d");
    tab.refresh(
        vec![entry("b.txt", "/tmp/d", false, 1), entry("a.txt", "/tmp/d", false, 1)],
        None,
        Vec::new(),
    );
    let names: Vec<String> = tab.visible_entries().into_iter().map(|e| e.name).collect();
    assert_eq!(names, vec!["a.txt".to_string(), "b.txt".to_string()]);
}

#[test]
fn hidden_entries_are_suppressed_and_shown() {
    let raw = vec![
        entry(".hidden", "/tmp/d", false, 1),
        entry("visible", "/tmp/d", false, 1),
    ];
    let mut tab = fresh_tab("/tmp/d");
    tab.refresh(raw.clone(), None, Vec::new());
    assert!(tab.visible_entries().iter().all(|e| !e.name.starts_with('.')));
    tab.show_hidden = true;
    tab.refresh(raw, None, Vec::new());
    assert!(tab.visible_entries().iter().any(|e| e.name == ".hidden"));
}

#[test]
fn directories_sort_before_files_under_every_key() {
    for key in [SortBy::Name, SortBy::Size, SortBy::Date, SortBy::Extension] {
        let mut tab = fresh_tab("/tmp/d");
        tab.sort_by = key;
        tab.refresh(
            vec![
                entry("zz.txt", "/tmp/d", false, 10),
                entry("aa", "/tmp/d", true, 0),
                entry("mm.log", "/tmp/d", false, 90),
                entry("bb", "/tmp/d", true, 0),
            ],
            None,
            Vec::new(),
        );
        let visible = tab.visible_entries();
        let first_file = visible.iter().position(|e| !e.is_dir).unwrap();
        assert!(visible[..first_file].iter().all(|e| e.is_dir));
        assert!(visible[first_file..].iter().all(|e| !e.is_dir));
    }
}

#[test]
fn sorting_twice_changes_nothing() {
    let mut tab = fresh_tab("/tmp/d");
    tab.refresh(
        vec![
            entry("c.txt", "/tmp/d", false, 3),
            entry("A.txt", "/tmp/d", false, 1),
            entry("b.txt", "/tmp/d", false, 2),
        ],
        None,
        Vec::new(),
    );
    let once: Vec<String> = tab.visible_entries().into_iter().map(|e| e.name).collect();
    tab.sort_entries();
    let twice: Vec<String> = tab.visible_entries().into_iter().map(|e| e.name).collect();
    assert_eq!(once, twice);
    // Case-insensitive: A.txt sorts before b.txt and c.txt.
    assert_eq!(once, vec!["A.txt".to_string(), "b.txt".to_string(), "c.txt".to_string()]);
}

#[test]
fn size_sort_is_descending() {
    let mut tab = fresh_tab("/tmp/d");
    tab.sort_by = SortBy::Size;
    tab.refresh(
        vec![
            entry("small", "/tmp/d", false, 1),
            entry("large", "/tmp/d", false, 100),
            entry("mid", "/tmp/d", false, 50),
        ],
        None,
        Vec::new(),
    );
    let names: Vec<String> = tab.visible_entries().into_iter().map(|e| e.name).collect();
    assert_eq!(names, vec!["large".to_string(), "mid".to_string(), "small".to_string()]);
}

#[test]
fn equal_sort_keys_tie_break_by_name() {
    // Equal sizes fall back to the case-insensitive name order.
    let mut tab = fresh_tab("/tmp/d");
    tab.sort_by = SortBy::Size;
    tab.refresh(
        vec![
            entry("zeta", "/tmp/d", false, 7),
            entry("Alpha", "/tmp/d", false, 7),
            entry("mid", "/tmp/d", false, 7),
        ],
        None,
        Vec::new(),
    );
    let names: Vec<String> = tab.visible_entries().into_iter().map(|e| e.name).collect();
    assert_eq!(names, vec!["Alpha".to_string(), "mid".to_string(), "zeta".to_string()]);
    // So do equal modification times.
    let mut tab = fresh_tab("/tmp/d");
    tab.sort_by = SortBy::Date;
    let mut b = entry("bb", "/tmp/d", false, 1);
    b.modified = Some(50);
    let mut a = entry("aa", "/tmp/d", false, 1);
    a.modified = Some(50);
    tab.refresh(vec![b, a], None, Vec::new());
    let names: Vec<String> = tab.visible_entries().into_iter().map(|e| e.name).collect();
    assert_eq!(names, vec!["aa".to_string(), "bb".to_string()]);
}

#[test]
fn date_sort_puts_unknown_times_last() {
    let mut tab = fresh_tab("/tmp/d");
    tab.sort_by = SortBy::Date;
    let mut old_file = entry("old", "/tmp/d", false, 1);
    old_file.modified = Some(100);
    let mut new_file = entry("new", "/tmp/d", false, 1);
    new_file.modified = Some(200);
    let unknown = entry("unknown", "/tmp/d", false, 1);
    tab.refresh(vec![old_file, unknown, new_file], None, Vec::new());
    let names: Vec<String> = tab.visible_entries().into_iter().map(|e| e.name).collect();
    assert_eq!(names, vec!["new".to_string(), "old".to_string(), "unknown".to_string()]);
}

#[test]
fn extension_sort_groups_by_extension_then_name() {
    let mut tab = fresh_tab("/tmp/d");
    tab.sort_by = SortBy::Extension;
    tab.refresh(
        vec![
            entry("b.txt", "/tmp/d", false, 1),
            entry("a.log", "/tmp/d", false, 1),
            entry("c.LOG", "/tmp/d", false, 1),
        ],
        None,
        Vec::new(),
    );
    let names: Vec<String> = tab.visible_entries().into_iter().map(|e| e.name).collect();
    assert_eq!(names, vec!["a.log".to_string(), "c.LOG".to_string(), "b.txt".to_string()]);
}

#[test]
fn fuzzy_filter_keeps_only_matches() {
    let mut tab = fresh_tab("/tmp/d");
    tab.refresh(
        vec![
            entry("apple.txt", "/tmp/d", false, 1),
            entry("banana.txt", "/tmp/d", false, 1),
        ],
        None,
        Vec::new(),
    );
    tab.filter_text = "app".to_string();
    tab.apply_filter();
    assert_eq!(tab.filtered_entries.len(), 1);
    let visible = tab.visible_entries();
    assert_eq!(visible[0].name, "apple.txt");
}

#[test]
fn empty_filter_restores_everything() {
    let mut tab = fresh_tab("/tmp/d");
    tab.refresh(
        vec![
            entry("apple.txt", "/tmp/d", false, 1),
            entry("banana.txt", "/tmp/d", false, 1),
            entry("cherry.txt", "/tmp/d", false, 1),
        ],
        None,
        Vec::new(),
    );
    let full: Vec<usize> = tab.filtered_entries.clone();
    tab.filter_text = "an".to_string();
    tab.apply_filter();
    assert!(tab.filtered_entries.len() < full.len());
    tab.filter_text = String::new();
    tab.apply_filter();
    assert_eq!(tab.filtered_entries, full);
    assert_eq!(tab.filtered_entries, vec![0, 1, 2]);
}

#[test]
fn cursor_is_clamped_when_the_filter_shrinks() {
    let mut tab = fresh_tab("/tmp/d");
    tab.refresh(
        vec![
            entry("apple.txt", "/tmp/d", false, 1),
            entry("avocado.txt", "/tmp/d", false, 1),
            entry("banana.txt", "/tmp/d", false, 1),
        ],
        None,
        Vec::new(),
    );
    tab.cursor = 2;
    tab.filter_text = "av".to_string();
    tab.apply_filter();
    assert!(tab.cursor < tab.filtered_entries.len());
    tab.filter_text = "zzz".to_string();
    tab.apply_filter();
    assert_eq!(tab.filtered_entries.len(), 0);
    assert_eq!(tab.cursor, 0);
}

#[test]
fn selection_survives_refresh_and_filter_changes() {
    let mut tab = fresh_tab("/tmp/d");
    let raw = vec![
        entry("apple.txt", "/tmp/d", false, 1),
        entry("banana.txt", "/tmp/d", false, 1),
    ];
    tab.refresh(raw.clone(), None, Vec::new());
    let path = "/tmp/d/apple.txt".to_string();
    tab.toggle_selected(&path);
    assert_eq!(tab.selection_count(), 1);
    tab.filter_text = "ban".to_string();
    tab.apply_filter();
    assert_eq!(tab.selection_count(), 1);
    tab.refresh(raw, None, Vec::new());
    assert_eq!(tab.selection_count(), 1);
    assert!(tab.is_selected(&path));
    tab.toggle_selected(&path);
    assert_eq!(tab.selection_count(), 0);
}

#[test]
fn parent_cursor_lands_on_the_current_directory() {
    let mut tab = fresh_tab("/tmp/parent/child");
    let parent_raw = vec![
        entry("aaa", "/tmp/parent", true, 0),
        entry("child", "/tmp/parent", true, 0),
        entry("zzz", "/tmp/parent", true, 0),
    ];
    tab.refresh(Vec::new(), Some(parent_raw), Vec::new());
    assert_eq!(tab.parent_entries.len(), 3);
    assert_eq!(tab.parent_entries[tab.parent_cursor].name, "child");
}

#[test]
fn git_statuses_are_tagged_onto_entries() {
    let mut tab = fresh_tab("/tmp/d");
    tab.refresh(
        vec![entry("a.txt", "/tmp/d", false, 1), entry("b.txt", "/tmp/d", false, 1)],
        None,
        vec![("a.txt".to_string(), GitFileStatus::Modified)],
    );
    let visible = tab.visible_entries();
    assert_eq!(visible[0].git_status, Some(GitFileStatus::Modified));
    assert_eq!(visible[1].git_status, None);
}

#[test]
fn test_breadcrumb() {
    let mut tab = fresh_tab("/tmp/somewhere");
    tab.refresh(Vec::new(), None, Vec::new());
    assert!(tab.breadcrumb().contains("/tmp/somewhere"));
}

#[test]
fn test_tab_title() {
    let tab = fresh_tab("/tmp/somewhere");
    let title = tab.tab_title();
    assert!(!title.is_empty());
    assert_eq!(title, "somewhere");
    let root = fresh_tab("/");
    assert_eq!(root.tab_title(), "/");
}

#[test]
fn test_file_count() {
    let mut tab = fresh_tab("/tmp/d");
    tab.refresh(
        vec![entry("a.txt", "/tmp/d", false, 1), entry("b.txt", "/tmp/d", false, 1)],
        None,
        Vec::new(),
    );
    assert_eq!(tab.file_count(), 2);
}

#[test]
fn tree_rows_follow_the_expanded_set() {
    let listings = vec![
        DirListing {
            path: "/tmp/d".to_string(),
            entries: vec![
                entry("sub", "/tmp/d", true, 0),
                entry("a.txt", "/tmp/d", false, 1),
            ],
            nonempty: true,
        },
        DirListing {
            path: "/tmp/d/sub".to_string(),
            entries: vec![entry("inner.txt", "/tmp/d/sub", false, 1)],
            nonempty: true,
        },
    ];
    let mut tab = fresh_tab("/tmp/d");
    tab.toggle_tree_mode(&listings);
    assert!(tab.tree_mode);
    let names: Vec<String> = tab.tree_nodes.iter().map(|n| n.entry.name.clone()).collect();
    assert_eq!(names, vec!["sub".to_string(), "a.txt".to_string()]);
    assert!(tab.tree_nodes[0].has_children);
    // Expand the directory under the cursor: its child appears right below.
    tab.tree_cursor = 0;
    tab.tree_toggle_expand(&listings);
    let names: Vec<String> = tab.tree_nodes.iter().map(|n| n.entry.name.clone()).collect();
    assert_eq!(
        names,
        vec!["sub".to_string(), "inner.txt".to_string(), "a.txt".to_string()]
    );
    assert_eq!(tab.tree_nodes[1].depth, 1);
    // Collapse it again.
    tab.tree_toggle_expand(&listings);
    let names: Vec<String> = tab.tree_nodes.iter().map(|n| n.entry.name.clone()).collect();
    assert_eq!(names, vec!["sub".to_string(), "a.txt".to_string()]);
    tab.toggle_tree_mode(&listings);
    assert!(!tab.tree_mode);
}
