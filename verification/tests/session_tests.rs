use velo::config::Config;
use velo::entry::{FileEntry, SortBy};
use velo::fileops::OpKind;
use velo::search::SearchResult;
use velo::session::{App, Effect, InputMode, Key, KeyInput, MouseInput};

fn entry(name: &str, dir: &str, is_dir: bool) -> FileEntry {
    FileEntry {
        name: name.to_string(),
        path: format!("{dir}/{name}"),
        is_dir,
        is_symlink: false,
        symlink_target: None,
        size: 0,
        modified: None,
        git_status: None,
    }
}

fn make_app(dir: &str) -> App {
    App::with_dir(Config::default(), dir.to_string())
}

fn make_app_with(dir: &str, names: &[&str]) -> App {
    let mut app = make_app(dir);
    let raw: Vec<FileEntry> = names.iter().map(|n| entry(n, dir, false)).collect();
    app.refresh(raw, None, Vec::new());
    app
}

fn key(c: char) -> KeyInput {
    KeyInput { code: Key::Char(c), ctrl: false, alt: false }
}

fn code(k: Key) -> KeyInput {
    KeyInput { code: k, ctrl: false, alt: false }
}

#[test]
fn test_input_mode_eq() {
    assert_eq!(InputMode::Normal, InputMode::Normal);
    assert_ne!(InputMode::Normal, InputMode::Filter);
}

#[test]
fn test_sort_cycle() {
    let mut app = make_app("/tmp/d");
    assert_eq!(app.sort_by(), SortBy::Name);
    app.tab_mut().sort_by = SortBy::Size;
    assert_eq!(app.sort_by(), SortBy::Size);
}

#[test]
fn test_bookmarks() {
    let mut app = make_app("/tmp/d");
    app.set_bookmark('a', "/tmp/d".to_string());
    assert_eq!(app.bookmark_lookup('a'), Some("/tmp/d".to_string()));
}

#[test]
fn test_new_tab() {
    let mut app = make_app("/tmp/d");
    assert_eq!(app.tabs.len(), 1);
    app.new_tab();
    assert_eq!(app.tabs.len(), 2);
    assert_eq!(app.active_tab, 1);
}

#[test]
fn test_close_tab() {
    let mut app = make_app("/tmp/d");
    app.new_tab();
    assert_eq!(app.tabs.len(), 2);
    assert!(!app.close_tab());
    assert_eq!(app.tabs.len(), 1);
}

#[test]
fn test_close_last_tab_quits() {
    let mut app = make_app("/tmp/d");
    assert!(app.close_tab());
}

#[test]
fn test_next_prev_tab() {
    let mut app = make_app("/tmp/d");
    app.new_tab();
    app.new_tab();
    assert_eq!(app.active_tab, 2);
    app.next_tab();
    assert_eq!(app.active_tab, 0);
    app.prev_tab();
    assert_eq!(app.active_tab, 2);
}

#[test]
fn closing_one_of_two_tabs_keeps_a_valid_index() {
    let mut app = make_app("/tmp/d");
    app.new_tab();
    assert_eq!(app.tabs.len(), 2);
    assert_eq!(app.active_tab, 1);
    assert!(!app.close_tab());
    assert_eq!(app.tabs.len(), 1);
    assert!(app.active_tab < app.tabs.len());
}

#[test]
fn test_chmod_only_accepts_octal() {
    let mut app = make_app("/tmp/d");
    app.input_mode = InputMode::Chmod;
    app.input_buffer.clear();
    app.handle_chmod_key(key('8'));
    assert!(app.input_buffer.is_empty());
    app.handle_chmod_key(key('7'));
    assert_eq!(app.input_buffer, "7");
}

#[test]
fn test_chmod_esc_cancels() {
    let mut app = make_app("/tmp/d");
    app.input_mode = InputMode::Chmod;
    app.input_buffer = "644".to_string();
    app.handle_chmod_key(code(Key::Esc));
    assert_eq!(app.input_mode, InputMode::Normal);
    assert!(app.input_buffer.is_empty());
}

#[test]
fn test_search_mode_entry() {
    let mut app = make_app("/tmp/d");
    app.input_mode = InputMode::Search;
    app.input_buffer.clear();
    app.handle_search_key(key('h'));
    assert_eq!(app.input_buffer, "h");
}

#[test]
fn pressing_g_then_other_key_never_jumps_to_top() {
    let mut app = make_app_with("/tmp/d", &["a.txt", "b.txt", "c.txt"]);
    app.tab_mut().cursor = 2;
    let (quit, _) = app.handle_normal_key(key('g'));
    assert!(!quit);
    assert!(app.pending_g);
    let (quit, _) = app.handle_normal_key(key('j'));
    assert!(!quit);
    assert!(!app.pending_g);
    assert_eq!(app.cursor(), 2);
    // g then g does go to the top.
    app.handle_normal_key(key('g'));
    app.handle_normal_key(key('g'));
    assert_eq!(app.cursor(), 0);
}

#[test]
fn pending_d_cancels_without_side_effects() {
    let mut app = make_app_with("/tmp/d", &["a.txt"]);
    app.handle_normal_key(key('d'));
    assert!(app.pending_d);
    let (_, effect) = app.handle_normal_key(key('x'));
    assert!(!app.pending_d);
    assert!(matches!(effect, Effect::Nothing));
    // d then d asks for a delete of the entry under the cursor.
    app.handle_normal_key(key('d'));
    let (_, effect) = app.handle_normal_key(key('d'));
    match effect {
        Effect::DeleteToTrash { paths } => assert_eq!(paths, vec!["/tmp/d/a.txt".to_string()]),
        _ => panic!("expected a trash request"),
    }
}

#[test]
fn yank_then_paste_stages_and_emits_the_copy() {
    let mut app = make_app_with("/tmp/d", &["a.txt"]);
    app.handle_normal_key(key('y'));
    let (_, effect) = app.handle_normal_key(key('y'));
    assert!(matches!(effect, Effect::Nothing));
    assert!(app.pending_op.is_some());
    assert_eq!(app.status_message.as_deref(), Some("Yanked 1 item(s)"));
    app.handle_normal_key(key('p'));
    let (_, effect) = app.handle_normal_key(key('p'));
    match effect {
        Effect::Paste { kind, sources, dest } => {
            assert_eq!(kind, OpKind::Copy);
            assert_eq!(sources, vec!["/tmp/d/a.txt".to_string()]);
            assert_eq!(dest, "/tmp/d");
        }
        _ => panic!("expected a paste request"),
    }
    assert!(app.pending_op.is_none());
    // A second paste has nothing staged.
    app.handle_normal_key(key('p'));
    let (_, effect) = app.handle_normal_key(key('p'));
    assert!(matches!(effect, Effect::Nothing));
    assert_eq!(app.status_message.as_deref(), Some("Nothing to paste"));
}

#[test]
fn quit_keys() {
    let mut app = make_app_with("/tmp/d", &["a.txt"]);
    let (quit, _) = app.handle_normal_key(key('q'));
    assert!(quit);
    let (quit, _) = app.handle_key(KeyInput { code: Key::Char('c'), ctrl: true, alt: false });
    assert!(quit);
}

#[test]
fn navigation_keeps_the_cursor_in_range() {
    let mut app = make_app_with("/tmp/d", &["a.txt", "b.txt", "c.txt"]);
    let moves = ['j', 'j', 'j', 'j', 'k', 'G', 'j', 'k', 'k', 'k', 'k'];
    for m in moves {
        app.handle_normal_key(key(m));
        let count = app.file_count();
        assert!(app.cursor() < count || (count == 0 && app.cursor() == 0));
    }
    // Filtering, refreshing and clearing the filter keep it valid too.
    app.handle_normal_key(key('G'));
    app.handle_normal_key(key('/'));
    app.handle_filter_key(key('z'));
    let count = app.file_count();
    assert!(app.cursor() < count || (count == 0 && app.cursor() == 0));
    app.handle_filter_key(code(Key::Esc));
    let count = app.file_count();
    assert!(app.cursor() < count || (count == 0 && app.cursor() == 0));
}

#[test]
fn filter_mode_narrows_to_the_match() {
    let mut app = make_app_with("/tmp/d", &["apple.txt", "banana.txt"]);
    app.handle_normal_key(key('/'));
    assert_eq!(app.input_mode, InputMode::Filter);
    for c in ['a', 'p', 'p'] {
        app.handle_filter_key(key(c));
    }
    assert_eq!(app.file_count(), 1);
    let visible = app.visible_entries();
    assert_eq!(visible[0].name, "apple.txt");
}

#[test]
fn search_results_navigation_cycles_over_the_hits() {
    let mut app = make_app("/tmp/d");
    let results: Vec<SearchResult> = (1..=3)
        .map(|i| SearchResult {
            path: "/tmp/d/a.txt".to_string(),
            line_number: i,
            line_text: format!("line{i}"),
        })
        .collect();
    app.input_mode = InputMode::Search;
    app.apply_search_results(&"line".to_string(), results);
    assert_eq!(app.input_mode, InputMode::SearchResults);
    assert_eq!(app.search_results.len(), 3);
    assert_eq!(app.search_cursor, 0);
    app.handle_search_results_key(key('j'));
    assert_eq!(app.search_cursor, 1);
    app.handle_search_results_key(key('j'));
    assert_eq!(app.search_cursor, 2);
    app.handle_search_results_key(key('j'));
    assert_eq!(app.search_cursor, 2);
    app.handle_search_results_key(key('k'));
    assert_eq!(app.search_cursor, 1);
    app.handle_search_results_key(key('g'));
    assert_eq!(app.search_cursor, 0);
    app.handle_search_results_key(key('G'));
    assert_eq!(app.search_cursor, 2);
}

#[test]
fn empty_search_results_return_to_normal() {
    let mut app = make_app("/tmp/d");
    app.input_mode = InputMode::Search;
    app.apply_search_results(&"nothing".to_string(), Vec::new());
    assert_eq!(app.input_mode, InputMode::Normal);
    assert!(app.search_results.is_empty());
    assert_eq!(app.status_message.as_deref(), Some("No results for \"nothing\""));
}

#[test]
fn search_results_esc_closes_the_pane() {
    let mut app = make_app("/tmp/d");
    app.search_results = vec![SearchResult {
        path: "/tmp/d/a.txt".to_string(),
        line_number: 1,
        line_text: "test content".to_string(),
    }];
    app.search_cursor = 0;
    app.input_mode = InputMode::SearchResults;
    app.handle_search_results_key(code(Key::Esc));
    assert_eq!(app.input_mode, InputMode::Normal);
    assert!(app.search_results.is_empty());
}

#[test]
fn search_enter_hands_the_scan_to_the_loop() {
    let mut app = make_app("/tmp/d");
    app.input_mode = InputMode::Search;
    for c in ['a', 'b'] {
        app.handle_search_key(key(c));
    }
    let (_, effect) = app.handle_search_key(code(Key::Enter));
    match effect {
        Effect::RunSearch { dir, pattern } => {
            assert_eq!(dir, "/tmp/d");
            assert_eq!(pattern, "ab");
        }
        _ => panic!("expected a search request"),
    }
}

#[test]
fn bookmark_set_and_jump() {
    let mut app = make_app("/tmp/d");
    app.input_mode = InputMode::Bookmark;
    app.handle_bookmark_key(key('z'));
    assert_eq!(app.input_mode, InputMode::Normal);
    assert_eq!(app.status_message.as_deref(), Some("Bookmark 'z' set"));
    app.input_mode = InputMode::JumpBookmark;
    let (_, effect) = app.handle_jump_bookmark_key(key('z'));
    match effect {
        Effect::JumpTo { key: k, path } => {
            assert_eq!(k, 'z');
            assert_eq!(path, "/tmp/d");
        }
        _ => panic!("expected a jump request"),
    }
    app.input_mode = InputMode::JumpBookmark;
    let (_, effect) = app.handle_jump_bookmark_key(key('x'));
    assert!(matches!(effect, Effect::Nothing));
    assert_eq!(app.status_message.as_deref(), Some("No bookmark 'x'"));
}

#[test]
fn rename_and_create_commits_go_to_the_loop() {
    let mut app = make_app_with("/tmp/d", &["a.txt"]);
    app.handle_normal_key(key('r'));
    assert_eq!(app.input_mode, InputMode::Rename);
    assert_eq!(app.input_buffer, "a.txt");
    app.handle_input_key(code(Key::Backspace));
    for c in ['l', 'o', 'g'] {
        app.handle_input_key(key(c));
    }
    let (_, effect) = app.handle_input_key(code(Key::Enter));
    match effect {
        Effect::RenamePath { path, new_name } => {
            assert_eq!(path, "/tmp/d/a.txt");
            assert_eq!(new_name, "a.txlog");
        }
        _ => panic!("expected a rename request"),
    }
    app.handle_normal_key(key('n'));
    assert_eq!(app.input_mode, InputMode::CreateFile);
    app.handle_input_key(key('f'));
    let (_, effect) = app.handle_input_key(code(Key::Enter));
    match effect {
        Effect::CreateFileIn { dir, name } => {
            assert_eq!(dir, "/tmp/d");
            assert_eq!(name, "f");
        }
        _ => panic!("expected a create request"),
    }
    app.handle_normal_key(key('N'));
    assert_eq!(app.input_mode, InputMode::CreateDir);
    app.handle_input_key(key('s'));
    let (_, effect) = app.handle_input_key(code(Key::Enter));
    match effect {
        Effect::CreateDirIn { dir, name } => {
            assert_eq!(dir, "/tmp/d");
            assert_eq!(name, "s");
        }
        _ => panic!("expected a create request"),
    }
}

#[test]
fn entering_a_directory_asks_for_a_refresh() {
    let mut app = make_app("/tmp/d");
    app.refresh(vec![entry("sub", "/tmp/d", true)], None, Vec::new());
    let (_, effect) = app.handle_normal_key(code(Key::Enter));
    assert!(matches!(effect, Effect::Refresh { .. }));
    assert_eq!(app.current_dir(), "/tmp/d/sub");
    assert_eq!(app.cursor(), 0);
    // Going up asks for a refresh focused on the directory just left.
    let (_, effect) = app.handle_normal_key(key('h'));
    match effect {
        Effect::Refresh { focus } => assert_eq!(focus.as_deref(), Some("sub")),
        _ => panic!("expected a refresh request"),
    }
    assert_eq!(app.current_dir(), "/tmp/d");
}

#[test]
fn opening_a_file_is_handed_to_the_opener() {
    let mut app = make_app_with("/tmp/d", &["a.txt"]);
    let (_, effect) = app.handle_normal_key(code(Key::Enter));
    match effect {
        Effect::OpenPath { path } => assert_eq!(path, "/tmp/d/a.txt"),
        _ => panic!("expected an open request"),
    }
}

#[test]
fn test_mouse_scroll() {
    let mut app = make_app_with("/tmp/d", &["a.txt", "b.txt"]);
    assert_eq!(app.cursor(), 0);
    app.handle_mouse(MouseInput::ScrollDown);
    assert_eq!(app.cursor(), 1);
    app.handle_mouse(MouseInput::ScrollUp);
    assert_eq!(app.cursor(), 0);
}

#[test]
fn right_click_toggles_the_selection() {
    let mut app = make_app_with("/tmp/d", &["a.txt"]);
    app.handle_mouse(MouseInput::RightClick);
    assert_eq!(app.selection_count(), 1);
    app.handle_mouse(MouseInput::RightClick);
    assert_eq!(app.selection_count(), 0);
}

#[test]
fn space_selects_and_advances() {
    let mut app = make_app_with("/tmp/d", &["a.txt", "b.txt"]);
    app.handle_normal_key(key(' '));
    assert_eq!(app.selection_count(), 1);
    assert_eq!(app.cursor(), 1);
    assert!(app.selected().contains(&"/tmp/d/a.txt".to_string()));
}

#[test]
fn sort_key_cycles_with_a_status_message() {
    let mut app = make_app_with("/tmp/d", &["a.txt"]);
    let (_, effect) = app.handle_normal_key(key('s'));
    assert!(matches!(effect, Effect::Refresh { .. }));
    assert_eq!(app.sort_by(), SortBy::Size);
    assert_eq!(app.status_message.as_deref(), Some("Sort: Size"));
}

#[test]
fn alt_digit_switches_tabs() {
    let mut app = make_app("/tmp/d");
    app.new_tab();
    app.new_tab();
    assert_eq!(app.active_tab, 2);
    app.handle_key(KeyInput { code: Key::Char('1'), ctrl: false, alt: true });
    assert_eq!(app.active_tab, 0);
}

#[test]
fn ctrl_t_opens_a_tab_and_ctrl_w_closes_it() {
    let mut app = make_app("/tmp/d");
    let (quit, effect) =
        app.handle_key(KeyInput { code: Key::Char('t'), ctrl: true, alt: false });
    assert!(!quit);
    assert!(matches!(effect, Effect::Refresh { .. }));
    assert_eq!(app.tabs.len(), 2);
    assert_eq!(app.status_message.as_deref(), Some("Tab 2 opened"));
    let (quit, _) = app.handle_key(KeyInput { code: Key::Char('w'), ctrl: true, alt: false });
    assert!(!quit);
    assert_eq!(app.tabs.len(), 1);
    assert_eq!(app.status_message.as_deref(), Some("Tab closed (1 remaining)"));
    // Closing the only remaining tab quits.
    let (quit, _) = app.handle_key(KeyInput { code: Key::Char('w'), ctrl: true, alt: false });
    assert!(quit);
}

#[test]
fn chmod_commit_carries_path_and_mode() {
    let mut app = make_app_with("/tmp/d", &["a.txt"]);
    app.input_mode = InputMode::Chmod;
    for c in ['7', '5', '5'] {
        app.handle_chmod_key(key(c));
    }
    // The buffer takes at most four octal digits.
    app.handle_chmod_key(key('1'));
    app.handle_chmod_key(key('1'));
    assert_eq!(app.input_buffer, "7551");
    let (_, effect) = app.handle_chmod_key(code(Key::Enter));
    match effect {
        Effect::ApplyChmod { path, mode } => {
            assert_eq!(path, "/tmp/d/a.txt");
            assert_eq!(mode, "7551");
        }
        _ => panic!("expected a chmod request"),
    }
    assert_eq!(app.input_mode, InputMode::Normal);
}

#[test]
fn view_toggle_reports_and_requests_a_rebuild() {
    let mut app = make_app_with("/tmp/d", &["a.txt"]);
    let (_, effect) = app.handle_normal_key(key('t'));
    assert!(matches!(effect, Effect::RebuildTree));
    assert_eq!(app.status_message.as_deref(), Some("View: Tree"));
    let (_, effect) = app.handle_normal_key(key('t'));
    assert!(matches!(effect, Effect::Nothing));
    assert_eq!(app.status_message.as_deref(), Some("View: List"));
}
