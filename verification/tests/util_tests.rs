use velo::config::Config;
use velo::entry::{entry_display_name, human_size, FileEntry, GitFileStatus, SortBy};
use velo::fileops::{
    archive_kind, format_permissions, is_archive, parse_octal_mode, toggle_permission_bit,
    ArchiveKind, OpKind, PendingOp,
};
use velo::paths::{file_name_of, join_path, parent_of};
use velo::preview::{is_image, PreviewStyle};
use velo::search::{search_lines, SearchResult};
use velo::text::{u64_to_string, usize_to_string};
use velo::theme::ThemeName;

fn plain_entry(name: &str, is_dir: bool) -> FileEntry {
    FileEntry {
        name: name.to_string(),
        path: format!("/tmp/{name}"),
        is_dir,
        is_symlink: false,
        symlink_target: None,
        size: 0,
        modified: None,
        git_status: None,
    }
}

#[test]
fn test_file_entry_symlink() {
    let entry = FileEntry {
        name: "link".to_string(),
        path: "/tmp/link".to_string(),
        is_dir: false,
        is_symlink: true,
        symlink_target: Some("/tmp/target".to_string()),
        size: 0,
        modified: None,
        git_status: None,
    };
    assert!(entry.is_symlink);
    assert_eq!(entry.symlink_target.as_deref(), Some("/tmp/target"));
}

#[test]
fn test_op_kind_eq() {
    assert_eq!(OpKind::Copy, OpKind::Copy);
    assert_ne!(OpKind::Copy, OpKind::Move);
}

#[test]
fn test_pending_op_clone() {
    let op = PendingOp { kind: OpKind::Copy, sources: vec!["/tmp/test".to_string()] };
    let cloned = op.clone();
    assert_eq!(cloned.kind, OpKind::Copy);
    assert_eq!(cloned.sources.len(), 1);
}

#[test]
fn test_git_file_status_icon() {
    assert_eq!(GitFileStatus::Modified.icon(), "M");
    assert_eq!(GitFileStatus::Staged.icon(), "S");
    assert_eq!(GitFileStatus::Untracked.icon(), "?");
    assert_eq!(GitFileStatus::Conflict.icon(), "!");
    assert_eq!(GitFileStatus::Deleted.icon(), "D");
    assert_eq!(GitFileStatus::Renamed.icon(), "R");
    assert_eq!(GitFileStatus::Ignored.icon(), "I");
}

#[test]
fn test_is_image() {
    assert!(is_image("test.png"));
    assert!(is_image("test.JPG"));
    assert!(!is_image("test.txt"));
    assert!(!is_image("test.rs"));
}

#[test]
fn test_preview_style_eq() {
    assert_eq!(PreviewStyle::Normal, PreviewStyle::Normal);
    assert_ne!(PreviewStyle::Normal, PreviewStyle::Header);
}

#[test]
fn test_theme_cycle() {
    let mut name = ThemeName::Default;
    let mut visited = Vec::new();
    for _ in 0..5 {
        visited.push(name);
        name = name.next();
    }
    assert_eq!(visited.len(), 5);
    assert_eq!(name, ThemeName::Default);
}

#[test]
fn test_theme_labels() {
    assert_eq!(ThemeName::Dracula.label(), "Dracula");
    assert_eq!(ThemeName::Catppuccin.label(), "Catppuccin");
    assert_eq!(ThemeName::Nord.label(), "Nord");
    assert_eq!(ThemeName::Gruvbox.label(), "Gruvbox");
    assert_eq!(ThemeName::Default.label(), "Default");
}

#[test]
fn test_human_size() {
    assert_eq!(human_size(0), "0.0 B");
    assert_eq!(human_size(500), "500.0 B");
    assert_eq!(human_size(1024), "1.0 KB");
    assert_eq!(human_size(1048576), "1.0 MB");
    assert_eq!(human_size(1073741824), "1.0 GB");
}

#[test]
fn human_size_rounds_to_one_decimal() {
    assert_eq!(human_size(1536), "1.5 KB");
    assert_eq!(human_size(1126), "1.1 KB");
}

#[test]
fn test_entry_display_name_dir() {
    let entry = plain_entry("docs", true);
    assert_eq!(entry_display_name(&entry), "docs/");
}

#[test]
fn test_entry_display_name_symlink() {
    let entry = FileEntry {
        name: "link".to_string(),
        path: "/tmp/link".to_string(),
        is_dir: false,
        is_symlink: true,
        symlink_target: Some("/tmp/target".to_string()),
        size: 0,
        modified: None,
        git_status: None,
    };
    assert_eq!(entry_display_name(&entry), "link → /tmp/target");
}

#[test]
fn test_default_config() {
    let config = Config::default();
    assert!(!config.show_hidden);
    assert_eq!(config.sort_by, SortBy::Name);
}

#[test]
fn default_colors() {
    let config = Config::default();
    assert_eq!(config.colors.directory, "blue");
    assert_eq!(config.colors.file, "white");
    assert_eq!(config.colors.symlink, "cyan");
    assert_eq!(config.colors.selected, "yellow");
}

#[test]
fn permissions_format_exactly() {
    assert_eq!(format_permissions(0o754), "rwxr-xr--");
    assert_eq!(format_permissions(0o000), "---------");
    assert_eq!(format_permissions(0o777), "rwxrwxrwx");
}

#[test]
fn octal_modes_parse_or_are_rejected() {
    assert_eq!(parse_octal_mode("755"), Some(0o755));
    assert_eq!(parse_octal_mode("7777"), Some(0o7777));
    assert_eq!(parse_octal_mode("0"), Some(0));
    assert_eq!(parse_octal_mode(""), None);
    assert_eq!(parse_octal_mode("8"), None);
    assert_eq!(parse_octal_mode("75x"), None);
    assert_eq!(parse_octal_mode("77777"), None);
}

#[test]
fn permission_bits_toggle_in_place() {
    // Position 0 is the owner's read bit.
    assert_eq!(toggle_permission_bit(0o000, 0), 0o400);
    assert_eq!(toggle_permission_bit(0o400, 0), 0o000);
    // Position 8 is the world's execute bit.
    assert_eq!(toggle_permission_bit(0o000, 8), 0o001);
    // Out-of-range positions change nothing.
    assert_eq!(toggle_permission_bit(0o640, 9), 0o640);
}

#[test]
fn archives_are_recognized_by_suffix() {
    assert!(is_archive("a.zip"));
    assert!(is_archive("a.TAR"));
    assert!(is_archive("a.tar.gz"));
    assert!(is_archive("a.tgz"));
    assert!(!is_archive("a.txt"));
    assert_eq!(archive_kind("a.zip"), Some(ArchiveKind::Zip));
    assert_eq!(archive_kind("a.tar.gz"), Some(ArchiveKind::TarGz));
    assert_eq!(archive_kind("a.tgz"), Some(ArchiveKind::TarGz));
    assert_eq!(archive_kind("a.tar"), Some(ArchiveKind::Tar));
    assert_eq!(archive_kind("a.gz"), Some(ArchiveKind::Gz));
    assert_eq!(archive_kind("a.txt"), None);
}

#[test]
fn path_helpers_split_and_join() {
    assert_eq!(file_name_of("/tmp/a/b.txt"), "b.txt");
    assert_eq!(file_name_of("plain"), "plain");
    assert_eq!(parent_of("/tmp/a/b.txt"), Some("/tmp/a".to_string()));
    assert_eq!(parent_of("/tmp"), Some("/".to_string()));
    assert_eq!(parent_of("/"), None);
    assert_eq!(parent_of("plain"), None);
    assert_eq!(join_path("/tmp", "x"), "/tmp/x");
    assert_eq!(join_path("/tmp/", "x"), "/tmp/x");
}

#[test]
fn numbers_render_in_decimal() {
    assert_eq!(u64_to_string(0), "0");
    assert_eq!(u64_to_string(42), "42");
    assert_eq!(u64_to_string(18446744073709551615), "18446744073709551615");
    assert_eq!(usize_to_string(1000), "1000");
}

#[test]
fn search_lines_caps_and_numbers_hits() {
    let lines: Vec<String> = vec![
        "The NEEDLE is here".to_string(),
        "nothing".to_string(),
        "needle again".to_string(),
        "a third needle".to_string(),
    ];
    let mut results: Vec<SearchResult> = Vec::new();
    search_lines(&"/tmp/a.txt".to_string(), &lines, "needle", &mut results, 200);
    assert_eq!(results.len(), 3);
    assert_eq!(results[0].line_number, 1);
    assert_eq!(results[1].line_number, 3);
    assert_eq!(results[2].line_number, 4);
    assert_eq!(results[0].line_text, "The NEEDLE is here");
    // The cap is a hard early exit.
    let mut capped: Vec<SearchResult> = Vec::new();
    search_lines(&"/tmp/a.txt".to_string(), &lines, "needle", &mut capped, 2);
    assert_eq!(capped.len(), 2);
}
