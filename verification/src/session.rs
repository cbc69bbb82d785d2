use vstd::prelude::*;
use vstd::string::StrSliceExecFns;
use vstd::string::StringExecFns;

use crate::config::Config;
use crate::entry::FileEntry;
use crate::entry::GitFileStatus;
use crate::entry::SortBy;
use crate::fileops::clone_strings;
use crate::fileops::octal_digit;
use crate::fileops::octal_val;
use crate::fileops::OpKind;
use crate::fileops::PendingOp;
use crate::filter::filter_spec;
use crate::paths::file_name_of;
use crate::paths::file_name_spec;
use crate::paths::parent_of;
use crate::paths::parent_spec;
use crate::preview::PreviewLine;
use crate::search::SearchResult;
use crate::tab::Tab;
use crate::tree::str_seq_has;
use crate::text::char_string;
use crate::text::dec_seq;
use crate::text::usize_to_string;

verus! {

// ---------------------------------------------------------------------------
// Input events, as the terminal hands them over
// ---------------------------------------------------------------------------
#[derive(Clone, Copy, Debug, PartialEq, Eq, Structural)]
pub enum Key {
    Char(char),
    Up,
    Down,
    Left,
    Right,
    Enter,
    Esc,
    Backspace,
}

#[derive(Clone, Copy, Debug, PartialEq, Eq, Structural)]
pub struct KeyInput {
    pub code: Key,
    pub ctrl: bool,
    pub alt: bool,
}

#[derive(Clone, Copy, Debug, PartialEq, Eq, Structural)]
pub enum MouseInput {
    LeftClick { col: u16, row: u16 },
    RightClick,
    ScrollUp,
    ScrollDown,
}

/// The modal states the key dispatcher can be in.
#[derive(Clone, Copy, Debug, PartialEq, Eq, Structural)]
pub enum InputMode {
    Normal,
    Filter,
    Rename,
    CreateFile,
    CreateDir,
    Bookmark,
    JumpBookmark,
    Chmod,
    Search,
    SearchResults,
}

/// Screen regions recorded during drawing, for mouse hit-testing.
pub struct MouseAreas {
    pub tab_bar: Option<(u16, u16, u16, u16)>,
    pub tab_positions: Vec<(u16, u16, usize)>,
    pub current_pane: Option<(u16, u16, u16, u16)>,
}

impl Default for MouseAreas {
    fn default() -> (r: Self)
        ensures
            r.tab_bar is None,
            r.tab_positions@.len() == 0,
            r.current_pane is None,
    {
        MouseAreas { tab_bar: None, tab_positions: Vec::new(), current_pane: None }
    }
}

/// What the surrounding event loop must carry out after a step: all the
/// work that touches the world outside the session state.
pub enum Effect {
    Nothing,
    /// List the current and parent directory again and call refresh,
    /// then, if a name is given, put the cursor on that entry.
    Refresh { focus: Option<String> },
    /// Gather listings for the tree and call rebuild_tree.
    RebuildTree,
    /// Hand the path to the desktop's opener.
    OpenPath { path: String },
    /// Put the path itself on the clipboard.
    CopyPathText { path: String },
    /// Put the file's contents on the clipboard.
    CopyFileContent { path: String },
    /// Move these paths to the trash, then refresh.
    DeleteToTrash { paths: Vec<String> },
    /// Rename the file within its directory, then refresh.
    RenamePath { path: String, new_name: String },
    /// Create an empty file under the directory, then refresh.
    CreateFileIn { dir: String, name: String },
    /// Create a directory (and any missing parents), then refresh.
    CreateDirIn { dir: String, name: String },
    /// Read the path's permission bits and call begin_chmod with them.
    BeginChmod { path: String },
    /// Apply the octal mode to the path.
    ApplyChmod { path: String, mode: String },
    /// Copy or move the sources into the directory, then refresh.
    Paste { kind: OpKind, sources: Vec<String>, dest: String },
    /// Search under the directory and call apply_search_results.
    RunSearch { dir: String, pattern: String },
    /// If the path is still a directory, call jump_to and refresh;
    /// otherwise report that the bookmark is stale.
    JumpTo { key: char, path: String },
}

// ---------------------------------------------------------------------------
// Small string helpers for buffers and messages
// ---------------------------------------------------------------------------
pub(crate) fn push_char(s: &mut String, c: char)
    ensures
        final(s)@ == old(s)@.push(c),
{
    let cs = char_string(c);
    s.append(cs.as_str());
    proof {
        assert(old(s)@ + seq![c] =~= old(s)@.push(c));
    }
}

pub(crate) fn string_pop(s: &mut String)
    ensures
        final(s)@ == (if old(s)@.len() > 0 {
            old(s)@.drop_last()
        } else {
            old(s)@
        }),
{
    let len = s.as_str().unicode_len();
    if len > 0 {
        let t = String::from_str(s.as_str().substring_char(0, len - 1));
        *s = t;
    }
}

pub(crate) fn count_msg(prefix: &str, n: usize, suffix: &str) -> (r: String)
    ensures
        r@ == prefix@ + dec_seq(n as int) + suffix@,
{
    let mut s = String::from_str(prefix);
    let ns = usize_to_string(n);
    s.append(ns.as_str());
    s.append(suffix);
    proof {
        assert(s@ =~= prefix@ + dec_seq(n as int) + suffix@);
    }
    s
}

// ---------------------------------------------------------------------------
// Bookmarks
// ---------------------------------------------------------------------------
/// The directory stored under a bookmark key, first entry winning.
pub open spec fn bookmark_for(bs: Seq<(char, String)>, c: char) -> Option<Seq<char>>
    decreases bs.len(),
{
    if bs.len() == 0 {
        None
    } else if bs.first().0 == c {
        Some(bs.first().1@)
    } else {
        bookmark_for(bs.drop_first(), c)
    }
}

proof fn lemma_bookmark_first(bs: Seq<(char, String)>, c: char, j: int)
    requires
        0 <= j < bs.len(),
        bs[j].0 == c,
        forall|k: int| 0 <= k < j ==> bs[k].0 != c,
    ensures
        bookmark_for(bs, c) == Some(bs[j].1@),
    decreases j,
{
    if j > 0 {
        lemma_bookmark_first(bs.drop_first(), c, j - 1);
    }
}

proof fn lemma_bookmark_absent_push(bs: Seq<(char, String)>, c: char, x: (char, String))
    requires
        forall|k: int| 0 <= k < bs.len() ==> bs[k].0 != c,
        x.0 == c,
    ensures
        bookmark_for(bs.push(x), c) == Some(x.1@),
    decreases bs.len(),
{
    if bs.len() > 0 {
        assert(bs.push(x).drop_first() =~= bs.drop_first().push(x));
        lemma_bookmark_absent_push(bs.drop_first(), c, x);
    }
}



/// The control chords that manage tabs in normal mode (control-C, the
/// quit chord, among them).
pub open spec fn is_tab_chord(key: KeyInput) -> bool {
    key.ctrl && (key.code == Key::Char('c') || key.code == Key::Char('y') || key.code
        == Key::Char('t') || key.code == Key::Char('w') || key.code == Key::Right || key.code
        == Key::Left)
}

/// Alt with a digit 1 through 9 addresses a tab directly.
pub open spec fn is_tab_digit(key: KeyInput) -> bool {
    key.alt && (match key.code {
        Key::Char(c) => 49 <= (c as u32) && (c as u32) <= 57,
        _ => false,
    })
}

/// One normal-mode key.  A pending first key of a two-key command always
/// consumes the event; otherwise cursor motion, mode entries, opening,
/// going up, view and hidden toggles and path copying are pinned down for
/// both the flat listing and the tree.
pub open spec fn normal_mode_step(pre: App, post: App, key: KeyInput, r: (bool, Effect)) -> bool {
    let t0 = pre.tabs@[pre.active_tab as int];
    let t1 = post.tabs@[pre.active_tab as int];
    &&& post.tabs@.len() == pre.tabs@.len()
    &&& post.active_tab == pre.active_tab
    &&& r.0 == (!any_pending(pre) && key.code == Key::Char('q'))
    &&& (pre.pending_g ==> !post.pending_g)
    &&& (!pre.pending_g && pre.pending_d ==> !post.pending_d)
    &&& (!pre.pending_g && !pre.pending_d && pre.pending_y ==> !post.pending_y)
    &&& (!pre.pending_g && !pre.pending_d && !pre.pending_y && pre.pending_p ==> !post.pending_p)
    &&& (pre.pending_g ==> (r.1 is Nothing))
    &&& (pre.pending_g && key.code != Key::Char('g') ==> post.tabs@ == pre.tabs@)
    &&& (pre.pending_g && key.code == Key::Char('g') ==> {
        &&& (t0.tree_mode ==> t1 == (Tab { tree_cursor: 0, ..t0 }))
        &&& (!t0.tree_mode ==> t1 == (Tab { cursor: 0, ..t0 }))
    })
    &&& (!pre.pending_g && pre.pending_d && key.code != Key::Char('d') ==> post.tabs@ == pre.tabs@
        && (r.1 is Nothing))
    &&& (!pre.pending_g && !pre.pending_d && pre.pending_y && key.code != Key::Char('y')
        ==> post.tabs@ == pre.tabs@ && (r.1 is Nothing) && post.pending_op == pre.pending_op)
    &&& (!pre.pending_g && !pre.pending_d && !pre.pending_y && pre.pending_p && key.code
        != Key::Char('p') ==> post.tabs@ == pre.tabs@ && (r.1 is Nothing))
    &&& (!any_pending(pre) && key.code == Key::Char('g') ==> post.pending_g && post.tabs@
        == pre.tabs@)
    // over the flat listing
    &&& (!any_pending(pre) && !t0.tree_mode ==> {
        &&& ((key.code == Key::Char('j') || key.code == Key::Down) ==> t1.cursor == (if t0.cursor
            + 1 < t0.filtered_entries@.len() {
            t0.cursor + 1
        } else {
            t0.cursor as int
        }))
        &&& ((key.code == Key::Char('k') || key.code == Key::Up) ==> t1.cursor == (if t0.cursor
            > 0 {
            t0.cursor - 1
        } else {
            0int
        }))
        &&& (key.code == Key::Char('G') ==> t1.cursor == (if t0.filtered_entries@.len() == 0 {
            0int
        } else {
            t0.filtered_entries@.len() - 1
        }))
        &&& (key.code == Key::Char('/') ==> post.input_mode == InputMode::Filter
            && post.input_buffer@.len() == 0)
        &&& (key.code == Key::Char('n') ==> post.input_mode == InputMode::CreateFile)
        &&& (key.code == Key::Char('N') ==> post.input_mode == InputMode::CreateDir)
        &&& (key.code == Key::Char('m') ==> post.input_mode == InputMode::Bookmark)
        &&& (key.code == Key::Char(0x27 as char) ==> post.input_mode == InputMode::JumpBookmark)
        &&& (key.code == Key::Char('F') ==> post.input_mode == InputMode::Search)
        // opening the entry under the cursor
        &&& ((key.code == Key::Char('l') || key.code == Key::Right || key.code == Key::Enter)
            ==> (if t0.filtered_entries@.len() == 0 {
            t1 == t0 && (r.1 is Nothing)
        } else {
            let e = t0.entries@[t0.filtered_entries@[t0.cursor as int] as int];
            if e.is_dir {
                &&& t1 == (Tab { current_dir: t1.current_dir, cursor: t1.cursor, ..t0 })
                &&& t1.current_dir == e.path
                &&& t1.cursor == 0
                &&& (match r.1 {
                    Effect::Refresh { focus } => focus is None,
                    _ => false,
                })
            } else {
                t1 == t0 && (match r.1 {
                    Effect::OpenPath { path } => path@ == e.path@,
                    _ => false,
                })
            }
        }))
        // stepping into the parent directory
        &&& ((key.code == Key::Char('h') || key.code == Key::Left) ==> (match parent_spec(
            t0.current_dir@,
        ) {
            Some(p) => {
                &&& t1 == (Tab { current_dir: t1.current_dir, cursor: t1.cursor, ..t0 })
                &&& t1.current_dir@ == p
                &&& t1.cursor == 0
                &&& (match r.1 {
                    Effect::Refresh { focus } => (match focus {
                        Some(n) => n@ == file_name_spec(t0.current_dir@),
                        None => false,
                    }),
                    _ => false,
                })
            },
            None => t1 == t0 && (r.1 is Nothing),
        }))
        &&& (key.code == Key::Char('.') ==> t1 == (Tab { show_hidden: !t0.show_hidden, ..t0 })
            && (match r.1 {
            Effect::Refresh { focus } => focus is None,
            _ => false,
        }))
        &&& (key.code == Key::Char('Y') ==> (if t0.filtered_entries@.len() == 0 {
            t1 == t0 && (r.1 is Nothing)
        } else {
            let e = t0.entries@[t0.filtered_entries@[t0.cursor as int] as int];
            t1 == t0 && (match r.1 {
                Effect::CopyPathText { path } => path@ == e.path@,
                _ => false,
            })
        }))
    })
    // over the tree
    &&& (!any_pending(pre) && t0.tree_mode ==> {
        &&& ((key.code == Key::Char('j') || key.code == Key::Down) ==> t1.tree_cursor == (if t0.tree_cursor + 1 < t0.tree_nodes@.len() {
            t0.tree_cursor + 1
        } else {
            t0.tree_cursor as int
        }))
        &&& ((key.code == Key::Char('k') || key.code == Key::Up) ==> t1.tree_cursor == (if t0.tree_cursor > 0 {
            t0.tree_cursor - 1
        } else {
            0int
        }))
        &&& (key.code == Key::Char('G') ==> t1.tree_cursor == (if t0.tree_nodes@.len() == 0 {
            0int
        } else {
            t0.tree_nodes@.len() - 1
        }))
        // opening the row under the tree cursor
        &&& ((key.code == Key::Char('l') || key.code == Key::Right || key.code == Key::Enter)
            ==> (if t0.tree_nodes@.len() == 0 {
            t1 == t0 && (r.1 is Nothing)
        } else {
            let node = t0.tree_nodes@[t0.tree_cursor as int];
            if node.entry.is_dir {
                &&& t1 == (Tab { tree_expanded: t1.tree_expanded, ..t0 })
                &&& str_seq_has(t1.tree_expanded@, node.entry.path@) == !str_seq_has(
                    t0.tree_expanded@,
                    node.entry.path@,
                )
                &&& (r.1 is RebuildTree)
            } else {
                t1 == t0 && (match r.1 {
                    Effect::OpenPath { path } => path@ == node.entry.path@,
                    _ => false,
                })
            }
        }))
        &&& (key.code == Key::Char('.') ==> t1 == (Tab { show_hidden: !t0.show_hidden, ..t0 })
            && (r.1 is RebuildTree))
        &&& (key.code == Key::Char('Y') ==> (if t0.tree_nodes@.len() == 0 {
            t1 == t0 && (r.1 is Nothing)
        } else {
            let node = t0.tree_nodes@[t0.tree_cursor as int];
            t1 == t0 && (match r.1 {
                Effect::CopyPathText { path } => path@ == node.entry.path@,
                _ => false,
            })
        }))
    })
    // flipping the view works the same from either side
    &&& (!any_pending(pre) && key.code == Key::Char('t') ==> {
        &&& t1 == (Tab { tree_mode: t1.tree_mode, ..t0 })
        &&& t1.tree_mode == !t0.tree_mode
        &&& (t1.tree_mode ==> (r.1 is RebuildTree))
        &&& (!t1.tree_mode ==> (r.1 is Nothing))
    })
}

// ---------------------------------------------------------------------------
// The session
// ---------------------------------------------------------------------------
/// The whole interactive session: the open tabs, the modal dispatcher's
/// state, bookmarks, the staged paste operation, the pending first keys of
/// the two-key commands, and the latest search results.
pub struct App {
    pub tabs: Vec<Tab>,
    pub active_tab: usize,
    pub config: Config,
    pub pending_op: Option<PendingOp>,
    pub input_mode: InputMode,
    pub input_buffer: String,
    pub status_message: Option<String>,
    pub bookmarks: Vec<(char, String)>,
    pub pending_g: bool,
    pub pending_d: bool,
    pub pending_y: bool,
    pub pending_p: bool,
    pub mouse_areas: MouseAreas,
    pub search_results: Vec<SearchResult>,
    pub search_cursor: usize,
}


pub open spec fn any_pending(a: App) -> bool {
    a.pending_g || a.pending_d || a.pending_y || a.pending_p
}

// ---------------------------------------------------------------------------
// What one step of each mode guarantees
// ---------------------------------------------------------------------------
// Each predicate relates the session before and after one key of its mode
// to the result handed back.  The mode's handler ensures its predicate,
// and handle_key carries every one of them through the dispatch.

/// Typing a filter: every change refilters at once; escape clears filter
/// and buffer, enter descends into a matched directory.
pub open spec fn filter_mode_step(pre: App, post: App, key: KeyInput, r: (bool, Effect)) -> bool {
    let t0 = pre.tabs@[pre.active_tab as int];
    let t1 = post.tabs@[pre.active_tab as int];
    &&& !r.0
    &&& post.tabs@.len() == pre.tabs@.len()
    &&& post.active_tab == pre.active_tab
    &&& t1.selected@ == t0.selected@
    &&& (key.code == Key::Esc ==> {
        &&& post.input_mode == InputMode::Normal
        &&& post.input_buffer@.len() == 0
        &&& t1.filter_text@.len() == 0
        &&& t1.entries == t0.entries
        &&& t1.filtered_entries@ == filter_spec(t0.entries@, t1.filter_text@)
        &&& (r.1 is Nothing)
    })
    &&& (match key.code {
        Key::Char(c) => {
            &&& post.input_buffer@ == pre.input_buffer@.push(c)
            &&& t1.filter_text@ == post.input_buffer@
            &&& t1.entries == t0.entries
            &&& t1.filtered_entries@ == filter_spec(t0.entries@, t1.filter_text@)
            &&& (r.1 is Nothing)
        },
        _ => true,
    })
    &&& (key.code == Key::Backspace ==> {
        &&& post.input_buffer@ == (if pre.input_buffer@.len() > 0 {
            pre.input_buffer@.drop_last()
        } else {
            pre.input_buffer@
        })
        &&& t1.filter_text@ == post.input_buffer@
        &&& t1.entries == t0.entries
        &&& t1.filtered_entries@ == filter_spec(t0.entries@, t1.filter_text@)
        &&& (r.1 is Nothing)
    })
    &&& (key.code == Key::Enter ==> {
        &&& post.input_mode == InputMode::Normal
        &&& (if t0.filtered_entries@.len() > 0 && t0.entries@[t0.filtered_entries@[t0.cursor as int] as int].is_dir {
            let e = t0.entries@[t0.filtered_entries@[t0.cursor as int] as int];
            &&& t1.current_dir == e.path
            &&& t1.cursor == 0
            &&& t1.filter_text@.len() == 0
            &&& post.input_buffer@.len() == 0
            &&& t1.entries == t0.entries
            &&& t1.filtered_entries@ == filter_spec(t0.entries@, t1.filter_text@)
            &&& (match r.1 {
                Effect::Refresh { focus } => focus is None,
                _ => false,
            })
        } else {
            t1 == t0 && (r.1 is Nothing)
        })
    })
}

/// Typing a name for rename or creation: enter commits the buffer as the
/// matching operation on the tab's directory or selected entry.
pub open spec fn input_mode_step(pre: App, post: App, key: KeyInput, r: (bool, Effect)) -> bool {
    let t0 = pre.tabs@[pre.active_tab as int];
    &&& !r.0
    &&& post.tabs == pre.tabs
    &&& post.active_tab == pre.active_tab
    &&& (key.code == Key::Esc ==> post.input_mode == InputMode::Normal && post.input_buffer@.len()
        == 0 && (r.1 is Nothing))
    &&& (match key.code {
        Key::Char(c) => post.input_buffer@ == pre.input_buffer@.push(c) && (r.1 is Nothing),
        _ => true,
    })
    &&& (key.code == Key::Backspace ==> post.input_buffer@ == (if pre.input_buffer@.len() > 0 {
        pre.input_buffer@.drop_last()
    } else {
        pre.input_buffer@
    }) && (r.1 is Nothing))
    &&& (key.code == Key::Enter ==> {
        &&& post.input_mode == InputMode::Normal
        &&& post.input_buffer@.len() == 0
        &&& (pre.input_mode == InputMode::Rename ==> (if t0.filtered_entries@.len() > 0 {
            let e = t0.entries@[t0.filtered_entries@[t0.cursor as int] as int];
            match r.1 {
                Effect::RenamePath { path, new_name } => path@ == e.path@ && new_name@
                    == pre.input_buffer@,
                _ => false,
            }
        } else {
            match r.1 {
                Effect::Refresh { focus } => focus is None,
                _ => false,
            }
        }))
        &&& (pre.input_mode == InputMode::CreateFile ==> (match r.1 {
            Effect::CreateFileIn { dir, name } => dir@ == t0.current_dir@ && name@
                == pre.input_buffer@,
            _ => false,
        }))
        &&& (pre.input_mode == InputMode::CreateDir ==> (match r.1 {
            Effect::CreateDirIn { dir, name } => dir@ == t0.current_dir@ && name@
                == pre.input_buffer@,
            _ => false,
        }))
    })
}

/// The next character names a bookmark for the current directory.
pub open spec fn bookmark_mode_step(pre: App, post: App, key: KeyInput, r: (bool, Effect)) -> bool {
    &&& !r.0
    &&& (r.1 is Nothing)
    &&& post.input_mode == InputMode::Normal
    &&& post.tabs == pre.tabs
    &&& post.active_tab == pre.active_tab
    &&& (match key.code {
        Key::Char(c) => bookmark_for(post.bookmarks@, c) == Some(
            pre.tabs@[pre.active_tab as int].current_dir@,
        ),
        _ => post.bookmarks == pre.bookmarks,
    })
}

/// The next character picks a bookmark; a known one becomes a jump request
/// for the loop, an unknown one only a message.
pub open spec fn jump_mode_step(pre: App, post: App, key: KeyInput, r: (bool, Effect)) -> bool {
    &&& !r.0
    &&& post.input_mode == InputMode::Normal
    &&& post.tabs == pre.tabs
    &&& post.active_tab == pre.active_tab
    &&& (match key.code {
        Key::Char(c) => (match bookmark_for(pre.bookmarks@, c) {
            Some(p) => (match r.1 {
                Effect::JumpTo { key: k, path } => k == c && path@ == p,
                _ => false,
            }),
            None => (r.1 is Nothing) && post.status_message is Some,
        }),
        _ => r.1 is Nothing,
    })
}

/// Typing an octal mode: only up to four of the digits 0 through 7 are
/// taken; enter applies the typed mode to the entry under the cursor.
pub open spec fn chmod_mode_step(pre: App, post: App, key: KeyInput, r: (bool, Effect)) -> bool {
    let t0 = pre.tabs@[pre.active_tab as int];
    &&& !r.0
    &&& post.tabs == pre.tabs
    &&& post.active_tab == pre.active_tab
    &&& (key.code == Key::Esc ==> post.input_mode == InputMode::Normal && post.input_buffer@.len()
        == 0 && (r.1 is Nothing))
    &&& (match key.code {
        Key::Char(c) => post.input_buffer@ == (if octal_val(c) < 8 && pre.input_buffer@.len() < 4 {
            pre.input_buffer@.push(c)
        } else {
            pre.input_buffer@
        }) && (r.1 is Nothing),
        _ => true,
    })
    &&& (key.code == Key::Backspace ==> post.input_buffer@ == (if pre.input_buffer@.len() > 0 {
        pre.input_buffer@.drop_last()
    } else {
        pre.input_buffer@
    }) && (r.1 is Nothing))
    &&& (key.code == Key::Enter ==> {
        &&& post.input_mode == InputMode::Normal
        &&& post.input_buffer@.len() == 0
        &&& (if t0.filtered_entries@.len() > 0 {
            let e = t0.entries@[t0.filtered_entries@[t0.cursor as int] as int];
            match r.1 {
                Effect::ApplyChmod { path, mode } => path@ == e.path@ && mode@
                    == pre.input_buffer@,
                _ => false,
            }
        } else {
            r.1 is Nothing
        })
    })
}

/// Typing a search pattern: enter with text hands the scan to the loop and
/// always empties the buffer; with no text the mode simply closes.
pub open spec fn search_mode_step(pre: App, post: App, key: KeyInput, r: (bool, Effect)) -> bool {
    let t0 = pre.tabs@[pre.active_tab as int];
    &&& !r.0
    &&& post.tabs == pre.tabs
    &&& post.active_tab == pre.active_tab
    &&& (key.code == Key::Esc ==> post.input_mode == InputMode::Normal && post.input_buffer@.len()
        == 0 && (r.1 is Nothing))
    &&& (match key.code {
        Key::Char(c) => post.input_buffer@ == pre.input_buffer@.push(c) && (r.1 is Nothing),
        _ => true,
    })
    &&& (key.code == Key::Backspace ==> post.input_buffer@ == (if pre.input_buffer@.len() > 0 {
        pre.input_buffer@.drop_last()
    } else {
        pre.input_buffer@
    }) && (r.1 is Nothing))
    &&& (key.code == Key::Enter ==> {
        &&& post.input_buffer@.len() == 0
        &&& (if pre.input_buffer@.len() > 0 {
            match r.1 {
                Effect::RunSearch { dir, pattern } => dir@ == t0.current_dir@ && pattern@
                    == pre.input_buffer@,
                _ => false,
            }
        } else {
            post.input_mode == InputMode::Normal && (r.1 is Nothing)
        })
    })
}

/// Walking the search results: j and k move over exactly the hits, enter
/// jumps to the hit's directory, escape or q closes the pane.
pub open spec fn results_mode_step(pre: App, post: App, key: KeyInput, r: (bool, Effect)) -> bool {
    let t0 = pre.tabs@[pre.active_tab as int];
    let t1 = post.tabs@[pre.active_tab as int];
    &&& !r.0
    &&& post.tabs@.len() == pre.tabs@.len()
    &&& post.active_tab == pre.active_tab
    &&& ((key.code == Key::Esc || key.code == Key::Char('q')) ==> post.input_mode
        == InputMode::Normal && post.search_results@.len() == 0 && (r.1 is Nothing) && post.tabs
        == pre.tabs)
    &&& ((key.code == Key::Char('j') || key.code == Key::Down) ==> post.search_cursor == (if pre.search_cursor + 1 < pre.search_results@.len() {
        pre.search_cursor + 1
    } else {
        pre.search_cursor as int
    }) && post.search_results == pre.search_results && post.tabs == pre.tabs && (r.1 is Nothing))
    &&& ((key.code == Key::Char('k') || key.code == Key::Up) ==> post.search_cursor == (if pre.search_cursor > 0 {
        pre.search_cursor - 1
    } else {
        0int
    }) && post.search_results == pre.search_results && post.tabs == pre.tabs && (r.1 is Nothing))
    &&& (key.code == Key::Char('G') ==> post.search_cursor == (if pre.search_results@.len() == 0 {
        0int
    } else {
        pre.search_results@.len() - 1
    }) && post.tabs == pre.tabs && (r.1 is Nothing))
    &&& (key.code == Key::Char('g') ==> post.search_cursor == 0 && post.tabs == pre.tabs && (r.1
        is Nothing))
    &&& (key.code == Key::Enter ==> (if (pre.search_cursor as int) < pre.search_results@.len() {
        let res = pre.search_results@[pre.search_cursor as int];
        &&& post.input_mode == InputMode::Normal
        &&& post.search_results@.len() == 0
        &&& post.status_message is Some
        &&& (match parent_spec(res.path@) {
            Some(p) => {
                &&& t1 == (Tab { current_dir: t1.current_dir, cursor: t1.cursor, ..t0 })
                &&& t1.current_dir@ == p
                &&& t1.cursor == 0
                &&& (match r.1 {
                    Effect::Refresh { focus } => (match focus {
                        Some(n) => n@ == file_name_spec(res.path@),
                        None => false,
                    }),
                    _ => false,
                })
            },
            None => (r.1 is Nothing) && post.tabs == pre.tabs,
        })
    } else {
        post == pre && (r.1 is Nothing)
    }))
}

impl App {
    /// There is always at least one tab, the active index points at one,
    /// every tab is well formed, and the search cursor stays in range.
    pub open spec fn wf(self) -> bool {
        &&& self.tabs@.len() >= 1
        &&& (self.active_tab as int) < self.tabs@.len()
        &&& forall|i: int| 0 <= i < self.tabs@.len() ==> (#[trigger] self.tabs@[i]).wf()
        &&& (self.search_results@.len() > 0 ==> (self.search_cursor as int)
            < self.search_results@.len())
    }

    /// A session with one still-empty tab on the given directory; the
    /// first refresh fills it.
    pub fn with_dir(config: Config, dir: String) -> (a: App)
        ensures
            a.wf(),
            a.tabs@.len() == 1,
            a.active_tab == 0,
            a.tabs@[0].current_dir == dir,
            a.tabs@[0].show_hidden == config.show_hidden,
            a.tabs@[0].sort_by == config.sort_by,
            a.input_mode == InputMode::Normal,
            a.input_buffer@.len() == 0,
            a.status_message is None,
            a.bookmarks@.len() == 0,
            !a.pending_g && !a.pending_d && !a.pending_y && !a.pending_p,
            a.pending_op is None,
            a.search_results@.len() == 0,
            a.search_cursor == 0,
    {
        let show_hidden = config.show_hidden;
        let sort_by = config.sort_by;
        let tab = Tab::new(dir, show_hidden, sort_by);
        let mut tabs: Vec<Tab> = Vec::new();
        tabs.push(tab);
        App {
            tabs,
            active_tab: 0,
            config,
            pending_op: None,
            input_mode: InputMode::Normal,
            input_buffer: String::new(),
            status_message: None,
            bookmarks: Vec::new(),
            pending_g: false,
            pending_d: false,
            pending_y: false,
            pending_p: false,
            mouse_areas: MouseAreas::default(),
            search_results: Vec::new(),
            search_cursor: 0,
        }
    }

    /// The active tab.
    pub fn tab(&self) -> (r: &Tab)
        requires
            self.wf(),
        ensures
            *r == self.tabs@[self.active_tab as int],
    {
        &self.tabs[self.active_tab]
    }

    /// The active tab, to change it.
    pub fn tab_mut(&mut self) -> (r: &mut Tab)
        requires
            old(self).wf(),
        ensures
            *r == old(self).tabs@[old(self).active_tab as int],
            final(self).tabs@ == old(self).tabs@.update(old(self).active_tab as int, *final(r)),
            *final(self) == (App { tabs: final(self).tabs, ..*old(self) }),
    {
        &mut self.tabs[self.active_tab]
    }

    pub fn current_dir(&self) -> (r: &String)
        requires
            self.wf(),
        ensures
            *r == self.tabs@[self.active_tab as int].current_dir,
    {
        &self.tabs[self.active_tab].current_dir
    }

    pub fn entries(&self) -> (r: &Vec<FileEntry>)
        requires
            self.wf(),
        ensures
            *r == self.tabs@[self.active_tab as int].entries,
    {
        &self.tabs[self.active_tab].entries
    }

    pub fn visible_entries(&self) -> (r: Vec<FileEntry>)
        requires
            self.wf(),
        ensures
            r@ == self.tabs@[self.active_tab as int].visible_seq(),
    {
        self.tabs[self.active_tab].visible_entries()
    }

    pub fn selected_entry(&self) -> (r: Option<&FileEntry>)
        requires
            self.wf(),
        ensures
            (match r {
                Some(e) => {
                    let t = self.tabs@[self.active_tab as int];
                    t.filtered_entries@.len() > 0 && *e == t.entries@[
                        t.filtered_entries@[t.cursor as int] as int
                    ]
                },
                None => self.tabs@[self.active_tab as int].filtered_entries@.len() == 0,
            }),
    {
        self.tabs[self.active_tab].selected_entry()
    }

    pub fn cursor(&self) -> (r: usize)
        requires
            self.wf(),
        ensures
            r == self.tabs@[self.active_tab as int].cursor,
    {
        self.tabs[self.active_tab].cursor
    }

    pub fn parent_entries(&self) -> (r: &Vec<FileEntry>)
        requires
            self.wf(),
        ensures
            *r == self.tabs@[self.active_tab as int].parent_entries,
    {
        &self.tabs[self.active_tab].parent_entries
    }

    pub fn parent_cursor(&self) -> (r: usize)
        requires
            self.wf(),
        ensures
            r == self.tabs@[self.active_tab as int].parent_cursor,
    {
        self.tabs[self.active_tab].parent_cursor
    }

    pub fn preview_lines(&self) -> (r: &Vec<PreviewLine>)
        requires
            self.wf(),
        ensures
            *r == self.tabs@[self.active_tab as int].preview_lines,
    {
        &self.tabs[self.active_tab].preview_lines
    }

    pub fn selected(&self) -> (r: &Vec<String>)
        requires
            self.wf(),
        ensures
            *r == self.tabs@[self.active_tab as int].selected,
    {
        &self.tabs[self.active_tab].selected
    }

    pub fn git_statuses(&self) -> (r: &Vec<(String, GitFileStatus)>)
        requires
            self.wf(),
        ensures
            *r == self.tabs@[self.active_tab as int].git_statuses,
    {
        &self.tabs[self.active_tab].git_statuses
    }

    pub fn file_count(&self) -> (r: usize)
        requires
            self.wf(),
        ensures
            r == self.tabs@[self.active_tab as int].filtered_entries@.len(),
    {
        self.tabs[self.active_tab].file_count()
    }

    pub fn selection_count(&self) -> (r: usize)
        requires
            self.wf(),
        ensures
            r == self.tabs@[self.active_tab as int].selected@.len(),
    {
        self.tabs[self.active_tab].selection_count()
    }

    pub fn breadcrumb(&self) -> (r: String)
        requires
            self.wf(),
        ensures
            r@ == self.tabs@[self.active_tab as int].current_dir@,
    {
        self.tabs[self.active_tab].breadcrumb()
    }

    pub fn show_hidden(&self) -> (r: bool)
        requires
            self.wf(),
        ensures
            r == self.tabs@[self.active_tab as int].show_hidden,
    {
        self.tabs[self.active_tab].show_hidden
    }

    pub fn sort_by(&self) -> (r: SortBy)
        requires
            self.wf(),
        ensures
            r == self.tabs@[self.active_tab as int].sort_by,
    {
        self.tabs[self.active_tab].sort_by
    }

    /// Hand a fresh listing of the active tab's directory (and parent, and
    /// status tags) to that tab.
    pub fn refresh(
        &mut self,
        raw: Vec<FileEntry>,
        parent_raw: Option<Vec<FileEntry>>,
        statuses: Vec<(String, GitFileStatus)>,
    )
        requires
            old(self).wf(),
        ensures
            final(self).wf(),
            final(self).active_tab == old(self).active_tab,
            final(self).tabs@ == old(self).tabs@.update(
                old(self).active_tab as int,
                final(self).tabs@[old(self).active_tab as int],
            ),
            crate::tab::refreshed(
                old(self).tabs@[old(self).active_tab as int],
                final(self).tabs@[old(self).active_tab as int],
                raw@,
                parent_raw,
                statuses@,
            ),
            *final(self) == (App { tabs: final(self).tabs, ..*old(self) }),
    {
        let tab = &mut self.tabs[self.active_tab];
        tab.refresh(raw, parent_raw, statuses);
        proof {
            assert(self.tabs@ =~= old(self).tabs@.update(
                old(self).active_tab as int,
                self.tabs@[old(self).active_tab as int],
            ));
        }
        proof {
            assert forall|i: int| 0 <= i < self.tabs@.len() implies (#[trigger] self.tabs@[i]).wf()
            by {
                if i != old(self).active_tab {
                    assert(self.tabs@[i] == old(self).tabs@[i]);
                }
            }
        }
    }

    // -----------------------------------------------------------------------
    // Tab lifecycle
    // -----------------------------------------------------------------------
    /// Open a fresh tab on the active tab's directory, right after it, and
    /// make it active; its listing comes with the next refresh.
    pub fn new_tab(&mut self)
        requires
            old(self).wf(),
        ensures
            final(self).wf(),
            final(self).tabs@.len() == old(self).tabs@.len() + 1,
            final(self).active_tab == old(self).active_tab + 1,
            forall|i: int| 0 <= i <= old(self).active_tab ==> final(self).tabs@[i] == old(self).tabs@[i],
            forall|i: int|
                old(self).active_tab + 1 < i < final(self).tabs@.len() ==> final(self).tabs@[i]
                    == old(self).tabs@[i - 1],
            final(self).tabs@[final(self).active_tab as int].current_dir@ == old(self).tabs@[old(self).active_tab as int].current_dir@,
            final(self).tabs@[final(self).active_tab as int].entries@.len() == 0,
            final(self).tabs@[final(self).active_tab as int].show_hidden == old(self).tabs@[old(self).active_tab as int].show_hidden,
            final(self).tabs@[final(self).active_tab as int].sort_by == old(self).tabs@[old(self).active_tab as int].sort_by,
    {
        let dir = self.tabs[self.active_tab].current_dir.clone();
        let show_hidden = self.tabs[self.active_tab].show_hidden;
        let sort_by = self.tabs[self.active_tab].sort_by;
        let tab = Tab::new(dir, show_hidden, sort_by);
        let n = self.tabs.len();
        proof {
            assert(self.active_tab < n);
        }
        self.active_tab = self.active_tab + 1;
        self.tabs.insert(self.active_tab, tab);
        proof {
            assert forall|i: int| 0 <= i < self.tabs@.len() implies (#[trigger] self.tabs@[i]).wf()
            by {
                if i < old(self).active_tab + 1 {
                    assert(self.tabs@[i] == old(self).tabs@[i]);
                } else if i > old(self).active_tab + 1 {
                    assert(self.tabs@[i] == old(self).tabs@[i - 1]);
                }
            }
        }
    }

    /// Close the active tab.  Closing the last one means quitting: the
    /// result is true and the session is left as it is.
    pub fn close_tab(&mut self) -> (r: bool)
        requires
            old(self).wf(),
        ensures
            final(self).wf(),
            r == (old(self).tabs@.len() == 1),
            r ==> *final(self) == *old(self),
            !r ==> {
                &&& final(self).tabs@ == old(self).tabs@.remove(old(self).active_tab as int)
                &&& final(self).active_tab == (if (old(self).active_tab as int) < final(self).tabs@.len() {
                    old(self).active_tab as int
                } else {
                    final(self).tabs@.len() - 1
                })
            },
    {
        if self.tabs.len() <= 1 {
            return true;
        }
        self.tabs.remove(self.active_tab);
        if self.active_tab >= self.tabs.len() {
            self.active_tab = self.tabs.len() - 1;
        }
        proof {
            assert forall|i: int| 0 <= i < self.tabs@.len() implies (#[trigger] self.tabs@[i]).wf()
            by {
                if i < old(self).active_tab {
                    assert(self.tabs@[i] == old(self).tabs@[i]);
                } else {
                    assert(self.tabs@[i] == old(self).tabs@[i + 1]);
                }
            }
        }
        false
    }

    /// The tab to the right, wrapping around.
    pub fn next_tab(&mut self)
        requires
            old(self).wf(),
        ensures
            final(self).wf(),
            final(self).tabs == old(self).tabs,
            final(self).active_tab == (if old(self).active_tab + 1 < old(self).tabs@.len() {
                old(self).active_tab + 1
            } else {
                0int
            }),
            *final(self) == (App {
                active_tab: final(self).active_tab,
                tabs: final(self).tabs,
                ..*old(self)
            }),
    {
        let n = self.tabs.len();
        proof {
            assert(self.active_tab < n);
        }
        if self.active_tab + 1 < n {
            self.active_tab = self.active_tab + 1;
        } else {
            self.active_tab = 0;
        }
    }

    /// The tab to the left, wrapping around.
    pub fn prev_tab(&mut self)
        requires
            old(self).wf(),
        ensures
            final(self).wf(),
            final(self).tabs == old(self).tabs,
            final(self).active_tab == (if old(self).active_tab == 0 {
                old(self).tabs@.len() - 1
            } else {
                old(self).active_tab - 1
            }),
            *final(self) == (App {
                active_tab: final(self).active_tab,
                tabs: final(self).tabs,
                ..*old(self)
            }),
    {
        if self.active_tab == 0 {
            self.active_tab = self.tabs.len() - 1;
        } else {
            self.active_tab = self.active_tab - 1;
        }
    }

    // -----------------------------------------------------------------------
    // Callbacks the event loop uses to feed outside results back in
    // -----------------------------------------------------------------------
    /// Take in what a search under the current directory found: none means
    /// back to normal with a message, some means the results pane opens on
    /// the first hit.
    pub fn apply_search_results(&mut self, pattern: &String, results: Vec<SearchResult>)
        requires
            old(self).wf(),
        ensures
            final(self).wf(),
            results@.len() == 0 ==> final(self).input_mode == InputMode::Normal && final(self).search_results@.len() == 0,
            results@.len() > 0 ==> final(self).input_mode == InputMode::SearchResults && final(self).search_results@ == results@ && final(self).search_cursor == 0,
            final(self).status_message is Some,
            final(self).tabs == old(self).tabs,
            final(self).active_tab == old(self).active_tab,
    {
        let count = results.len();
        self.search_results = results;
        self.search_cursor = 0;
        if count == 0 {
            self.input_mode = InputMode::Normal;
            let mut msg = String::from_str("No results for \"");
            msg.append(pattern.as_str());
            msg.append("\"");
            self.status_message = Some(msg);
        } else {
            self.input_mode = InputMode::SearchResults;
            let mut msg = usize_to_string(count);
            msg.append(" results for \"");
            msg.append(pattern.as_str());
            msg.append("\" — j/k navigate, Enter open, Esc close");
            self.status_message = Some(msg);
        }
    }

    /// Enter chmod mode with the path's current octal mode in the buffer.
    pub fn begin_chmod(&mut self, mode_str: String)
        requires
            old(self).wf(),
        ensures
            final(self).wf(),
            final(self).input_mode == InputMode::Chmod,
            final(self).input_buffer@ == mode_str@,
            final(self).status_message is Some,
            final(self).tabs == old(self).tabs,
            final(self).active_tab == old(self).active_tab,
    {
        let mut msg = String::from_str("chmod (octal): ");
        msg.append(mode_str.as_str());
        self.input_buffer = mode_str;
        self.input_mode = InputMode::Chmod;
        self.status_message = Some(msg);
    }

    /// Move the active tab to a directory a bookmark named; the caller has
    /// checked that it still exists, and refreshes afterwards.
    pub fn jump_to(&mut self, path: String)
        requires
            old(self).wf(),
        ensures
            final(self).wf(),
            final(self).tabs@[final(self).active_tab as int].current_dir == path,
            final(self).tabs@[final(self).active_tab as int].cursor == 0,
            final(self).active_tab == old(self).active_tab,
            final(self).tabs@.len() == old(self).tabs@.len(),
    {
        let tab = &mut self.tabs[self.active_tab];
        tab.current_dir = path;
        tab.cursor = 0;
        proof {
            assert forall|i: int| 0 <= i < self.tabs@.len() implies (#[trigger] self.tabs@[i]).wf()
            by {
                if i != old(self).active_tab {
                    assert(self.tabs@[i] == old(self).tabs@[i]);
                }
            }
        }
    }

    // -----------------------------------------------------------------------
    // Bookmarks
    // -----------------------------------------------------------------------
    /// The directory a bookmark key names, if any.
    pub fn bookmark_lookup(&self, c: char) -> (r: Option<String>)
        ensures
            (match r {
                Some(p) => bookmark_for(self.bookmarks@, c) == Some(p@),
                None => bookmark_for(self.bookmarks@, c) is None,
            }),
    {
        proof {
            assert(self.bookmarks@.skip(0) =~= self.bookmarks@);
        }
        let mut j: usize = 0;
        while j < self.bookmarks.len()
            invariant
                0 <= j <= self.bookmarks@.len(),
                bookmark_for(self.bookmarks@, c) == bookmark_for(
                    self.bookmarks@.skip(j as int),
                    c,
                ),
            decreases self.bookmarks@.len() - j,
        {
            proof {
                assert(self.bookmarks@.skip(j as int).first() == self.bookmarks@[j as int]);
                assert(self.bookmarks@.skip(j as int).drop_first() =~= self.bookmarks@.skip(j + 1));
            }
            if self.bookmarks[j].0 == c {
                return Some(self.bookmarks[j].1.clone());
            }
            j = j + 1;
        }
        proof {
            assert(self.bookmarks@.skip(self.bookmarks@.len() as int).len() == 0);
        }
        None
    }

    /// Store a directory under a bookmark key, replacing what it held.
    pub fn set_bookmark(&mut self, c: char, dir: String)
        requires
            old(self).wf(),
        ensures
            final(self).wf(),
            bookmark_for(final(self).bookmarks@, c) == Some(dir@),
            final(self).tabs == old(self).tabs,
            final(self).active_tab == old(self).active_tab,
            *final(self) == (App { bookmarks: final(self).bookmarks, ..*old(self) }),
    {
        let mut j: usize = 0;
        while j < self.bookmarks.len()
            invariant
                old(self).wf(),
                *self == *old(self),
                0 <= j <= self.bookmarks@.len(),
                forall|k: int| 0 <= k < j ==> self.bookmarks@[k].0 != c,
            decreases self.bookmarks@.len() - j,
        {
            if self.bookmarks[j].0 == c {
                let e = &mut self.bookmarks[j];
                e.1 = dir;
                proof {
                    lemma_bookmark_first(self.bookmarks@, c, j as int);
                }
                return ;
            }
            j = j + 1;
        }
        proof {
            lemma_bookmark_absent_push(self.bookmarks@, c, (c, dir));
        }
        self.bookmarks.push((c, dir));
    }
}

// ---------------------------------------------------------------------------
// Selection-wide operations
// ---------------------------------------------------------------------------
impl App {
    /// What a delete command removes: the selection if any (which is then
    /// cleared), else the entry under the cursor, else nothing.
    pub fn delete_selected(&mut self) -> (r: Effect)
        requires
            old(self).wf(),
        ensures
            final(self).wf(),
            final(self).tabs@.len() == old(self).tabs@.len(),
            final(self).active_tab == old(self).active_tab,
            *final(self) == (App { tabs: final(self).tabs, ..*old(self) }),
            ({
                let t0 = old(self).tabs@[old(self).active_tab as int];
                &&& (t0.selected@.len() > 0 ==> (match r {
                    Effect::DeleteToTrash { paths } => paths@ == t0.selected@,
                    _ => false,
                }) && final(self).tabs@[old(self).active_tab as int].selected@.len() == 0)
                &&& (t0.selected@.len() == 0 && t0.filtered_entries@.len() > 0 ==> (match r {
                    Effect::DeleteToTrash { paths } => paths@.len() == 1 && paths@[0]@ == t0.entries@[t0.filtered_entries@[t0.cursor as int] as int].path@,
                    _ => false,
                }))
                &&& (t0.selected@.len() == 0 && t0.filtered_entries@.len() == 0 ==> r is Nothing)
            }),
    {
        let ti = self.active_tab;
        if self.tabs[ti].selected.len() == 0 {
            let target: Option<String> = match self.tabs[ti].selected_entry() {
                Some(e) => Some(e.path.clone()),
                None => None,
            };
            match target {
                Some(p) => {
                    let mut paths: Vec<String> = Vec::new();
                    paths.push(p);
                    Effect::DeleteToTrash { paths }
                },
                None => Effect::Nothing,
            }
        } else {
            let paths = clone_strings(&self.tabs[ti].selected);
            let tab = &mut self.tabs[ti];
            tab.selected = Vec::new();
            proof {
                assert forall|i: int| 0 <= i < self.tabs@.len() implies (#[trigger] self.tabs@[i]).wf() by {
                    if i != ti {
                        assert(self.tabs@[i] == old(self).tabs@[i]);
                    }
                }
            }
            Effect::DeleteToTrash { paths }
        }
    }

    /// Stage a copy of the selection, or of the entry under the cursor,
    /// for a later paste.
    pub fn yank_selected(&mut self)
        requires
            old(self).wf(),
        ensures
            final(self).wf(),
            final(self).tabs == old(self).tabs,
            final(self).active_tab == old(self).active_tab,
            final(self).status_message is Some,
            *final(self) == (App {
                pending_op: final(self).pending_op,
                status_message: final(self).status_message,
                ..*old(self)
            }),
            ({
                let t0 = old(self).tabs@[old(self).active_tab as int];
                match final(self).pending_op {
                    Some(op) => op.kind == OpKind::Copy && (if t0.selected@.len() > 0 {
                        op.sources@ == t0.selected@
                    } else if t0.filtered_entries@.len() > 0 {
                        op.sources@.len() == 1 && op.sources@[0]@ == t0.entries@[t0.filtered_entries@[t0.cursor as int] as int].path@
                    } else {
                        op.sources@.len() == 0
                    }),
                    None => false,
                }
            }),
    {
        let ti = self.active_tab;
        let sources: Vec<String> = if self.tabs[ti].selected.len() > 0 {
            clone_strings(&self.tabs[ti].selected)
        } else {
            match self.tabs[ti].selected_entry() {
                Some(e) => {
                    let mut v: Vec<String> = Vec::new();
                    v.push(e.path.clone());
                    v
                },
                None => Vec::new(),
            }
        };
        let count = sources.len();
        self.pending_op = Some(PendingOp { kind: OpKind::Copy, sources });
        self.status_message = Some(count_msg("Yanked ", count, " item(s)"));
    }

    /// Turn the staged operation into work for the event loop, clearing
    /// the stage and the selection; with nothing staged, only a message.
    pub fn paste(&mut self) -> (r: Effect)
        requires
            old(self).wf(),
        ensures
            final(self).wf(),
            final(self).tabs@.len() == old(self).tabs@.len(),
            final(self).active_tab == old(self).active_tab,
            final(self).pending_op is None,
            *final(self) == (App {
                tabs: final(self).tabs,
                pending_op: final(self).pending_op,
                status_message: final(self).status_message,
                ..*old(self)
            }),
            old(self).pending_op is None ==> (r is Nothing) && final(self).tabs == old(self).tabs,
            (match old(self).pending_op {
                Some(op) => {
                    &&& (match r {
                        Effect::Paste { kind, sources, dest } => kind == op.kind && sources@ == op.sources@ && dest@ == old(self).tabs@[old(self).active_tab as int].current_dir@,
                        _ => false,
                    })
                    &&& final(self).tabs@[old(self).active_tab as int].selected@.len() == 0
                },
                None => true,
            }),
    {
        match self.pending_op.take() {
            None => {
                self.status_message = Some(String::from_str("Nothing to paste"));
                Effect::Nothing
            },
            Some(op) => {
                let ti = self.active_tab;
                let dest = self.tabs[ti].current_dir.clone();
                let tab = &mut self.tabs[ti];
                tab.selected = Vec::new();
                proof {
                    assert forall|i: int| 0 <= i < self.tabs@.len() implies (#[trigger] self.tabs@[i]).wf() by {
                        if i != ti {
                            assert(self.tabs@[i] == old(self).tabs@[i]);
                        }
                    }
                }
                Effect::Paste { kind: op.kind, sources: op.sources, dest }
            },
        }
    }
}

// ---------------------------------------------------------------------------
// The modal dispatcher
// ---------------------------------------------------------------------------
impl App {
    /// Keys that mean the same in tree and list view: flipping the view,
    /// copying the path of the tree selection, and toggling hidden entries.
    pub fn handle_tree_common_key(&mut self, key: KeyInput) -> (r: (bool, Effect))
        requires
            old(self).wf(),
        ensures
            final(self).wf(),
            !r.0,
            final(self).tabs@.len() == old(self).tabs@.len(),
            final(self).active_tab == old(self).active_tab,
            ({
                let t0 = old(self).tabs@[old(self).active_tab as int];
                let t1 = final(self).tabs@[old(self).active_tab as int];
                &&& (key.code == Key::Char('t') ==> {
                    &&& t1 == (Tab { tree_mode: !t0.tree_mode, ..t0 })
                    &&& (t1.tree_mode ==> (r.1 is RebuildTree))
                    &&& (!t1.tree_mode ==> (r.1 is Nothing))
                })
                &&& (key.code == Key::Char('.') ==> t1 == (Tab {
                    show_hidden: !t0.show_hidden,
                    ..t0
                }) && (r.1 is RebuildTree))
                &&& (key.code == Key::Char('Y') ==> (if t0.tree_nodes@.len() == 0 {
                    t1 == t0 && (r.1 is Nothing)
                } else {
                    let node = t0.tree_nodes@[t0.tree_cursor as int];
                    t1 == t0 && (match r.1 {
                        Effect::CopyPathText { path } => path@ == node.entry.path@,
                        _ => false,
                    })
                }))
                &&& (key.code != Key::Char('t') && key.code != Key::Char('.') && key.code
                    != Key::Char('Y') ==> *final(self) == *old(self) && (r.1 is Nothing))
            }),
    {
        let ti = self.active_tab;
        match key.code {
            Key::Char(c) => {
                if c == 't' {
                    let tab = &mut self.tabs[ti];
                    tab.toggle_tree_mode_flag();
                    let entering = tab.tree_mode;
                    proof {
                        assert forall|i: int| 0 <= i < self.tabs@.len() implies (#[trigger] self.tabs@[i]).wf() by {
                            if i != ti {
                                assert(self.tabs@[i] == old(self).tabs@[i]);
                            }
                        }
                    }
                    if entering {
                        self.status_message = Some(String::from_str("View: Tree"));
                        (false, Effect::RebuildTree)
                    } else {
                        self.status_message = Some(String::from_str("View: List"));
                        (false, Effect::Nothing)
                    }
                } else if c == 'Y' {
                    let target: Option<String> = match self.tabs[ti].selected_tree_entry() {
                        Some(e) => Some(e.path.clone()),
                        None => None,
                    };
                    match target {
                        Some(p) => (false, Effect::CopyPathText { path: p }),
                        None => (false, Effect::Nothing),
                    }
                } else if c == '.' {
                    let tab = &mut self.tabs[ti];
                    tab.show_hidden = !tab.show_hidden;
                    proof {
                        assert forall|i: int| 0 <= i < self.tabs@.len() implies (#[trigger] self.tabs@[i]).wf() by {
                            if i != ti {
                                assert(self.tabs@[i] == old(self).tabs@[i]);
                            }
                        }
                    }
                    (false, Effect::RebuildTree)
                } else {
                    (false, Effect::Nothing)
                }
            },
            _ => (false, Effect::Nothing),
        }
    }

    /// One key in normal mode.  A pending first key of a two-key command
    /// always consumes the event: the second key either completes the
    /// command or cancels it with no other action.
    pub fn handle_normal_key(&mut self, key: KeyInput) -> (r: (bool, Effect))
        requires
            old(self).wf(),
        ensures
            final(self).wf(),
            normal_mode_step(*old(self), *final(self), key, r)
    {
        self.status_message = None;
        let ti = self.active_tab;
        if self.pending_g {
            self.pending_g = false;
            if key.code == Key::Char('g') {
                let tab = &mut self.tabs[ti];
                if tab.tree_mode {
                    tab.tree_cursor = 0;
                } else {
                    tab.cursor = 0;
                }
                proof {
                    assert forall|i: int| 0 <= i < self.tabs@.len() implies (#[trigger] self.tabs@[i]).wf() by {
                        if i != ti {
                            assert(self.tabs@[i] == old(self).tabs@[i]);
                        }
                    }
                }
            }
            return (false, Effect::Nothing);
        }
        if self.pending_d {
            self.pending_d = false;
            if key.code == Key::Char('d') {
                let e = self.delete_selected();
                return (false, e);
            }
            return (false, Effect::Nothing);
        }
        if self.pending_y {
            self.pending_y = false;
            if key.code == Key::Char('y') {
                self.yank_selected();
            }
            return (false, Effect::Nothing);
        }
        if self.pending_p {
            self.pending_p = false;
            if key.code == Key::Char('p') {
                let e = self.paste();
                return (false, e);
            }
            return (false, Effect::Nothing);
        }
        let tree_mode = self.tabs[ti].tree_mode;
        if tree_mode {
            return self.handle_tree_key(key);
        }
        self.handle_list_key(key)
    }

    /// Normal-mode keys over the tree view.
    fn handle_tree_key(&mut self, key: KeyInput) -> (r: (bool, Effect))
        requires
            old(self).wf(),
            !any_pending(*old(self)),
            old(self).tabs@[old(self).active_tab as int].tree_mode,
        ensures
            final(self).wf(),
            normal_mode_step(*old(self), *final(self), key, r)
    {
        let ti = self.active_tab;
        match key.code {
            Key::Char(c) => {
                if c == 'q' {
                    return (true, Effect::Nothing);
                }
                if c == 'j' {
                    self.tree_cursor_down();
                    return (false, Effect::Nothing);
                }
                if c == 'k' {
                    self.tree_cursor_up();
                    return (false, Effect::Nothing);
                }
                if c == 'l' {
                    return (false, self.tree_enter());
                }
                if c == 'h' {
                    return (false, self.tree_collapse_or_parent());
                }
                if c == 'g' {
                    self.pending_g = true;
                    return (false, Effect::Nothing);
                }
                if c == 'G' {
                    let tab = &mut self.tabs[ti];
                    if tab.tree_nodes.len() == 0 {
                        tab.tree_cursor = 0;
                    } else {
                        tab.tree_cursor = tab.tree_nodes.len() - 1;
                    }
                    proof {
                        assert forall|i: int| 0 <= i < self.tabs@.len() implies (#[trigger] self.tabs@[i]).wf() by {
                            if i != ti {
                                assert(self.tabs@[i] == old(self).tabs@[i]);
                            }
                        }
                    }
                    return (false, Effect::Nothing);
                }
                if c == ' ' {
                    let target: Option<String> = match self.tabs[ti].selected_tree_entry() {
                        Some(e) => Some(e.path.clone()),
                        None => None,
                    };
                    match target {
                        Some(p) => {
                            let tab = &mut self.tabs[ti];
                            tab.toggle_selected(&p);
                            proof {
                                assert forall|i: int| 0 <= i < self.tabs@.len() implies (#[trigger] self.tabs@[i]).wf() by {
                                    if i != ti {
                                        assert(self.tabs@[i] == old(self).tabs@[i]);
                                    }
                                }
                            }
                            self.tree_cursor_down();
                        },
                        None => {},
                    }
                    return (false, Effect::Nothing);
                }
                self.handle_tree_common_key(key)
            },
            Key::Down => {
                self.tree_cursor_down();
                (false, Effect::Nothing)
            },
            Key::Up => {
                self.tree_cursor_up();
                (false, Effect::Nothing)
            },
            Key::Right | Key::Enter => (false, self.tree_enter()),
            Key::Left => (false, self.tree_collapse_or_parent()),
            _ => self.handle_tree_common_key(key),
        }
    }

    fn tree_cursor_down(&mut self)
        requires
            old(self).wf(),
        ensures
            final(self).wf(),
            final(self).tabs@.len() == old(self).tabs@.len(),
            final(self).active_tab == old(self).active_tab,
            *final(self) == (App { tabs: final(self).tabs, ..*old(self) }),
            ({
                let t0 = old(self).tabs@[old(self).active_tab as int];
                let t1 = final(self).tabs@[old(self).active_tab as int];
                t1 == (Tab { tree_cursor: t1.tree_cursor, ..t0 }) && t1.tree_cursor == (if t0.tree_cursor + 1 < t0.tree_nodes@.len() {
                    t0.tree_cursor + 1
                } else {
                    t0.tree_cursor as int
                })
            }),
    {
        let ti = self.active_tab;
        proof {
            assert(old(self).tabs@[ti as int].wf());
        }
        let tab = &mut self.tabs[ti];
        let n = tab.tree_nodes.len();
        if tab.tree_cursor + 1 < n {
            tab.tree_cursor = tab.tree_cursor + 1;
        }
        proof {
            assert forall|i: int| 0 <= i < self.tabs@.len() implies (#[trigger] self.tabs@[i]).wf() by {
                if i != ti {
                    assert(self.tabs@[i] == old(self).tabs@[i]);
                }
            }
        }
    }

    fn tree_cursor_up(&mut self)
        requires
            old(self).wf(),
        ensures
            final(self).wf(),
            final(self).tabs@.len() == old(self).tabs@.len(),
            final(self).active_tab == old(self).active_tab,
            *final(self) == (App { tabs: final(self).tabs, ..*old(self) }),
            ({
                let t0 = old(self).tabs@[old(self).active_tab as int];
                let t1 = final(self).tabs@[old(self).active_tab as int];
                t1 == (Tab { tree_cursor: t1.tree_cursor, ..t0 }) && t1.tree_cursor == (if t0.tree_cursor > 0 {
                    t0.tree_cursor - 1
                } else {
                    0int
                })
            }),
    {
        let ti = self.active_tab;
        let tab = &mut self.tabs[ti];
        if tab.tree_cursor > 0 {
            tab.tree_cursor = tab.tree_cursor - 1;
        }
        proof {
            assert forall|i: int| 0 <= i < self.tabs@.len() implies (#[trigger] self.tabs@[i]).wf() by {
                if i != ti {
                    assert(self.tabs@[i] == old(self).tabs@[i]);
                }
            }
        }
    }

    /// Opening the tree row under the cursor: a directory flips its
    /// expansion, a file goes to the desktop's opener.
    fn tree_enter(&mut self) -> (r: Effect)
        requires
            old(self).wf(),
        ensures
            final(self).wf(),
            final(self).tabs@.len() == old(self).tabs@.len(),
            final(self).active_tab == old(self).active_tab,
            *final(self) == (App { tabs: final(self).tabs, ..*old(self) }),
            ({
                let t0 = old(self).tabs@[old(self).active_tab as int];
                let t1 = final(self).tabs@[old(self).active_tab as int];
                if t0.tree_nodes@.len() == 0 {
                    t1 == t0 && (r is Nothing)
                } else {
                    let node = t0.tree_nodes@[t0.tree_cursor as int];
                    if node.entry.is_dir {
                        &&& t1 == (Tab { tree_expanded: t1.tree_expanded, ..t0 })
                        &&& str_seq_has(t1.tree_expanded@, node.entry.path@) == !str_seq_has(
                            t0.tree_expanded@,
                            node.entry.path@,
                        )
                        &&& (r is RebuildTree)
                    } else {
                        t1 == t0 && (match r {
                            Effect::OpenPath { path } => path@ == node.entry.path@,
                            _ => false,
                        })
                    }
                }
            }),
    {
        let ti = self.active_tab;
        let target: Option<(bool, String)> = match self.tabs[ti].selected_tree_entry() {
            Some(e) => Some((e.is_dir, e.path.clone())),
            None => None,
        };
        match target {
            Some((is_dir, path)) => {
                if is_dir {
                    let tab = &mut self.tabs[ti];
                    tab.toggle_expanded(&path);
                    proof {
                        assert forall|i: int| 0 <= i < self.tabs@.len() implies (#[trigger] self.tabs@[i]).wf() by {
                            if i != ti {
                                assert(self.tabs@[i] == old(self).tabs@[i]);
                            }
                        }
                    }
                    Effect::RebuildTree
                } else {
                    Effect::OpenPath { path }
                }
            },
            None => Effect::Nothing,
        }
    }

    /// Collapsing on a left key: an expanded directory folds up, anything
    /// else walks back to the nearest shallower row.
    fn tree_collapse_or_parent(&mut self) -> (r: Effect)
        requires
            old(self).wf(),
        ensures
            final(self).wf(),
            final(self).tabs@.len() == old(self).tabs@.len(),
            final(self).active_tab == old(self).active_tab,
    {
        let ti = self.active_tab;
        if self.tabs[ti].tree_nodes.len() == 0 {
            return Effect::Nothing;
        }
        let cur = self.tabs[ti].tree_cursor;
        let is_dir = self.tabs[ti].tree_nodes[cur].entry.is_dir;
        let expanded = self.tabs[ti].tree_nodes[cur].expanded;
        let depth = self.tabs[ti].tree_nodes[cur].depth;
        if is_dir && expanded {
            let path = self.tabs[ti].tree_nodes[cur].entry.path.clone();
            let tab = &mut self.tabs[ti];
            tab.toggle_expanded(&path);
            proof {
                assert forall|i: int| 0 <= i < self.tabs@.len() implies (#[trigger] self.tabs@[i]).wf() by {
                    if i != ti {
                        assert(self.tabs@[i] == old(self).tabs@[i]);
                    }
                }
            }
            return Effect::RebuildTree;
        }
        if depth > 0 {
            let mut j: usize = cur;
            while j > 0
                invariant
                    self.wf(),
                    *self == *old(self),
                    j <= cur,
                    (cur as int) < self.tabs@[ti as int].tree_nodes@.len(),
                    ti == self.active_tab,
                decreases j,
            {
                j = j - 1;
                if self.tabs[ti].tree_nodes[j].depth < depth {
                    let tab = &mut self.tabs[ti];
                    tab.tree_cursor = j;
                    proof {
                        assert forall|i: int| 0 <= i < self.tabs@.len() implies (#[trigger] self.tabs@[i]).wf() by {
                            if i != ti {
                                assert(self.tabs@[i] == old(self).tabs@[i]);
                            }
                        }
                    }
                    return Effect::Nothing;
                }
            }
        }
        Effect::Nothing
    }

    /// Normal-mode keys over the flat listing.
    #[verifier::rlimit(60)]
    fn handle_list_key(&mut self, key: KeyInput) -> (r: (bool, Effect))
        requires
            old(self).wf(),
            !any_pending(*old(self)),
            !old(self).tabs@[old(self).active_tab as int].tree_mode,
        ensures
            final(self).wf(),
            normal_mode_step(*old(self), *final(self), key, r)
    {
        let ti = self.active_tab;
        match key.code {
            Key::Char(c) => {
                if c == 'q' {
                    return (true, Effect::Nothing);
                }
                if c == 'j' {
                    self.list_cursor_down();
                    return (false, Effect::Nothing);
                }
                if c == 'k' {
                    self.list_cursor_up();
                    return (false, Effect::Nothing);
                }
                if c == 'l' {
                    return (false, self.list_enter());
                }
                if c == 'h' {
                    return (false, self.go_up());
                }
                if c == 'g' {
                    self.pending_g = true;
                    return (false, Effect::Nothing);
                }
                if c == 'G' {
                    let tab = &mut self.tabs[ti];
                    if tab.filtered_entries.len() == 0 {
                        tab.cursor = 0;
                    } else {
                        tab.cursor = tab.filtered_entries.len() - 1;
                    }
                    proof {
                        assert forall|i: int| 0 <= i < self.tabs@.len() implies (#[trigger] self.tabs@[i]).wf() by {
                            if i != ti {
                                assert(self.tabs@[i] == old(self).tabs@[i]);
                            }
                        }
                    }
                    return (false, Effect::Nothing);
                }
                if c == '/' {
                    self.input_mode = InputMode::Filter;
                    self.input_buffer = String::new();
                    return (false, Effect::Nothing);
                }
                if c == 'd' {
                    self.pending_d = true;
                    return (false, Effect::Nothing);
                }
                if c == 'y' {
                    self.pending_y = true;
                    return (false, Effect::Nothing);
                }
                if c == 'p' {
                    self.pending_p = true;
                    return (false, Effect::Nothing);
                }
                if c == ' ' {
                    self.select_and_advance();
                    return (false, Effect::Nothing);
                }
                if c == 's' {
                    let old_sort = self.tabs[ti].sort_by;
                    let new_sort = match old_sort {
                        SortBy::Name => SortBy::Size,
                        SortBy::Size => SortBy::Date,
                        SortBy::Date => SortBy::Extension,
                        SortBy::Extension => SortBy::Name,
                    };
                    let tab = &mut self.tabs[ti];
                    tab.sort_by = new_sort;
                    proof {
                        assert forall|i: int| 0 <= i < self.tabs@.len() implies (#[trigger] self.tabs@[i]).wf() by {
                            if i != ti {
                                assert(self.tabs@[i] == old(self).tabs@[i]);
                            }
                        }
                    }
                    let mut msg = String::from_str("Sort: ");
                    msg.append(new_sort.label());
                    self.status_message = Some(msg);
                    return (false, Effect::Refresh { focus: None });
                }
                if c == '.' {
                    let tab = &mut self.tabs[ti];
                    tab.show_hidden = !tab.show_hidden;
                    proof {
                        assert forall|i: int| 0 <= i < self.tabs@.len() implies (#[trigger] self.tabs@[i]).wf() by {
                            if i != ti {
                                assert(self.tabs@[i] == old(self).tabs@[i]);
                            }
                        }
                    }
                    return (false, Effect::Refresh { focus: None });
                }
                if c == 'r' {
                    let name: Option<String> = match self.tabs[ti].selected_entry() {
                        Some(e) => Some(e.name.clone()),
                        None => None,
                    };
                    match name {
                        Some(n) => {
                            self.input_mode = InputMode::Rename;
                            self.input_buffer = n;
                        },
                        None => {},
                    }
                    return (false, Effect::Nothing);
                }
                if c == 'n' {
                    self.input_mode = InputMode::CreateFile;
                    self.input_buffer = String::new();
                    self.status_message = Some(String::from_str("New file: "));
                    return (false, Effect::Nothing);
                }
                if c == 'N' {
                    self.input_mode = InputMode::CreateDir;
                    self.input_buffer = String::new();
                    self.status_message = Some(String::from_str("New directory: "));
                    return (false, Effect::Nothing);
                }
                if c == 'm' {
                    self.input_mode = InputMode::Bookmark;
                    self.status_message = Some(String::from_str("Bookmark key: "));
                    return (false, Effect::Nothing);
                }
                if c == 0x27 as char {
                    // the apostrophe key
                    self.input_mode = InputMode::JumpBookmark;
                    self.status_message = Some(String::from_str("Jump to bookmark: "));
                    return (false, Effect::Nothing);
                }
                if c == 'c' {
                    let target: Option<String> = match self.tabs[ti].selected_entry() {
                        Some(e) => Some(e.path.clone()),
                        None => None,
                    };
                    match target {
                        Some(p) => {
                            return (false, Effect::BeginChmod { path: p });
                        },
                        None => {
                            return (false, Effect::Nothing);
                        },
                    }
                }
                if c == 'F' {
                    self.input_mode = InputMode::Search;
                    self.input_buffer = String::new();
                    self.status_message = Some(String::from_str("Search: "));
                    return (false, Effect::Nothing);
                }
                if c == 't' || c == 'Y' {
                    return self.handle_list_misc(c);
                }
                (false, Effect::Nothing)
            },
            Key::Down => {
                self.list_cursor_down();
                (false, Effect::Nothing)
            },
            Key::Up => {
                self.list_cursor_up();
                (false, Effect::Nothing)
            },
            Key::Right | Key::Enter => (false, self.list_enter()),
            Key::Left => (false, self.go_up()),
            _ => (false, Effect::Nothing),
        }
    }

    /// The list view's own handling of view toggling and path copying.
    fn handle_list_misc(&mut self, c: char) -> (r: (bool, Effect))
        requires
            old(self).wf(),
        ensures
            final(self).wf(),
            final(self).tabs@.len() == old(self).tabs@.len(),
            final(self).active_tab == old(self).active_tab,
            !r.0,
            ({
                let t0 = old(self).tabs@[old(self).active_tab as int];
                let t1 = final(self).tabs@[old(self).active_tab as int];
                &&& (c == 't' ==> {
                    &&& t1 == (Tab { tree_mode: !t0.tree_mode, ..t0 })
                    &&& (t1.tree_mode ==> (r.1 is RebuildTree))
                    &&& (!t1.tree_mode ==> (r.1 is Nothing))
                })
                &&& (c == 'Y' ==> (if t0.filtered_entries@.len() == 0 {
                    t1 == t0 && (r.1 is Nothing)
                } else {
                    let e = t0.entries@[t0.filtered_entries@[t0.cursor as int] as int];
                    t1 == t0 && (match r.1 {
                        Effect::CopyPathText { path } => path@ == e.path@,
                        _ => false,
                    })
                }))
                &&& (c != 't' && c != 'Y' ==> *final(self) == *old(self) && (r.1 is Nothing))
            }),
    {
        let ti = self.active_tab;
        if c == 't' {
            let tab = &mut self.tabs[ti];
            tab.toggle_tree_mode_flag();
            let entering = tab.tree_mode;
            proof {
                assert forall|i: int| 0 <= i < self.tabs@.len() implies (#[trigger] self.tabs@[i]).wf() by {
                    if i != ti {
                        assert(self.tabs@[i] == old(self).tabs@[i]);
                    }
                }
            }
            if entering {
                self.status_message = Some(String::from_str("View: Tree"));
                return (false, Effect::RebuildTree);
            }
            self.status_message = Some(String::from_str("View: List"));
            return (false, Effect::Nothing);
        }
        if c == 'Y' {
            let target: Option<String> = match self.tabs[ti].selected_entry() {
                Some(e) => Some(e.path.clone()),
                None => None,
            };
            match target {
                Some(p) => {
                    return (false, Effect::CopyPathText { path: p });
                },
                None => {
                    return (false, Effect::Nothing);
                },
            }
        }
        (false, Effect::Nothing)
    }

    fn list_cursor_down(&mut self)
        requires
            old(self).wf(),
        ensures
            final(self).wf(),
            final(self).tabs@.len() == old(self).tabs@.len(),
            final(self).active_tab == old(self).active_tab,
            *final(self) == (App { tabs: final(self).tabs, ..*old(self) }),
            ({
                let t0 = old(self).tabs@[old(self).active_tab as int];
                let t1 = final(self).tabs@[old(self).active_tab as int];
                t1 == (Tab { cursor: t1.cursor, ..t0 }) && t1.cursor == (if t0.cursor + 1 < t0.filtered_entries@.len() { t0.cursor + 1 } else { t0.cursor as int })
            }),
    {
        let ti = self.active_tab;
        proof {
            assert(old(self).tabs@[ti as int].wf());
        }
        let tab = &mut self.tabs[ti];
        let n = tab.filtered_entries.len();
        if tab.cursor + 1 < n {
            tab.cursor = tab.cursor + 1;
        }
        proof {
            assert forall|i: int| 0 <= i < self.tabs@.len() implies (#[trigger] self.tabs@[i]).wf() by {
                if i != ti {
                    assert(self.tabs@[i] == old(self).tabs@[i]);
                }
            }
        }
    }

    fn list_cursor_up(&mut self)
        requires
            old(self).wf(),
        ensures
            final(self).wf(),
            final(self).tabs@.len() == old(self).tabs@.len(),
            final(self).active_tab == old(self).active_tab,
            *final(self) == (App { tabs: final(self).tabs, ..*old(self) }),
            ({
                let t0 = old(self).tabs@[old(self).active_tab as int];
                let t1 = final(self).tabs@[old(self).active_tab as int];
                t1 == (Tab { cursor: t1.cursor, ..t0 }) && t1.cursor == (if t0.cursor > 0 { t0.cursor - 1 } else { 0int })
            }),
    {
        let ti = self.active_tab;
        let tab = &mut self.tabs[ti];
        if tab.cursor > 0 {
            tab.cursor = tab.cursor - 1;
        }
        proof {
            assert forall|i: int| 0 <= i < self.tabs@.len() implies (#[trigger] self.tabs@[i]).wf() by {
                if i != ti {
                    assert(self.tabs@[i] == old(self).tabs@[i]);
                }
            }
        }
    }

    /// Opening the entry under the cursor: a directory becomes the current
    /// one and calls for a refresh, a file goes to the desktop's opener.
    fn list_enter(&mut self) -> (r: Effect)
        requires
            old(self).wf(),
        ensures
            final(self).wf(),
            final(self).tabs@.len() == old(self).tabs@.len(),
            final(self).active_tab == old(self).active_tab,
            *final(self) == (App { tabs: final(self).tabs, ..*old(self) }),
            ({
                let t0 = old(self).tabs@[old(self).active_tab as int];
                let t1 = final(self).tabs@[old(self).active_tab as int];
                if t0.filtered_entries@.len() == 0 {
                    t1 == t0 && (r is Nothing)
                } else {
                    let e = t0.entries@[t0.filtered_entries@[t0.cursor as int] as int];
                    if e.is_dir {
                        &&& t1 == (Tab { current_dir: t1.current_dir, cursor: t1.cursor, ..t0 })
                        &&& t1.current_dir == e.path
                        &&& t1.cursor == 0
                        &&& (match r {
                            Effect::Refresh { focus } => focus is None,
                            _ => false,
                        })
                    } else {
                        t1 == t0 && (match r {
                            Effect::OpenPath { path } => path@ == e.path@,
                            _ => false,
                        })
                    }
                }
            }),
    {
        let ti = self.active_tab;
        let target: Option<(bool, String)> = match self.tabs[ti].selected_entry() {
            Some(e) => Some((e.is_dir, e.path.clone())),
            None => None,
        };
        match target {
            Some((is_dir, path)) => {
                if is_dir {
                    let tab = &mut self.tabs[ti];
                    tab.current_dir = path;
                    tab.cursor = 0;
                    proof {
                        assert forall|i: int| 0 <= i < self.tabs@.len() implies (#[trigger] self.tabs@[i]).wf() by {
                            if i != ti {
                                assert(self.tabs@[i] == old(self).tabs@[i]);
                            }
                        }
                    }
                    Effect::Refresh { focus: None }
                } else {
                    Effect::OpenPath { path }
                }
            },
            None => Effect::Nothing,
        }
    }

    /// Step into the parent directory, asking the loop to refresh and then
    /// put the cursor back on the directory just left; a no-op at the root.
    fn go_up(&mut self) -> (r: Effect)
        requires
            old(self).wf(),
        ensures
            final(self).wf(),
            final(self).tabs@.len() == old(self).tabs@.len(),
            final(self).active_tab == old(self).active_tab,
            *final(self) == (App { tabs: final(self).tabs, ..*old(self) }),
            ({
                let t0 = old(self).tabs@[old(self).active_tab as int];
                let t1 = final(self).tabs@[old(self).active_tab as int];
                match parent_spec(t0.current_dir@) {
                    Some(p) => {
                        &&& t1 == (Tab { current_dir: t1.current_dir, cursor: t1.cursor, ..t0 })
                        &&& t1.current_dir@ == p
                        &&& t1.cursor == 0
                        &&& (match r {
                            Effect::Refresh { focus } => (match focus {
                                Some(n) => n@ == file_name_spec(t0.current_dir@),
                                None => false,
                            }),
                            _ => false,
                        })
                    },
                    None => t1 == t0 && (r is Nothing),
                }
            }),
    {
        let ti = self.active_tab;
        let parent = parent_of(self.tabs[ti].current_dir.as_str());
        match parent {
            Some(p) => {
                let old_name = file_name_of(self.tabs[ti].current_dir.as_str());
                let tab = &mut self.tabs[ti];
                tab.current_dir = p;
                tab.cursor = 0;
                proof {
                    assert forall|i: int| 0 <= i < self.tabs@.len() implies (#[trigger] self.tabs@[i]).wf() by {
                        if i != ti {
                            assert(self.tabs@[i] == old(self).tabs@[i]);
                        }
                    }
                }
                Effect::Refresh { focus: Some(old_name) }
            },
            None => Effect::Nothing,
        }
    }

    /// Flip the selection on the entry under the cursor and advance one
    /// row, as the space bar does.
    fn select_and_advance(&mut self)
        requires
            old(self).wf(),
        ensures
            final(self).wf(),
            final(self).tabs@.len() == old(self).tabs@.len(),
            final(self).active_tab == old(self).active_tab,
    {
        let ti = self.active_tab;
        let target: Option<String> = match self.tabs[ti].selected_entry() {
            Some(e) => Some(e.path.clone()),
            None => None,
        };
        match target {
            Some(p) => {
                let tab = &mut self.tabs[ti];
                tab.toggle_selected(&p);
                proof {
                    assert forall|i: int| 0 <= i < self.tabs@.len() implies (#[trigger] self.tabs@[i]).wf() by {
                        if i != ti {
                            assert(self.tabs@[i] == old(self).tabs@[i]);
                        }
                    }
                }
                self.list_cursor_down();
            },
            None => {},
        }
    }
}

// ---------------------------------------------------------------------------
// The other modes
// ---------------------------------------------------------------------------
impl App {
    /// Keys while typing a filter: every change re-filters at once;
    /// escape clears the filter, enter descends into a matched directory.
    pub fn handle_filter_key(&mut self, key: KeyInput) -> (r: (bool, Effect))
        requires
            old(self).wf(),
        ensures
            final(self).wf(),
            filter_mode_step(*old(self), *final(self), key, r),
    {
        let ti = self.active_tab;
        match key.code {
            Key::Esc => {
                self.input_mode = InputMode::Normal;
                self.input_buffer = String::new();
                let tab = &mut self.tabs[ti];
                tab.filter_text = String::new();
                tab.apply_filter();
                proof {
                    assert forall|i: int| 0 <= i < self.tabs@.len() implies (#[trigger] self.tabs@[i]).wf() by {
                        if i != ti {
                            assert(self.tabs@[i] == old(self).tabs@[i]);
                        }
                    }
                }
                (false, Effect::Nothing)
            },
            Key::Enter => {
                self.input_mode = InputMode::Normal;
                let target: Option<(bool, String)> = match self.tabs[ti].selected_entry() {
                    Some(e) => Some((e.is_dir, e.path.clone())),
                    None => None,
                };
                match target {
                    Some((is_dir, path)) => {
                        if is_dir {
                            self.input_buffer = String::new();
                            let tab = &mut self.tabs[ti];
                            tab.current_dir = path;
                            tab.cursor = 0;
                            tab.filter_text = String::new();
                            tab.apply_filter();
                            proof {
                                assert forall|i: int| 0 <= i < self.tabs@.len() implies (#[trigger] self.tabs@[i]).wf() by {
                                    if i != ti {
                                        assert(self.tabs@[i] == old(self).tabs@[i]);
                                    }
                                }
                            }
                            (false, Effect::Refresh { focus: None })
                        } else {
                            (false, Effect::Nothing)
                        }
                    },
                    None => (false, Effect::Nothing),
                }
            },
            Key::Backspace => {
                string_pop(&mut self.input_buffer);
                let ft = self.input_buffer.clone();
                let tab = &mut self.tabs[ti];
                tab.filter_text = ft;
                tab.apply_filter();
                proof {
                    assert forall|i: int| 0 <= i < self.tabs@.len() implies (#[trigger] self.tabs@[i]).wf() by {
                        if i != ti {
                            assert(self.tabs@[i] == old(self).tabs@[i]);
                        }
                    }
                }
                (false, Effect::Nothing)
            },
            Key::Char(c) => {
                push_char(&mut self.input_buffer, c);
                let ft = self.input_buffer.clone();
                let tab = &mut self.tabs[ti];
                tab.filter_text = ft;
                tab.apply_filter();
                proof {
                    assert forall|i: int| 0 <= i < self.tabs@.len() implies (#[trigger] self.tabs@[i]).wf() by {
                        if i != ti {
                            assert(self.tabs@[i] == old(self).tabs@[i]);
                        }
                    }
                }
                (false, Effect::Nothing)
            },
            _ => (false, Effect::Nothing),
        }
    }

    /// Keys while typing a name for rename or creation; enter commits the
    /// buffer and hands the operation to the loop.
    pub fn handle_input_key(&mut self, key: KeyInput) -> (r: (bool, Effect))
        requires
            old(self).wf(),
        ensures
            final(self).wf(),
            input_mode_step(*old(self), *final(self), key, r),
    {
        let ti = self.active_tab;
        match key.code {
            Key::Esc => {
                self.input_mode = InputMode::Normal;
                self.input_buffer = String::new();
                self.status_message = None;
                (false, Effect::Nothing)
            },
            Key::Enter => {
                let name = self.input_buffer.clone();
                let mode_was = self.input_mode;
                self.input_mode = InputMode::Normal;
                self.input_buffer = String::new();
                let dir = self.tabs[ti].current_dir.clone();
                let effect: Effect = if mode_was == InputMode::Rename {
                    let target: Option<String> = match self.tabs[ti].selected_entry() {
                        Some(e) => Some(e.path.clone()),
                        None => None,
                    };
                    match target {
                        Some(p) => Effect::RenamePath { path: p, new_name: name },
                        None => Effect::Refresh { focus: None },
                    }
                } else if mode_was == InputMode::CreateFile {
                    Effect::CreateFileIn { dir, name }
                } else if mode_was == InputMode::CreateDir {
                    Effect::CreateDirIn { dir, name }
                } else {
                    Effect::Refresh { focus: None }
                };
                (false, effect)
            },
            Key::Backspace => {
                string_pop(&mut self.input_buffer);
                (false, Effect::Nothing)
            },
            Key::Char(c) => {
                push_char(&mut self.input_buffer, c);
                (false, Effect::Nothing)
            },
            _ => (false, Effect::Nothing),
        }
    }

    /// The next character names the bookmark for the current directory.
    pub fn handle_bookmark_key(&mut self, key: KeyInput) -> (r: (bool, Effect))
        requires
            old(self).wf(),
        ensures
            final(self).wf(),
            bookmark_mode_step(*old(self), *final(self), key, r),
    {
        self.input_mode = InputMode::Normal;
        match key.code {
            Key::Char(c) => {
                let dir = self.tabs[self.active_tab].current_dir.clone();
                self.set_bookmark(c, dir);
                let mut msg = String::from_str("Bookmark '");
                let cs = char_string(c);
                msg.append(cs.as_str());
                msg.append("' set");
                self.status_message = Some(msg);
                (false, Effect::Nothing)
            },
            _ => (false, Effect::Nothing),
        }
    }

    /// The next character picks a bookmark to jump to; the loop checks the
    /// directory still exists before the tab moves.
    pub fn handle_jump_bookmark_key(&mut self, key: KeyInput) -> (r: (bool, Effect))
        requires
            old(self).wf(),
        ensures
            final(self).wf(),
            jump_mode_step(*old(self), *final(self), key, r),
    {
        self.input_mode = InputMode::Normal;
        match key.code {
            Key::Char(c) => {
                match self.bookmark_lookup(c) {
                    Some(p) => (false, Effect::JumpTo { key: c, path: p }),
                    None => {
                        let mut msg = String::from_str("No bookmark '");
                        let cs = char_string(c);
                        msg.append(cs.as_str());
                        msg.append("'");
                        self.status_message = Some(msg);
                        (false, Effect::Nothing)
                    },
                }
            },
            _ => (false, Effect::Nothing),
        }
    }

    /// Typing an octal mode: only the digits 0 through 7 are taken, at
    /// most four of them; enter applies the mode to the entry under the
    /// cursor.
    pub fn handle_chmod_key(&mut self, key: KeyInput) -> (r: (bool, Effect))
        requires
            old(self).wf(),
        ensures
            final(self).wf(),
            chmod_mode_step(*old(self), *final(self), key, r),
    {
        let ti = self.active_tab;
        match key.code {
            Key::Esc => {
                self.input_mode = InputMode::Normal;
                self.input_buffer = String::new();
                self.status_message = None;
                (false, Effect::Nothing)
            },
            Key::Enter => {
                let mode_str = self.input_buffer.clone();
                self.input_mode = InputMode::Normal;
                self.input_buffer = String::new();
                let target: Option<String> = match self.tabs[ti].selected_entry() {
                    Some(e) => Some(e.path.clone()),
                    None => None,
                };
                match target {
                    Some(p) => (false, Effect::ApplyChmod { path: p, mode: mode_str }),
                    None => (false, Effect::Nothing),
                }
            },
            Key::Backspace => {
                string_pop(&mut self.input_buffer);
                let mut msg = String::from_str("chmod (octal): ");
                msg.append(self.input_buffer.as_str());
                self.status_message = Some(msg);
                (false, Effect::Nothing)
            },
            Key::Char(c) => {
                let is_octal = match octal_digit(c) {
                    Some(_) => true,
                    None => false,
                };
                if is_octal && self.input_buffer.as_str().unicode_len() < 4 {
                    push_char(&mut self.input_buffer, c);
                    let mut msg = String::from_str("chmod (octal): ");
                    msg.append(self.input_buffer.as_str());
                    self.status_message = Some(msg);
                }
                (false, Effect::Nothing)
            },
            _ => (false, Effect::Nothing),
        }
    }

    /// Typing a search pattern; enter hands the recursive scan to the
    /// loop, whose findings come back through apply_search_results.
    pub fn handle_search_key(&mut self, key: KeyInput) -> (r: (bool, Effect))
        requires
            old(self).wf(),
        ensures
            final(self).wf(),
            search_mode_step(*old(self), *final(self), key, r),
    {
        let ti = self.active_tab;
        match key.code {
            Key::Esc => {
                self.input_mode = InputMode::Normal;
                self.input_buffer = String::new();
                self.status_message = None;
                (false, Effect::Nothing)
            },
            Key::Enter => {
                let pattern = self.input_buffer.clone();
                self.input_buffer = String::new();
                if pattern.as_str().unicode_len() == 0 {
                    self.input_mode = InputMode::Normal;
                    self.status_message = None;
                    (false, Effect::Nothing)
                } else {
                    let dir = self.tabs[ti].current_dir.clone();
                    (false, Effect::RunSearch { dir, pattern })
                }
            },
            Key::Backspace => {
                string_pop(&mut self.input_buffer);
                let mut msg = String::from_str("Search: ");
                msg.append(self.input_buffer.as_str());
                self.status_message = Some(msg);
                (false, Effect::Nothing)
            },
            Key::Char(c) => {
                push_char(&mut self.input_buffer, c);
                let mut msg = String::from_str("Search: ");
                msg.append(self.input_buffer.as_str());
                self.status_message = Some(msg);
                (false, Effect::Nothing)
            },
            _ => (false, Effect::Nothing),
        }
    }

    /// Walking the search results: j and k move over exactly the hits,
    /// enter jumps to the hit's directory, escape or q closes the pane.
    pub fn handle_search_results_key(&mut self, key: KeyInput) -> (r: (bool, Effect))
        requires
            old(self).wf(),
        ensures
            final(self).wf(),
            results_mode_step(*old(self), *final(self), key, r),
    {
        let ti = self.active_tab;
        match key.code {
            Key::Esc => {
                self.input_mode = InputMode::Normal;
                self.search_results = Vec::new();
                self.status_message = None;
                (false, Effect::Nothing)
            },
            Key::Enter => {
                if self.search_cursor < self.search_results.len() {
                    let result = self.search_results[self.search_cursor].clone();
                    let parent = parent_of(result.path.as_str());
                    let effect: Effect = match parent {
                        Some(par) => {
                            let focus = file_name_of(result.path.as_str());
                            let tab = &mut self.tabs[ti];
                            tab.current_dir = par;
                            tab.cursor = 0;
                            proof {
                                assert forall|i: int| 0 <= i < self.tabs@.len() implies (#[trigger] self.tabs@[i]).wf() by {
                                    if i != ti {
                                        assert(self.tabs@[i] == old(self).tabs@[i]);
                                    }
                                }
                            }
                            Effect::Refresh { focus: Some(focus) }
                        },
                        None => Effect::Nothing,
                    };
                    self.input_mode = InputMode::Normal;
                    self.search_results = Vec::new();
                    let mut msg = String::from_str("Opened: ");
                    msg.append(result.path.as_str());
                    self.status_message = Some(msg);
                    (false, effect)
                } else {
                    (false, Effect::Nothing)
                }
            },
            Key::Down => {
                self.search_cursor_down();
                (false, Effect::Nothing)
            },
            Key::Up => {
                self.search_cursor_up();
                (false, Effect::Nothing)
            },
            Key::Char(c) => {
                if c == 'q' {
                    self.input_mode = InputMode::Normal;
                    self.search_results = Vec::new();
                    self.status_message = None;
                    return (false, Effect::Nothing);
                }
                if c == 'j' {
                    self.search_cursor_down();
                    return (false, Effect::Nothing);
                }
                if c == 'k' {
                    self.search_cursor_up();
                    return (false, Effect::Nothing);
                }
                if c == 'G' {
                    let n = self.search_results.len();
                    if n == 0 {
                        self.search_cursor = 0;
                    } else {
                        self.search_cursor = n - 1;
                    }
                    return (false, Effect::Nothing);
                }
                if c == 'g' {
                    self.search_cursor = 0;
                    return (false, Effect::Nothing);
                }
                (false, Effect::Nothing)
            },
            _ => (false, Effect::Nothing),
        }
    }

    fn search_cursor_down(&mut self)
        requires
            old(self).wf(),
        ensures
            final(self).wf(),
            final(self).search_cursor == (if old(self).search_cursor + 1 < old(self).search_results@.len() { old(self).search_cursor + 1 } else { old(self).search_cursor as int }),
            *final(self) == (App { search_cursor: final(self).search_cursor, ..*old(self) }),
    {
        let n = self.search_results.len();
        if n > 0 && self.search_cursor < n - 1 {
            self.search_cursor = self.search_cursor + 1;
        }
    }

    fn search_cursor_up(&mut self)
        requires
            old(self).wf(),
        ensures
            final(self).wf(),
            final(self).search_cursor == (if old(self).search_cursor > 0 { old(self).search_cursor - 1 } else { 0int }),
            *final(self) == (App { search_cursor: final(self).search_cursor, ..*old(self) }),
    {
        if self.search_cursor > 0 {
            self.search_cursor = self.search_cursor - 1;
        }
    }

    /// One keyboard event for the whole session: control-C always quits,
    /// control and alt chords manage tabs, and everything else goes to the
    /// handler of the current mode.
    pub fn handle_key(&mut self, key: KeyInput) -> (r: (bool, Effect))
        requires
            old(self).wf(),
        ensures
            final(self).wf(),
            key.ctrl && key.code == Key::Char('c') ==> r.0 && *final(self) == *old(self) && (r.1
                is Nothing),
            // tab management chords, taken only in normal mode
            ({
                let pre = *old(self);
                let post = *final(self);
                &&& (pre.input_mode == InputMode::Normal && key.ctrl && key.code == Key::Char('t')
                    ==> !r.0 && post.tabs@.len() == pre.tabs@.len() + 1 && post.active_tab
                    == pre.active_tab + 1 && (match r.1 {
                    Effect::Refresh { focus } => focus is None,
                    _ => false,
                }))
                &&& (pre.input_mode == InputMode::Normal && key.ctrl && key.code == Key::Char('w')
                    ==> r.0 == (pre.tabs@.len() == 1) && (r.1 is Nothing) && (!r.0
                    ==> post.tabs@.len() == pre.tabs@.len() - 1 && (post.active_tab as int)
                    < post.tabs@.len()))
                &&& (pre.input_mode == InputMode::Normal && key.ctrl && key.code == Key::Right
                    ==> !r.0 && (r.1 is Nothing) && post.tabs == pre.tabs && post.active_tab == (
                if pre.active_tab + 1 < pre.tabs@.len() {
                    pre.active_tab + 1
                } else {
                    0int
                }))
                &&& (pre.input_mode == InputMode::Normal && key.ctrl && key.code == Key::Left
                    ==> !r.0 && (r.1 is Nothing) && post.tabs == pre.tabs && post.active_tab == (
                if pre.active_tab == 0 {
                    pre.tabs@.len() - 1
                } else {
                    pre.active_tab - 1
                }))
                &&& (pre.input_mode == InputMode::Normal && key.ctrl && key.code == Key::Char('y')
                    ==> !r.0 && post.tabs == pre.tabs && ({
                    let t0 = pre.tabs@[pre.active_tab as int];
                    if t0.tree_mode {
                        if t0.tree_nodes@.len() > 0 {
                            match r.1 {
                                Effect::CopyFileContent { path } => path@ == t0.tree_nodes@[
                                    t0.tree_cursor as int
                                ].entry.path@,
                                _ => false,
                            }
                        } else {
                            r.1 is Nothing
                        }
                    } else {
                        if t0.filtered_entries@.len() > 0 {
                            match r.1 {
                                Effect::CopyFileContent { path } => path@ == t0.entries@[
                                    t0.filtered_entries@[t0.cursor as int] as int
                                ].path@,
                                _ => false,
                            }
                        } else {
                            r.1 is Nothing
                        }
                    }
                }))
                &&& (pre.input_mode == InputMode::Normal && is_tab_digit(key) ==> !r.0 && (r.1
                    is Nothing) && post.tabs == pre.tabs && (match key.code {
                    Key::Char(c) => post.active_tab == (if ((c as u32) - 49) < pre.tabs@.len() {
                        ((c as u32) - 49) as int
                    } else {
                        pre.active_tab as int
                    }),
                    _ => true,
                }))
            }),
            // everything else goes to the handler of the current mode, whose
            // guarantees carry through
            old(self).input_mode == InputMode::Normal && !is_tab_chord(key) && !is_tab_digit(key)
                ==> normal_mode_step(*old(self), *final(self), key, r),
            old(self).input_mode == InputMode::Filter && !(key.ctrl && key.code == Key::Char('c'))
                ==> filter_mode_step(*old(self), *final(self), key, r),
            (old(self).input_mode == InputMode::Rename || old(self).input_mode
                == InputMode::CreateFile || old(self).input_mode == InputMode::CreateDir) && !(
            key.ctrl && key.code == Key::Char('c')) ==> input_mode_step(
                *old(self),
                *final(self),
                key,
                r,
            ),
            old(self).input_mode == InputMode::Bookmark && !(key.ctrl && key.code == Key::Char(
                'c',
            )) ==> bookmark_mode_step(*old(self), *final(self), key, r),
            old(self).input_mode == InputMode::JumpBookmark && !(key.ctrl && key.code == Key::Char(
                'c',
            )) ==> jump_mode_step(*old(self), *final(self), key, r),
            old(self).input_mode == InputMode::Chmod && !(key.ctrl && key.code == Key::Char('c'))
                ==> chmod_mode_step(*old(self), *final(self), key, r),
            old(self).input_mode == InputMode::Search && !(key.ctrl && key.code == Key::Char('c'))
                ==> search_mode_step(*old(self), *final(self), key, r),
            old(self).input_mode == InputMode::SearchResults && !(key.ctrl && key.code == Key::Char(
                'c',
            )) ==> results_mode_step(*old(self), *final(self), key, r),
    {
        if key.ctrl && key.code == Key::Char('c') {
            return (true, Effect::Nothing);
        }
        if self.input_mode == InputMode::Normal && key.ctrl {
            match key.code {
                Key::Char(c) => {
                    if c == 'y' {
                        let ti = self.active_tab;
                        let tree_mode = self.tabs[ti].tree_mode;
                        let target: Option<String> = if tree_mode {
                            match self.tabs[ti].selected_tree_entry() {
                                Some(e) => Some(e.path.clone()),
                                None => None,
                            }
                        } else {
                            match self.tabs[ti].selected_entry() {
                                Some(e) => Some(e.path.clone()),
                                None => None,
                            }
                        };
                        match target {
                            Some(p) => {
                                return (false, Effect::CopyFileContent { path: p });
                            },
                            None => {
                                return (false, Effect::Nothing);
                            },
                        }
                    }
                    if c == 't' {
                        self.new_tab();
                        let n = self.tabs.len();
                        proof {
                            assert(self.active_tab < n);
                        }
                        let shown = self.active_tab + 1;
                        self.status_message = Some(count_msg("Tab ", shown, " opened"));
                        return (false, Effect::Refresh { focus: None });
                    }
                    if c == 'w' {
                        if self.close_tab() {
                            return (true, Effect::Nothing);
                        }
                        let n = self.tabs.len();
                        self.status_message = Some(count_msg("Tab closed (", n, " remaining)"));
                        return (false, Effect::Nothing);
                    }
                },
                Key::Right => {
                    self.next_tab();
                    return (false, Effect::Nothing);
                },
                Key::Left => {
                    self.prev_tab();
                    return (false, Effect::Nothing);
                },
                _ => {},
            }
        }
        if self.input_mode == InputMode::Normal && key.alt {
            match key.code {
                Key::Char(c) => {
                    let u = c as u32;
                    // The digits 1 through 9 address tabs directly.
                    if 49 <= u && u <= 57 {
                        let idx = (u - 49) as usize;
                        if idx < self.tabs.len() {
                            self.active_tab = idx;
                        }
                        return (false, Effect::Nothing);
                    }
                },
                _ => {},
            }
        }
        match self.input_mode {
            InputMode::Normal => self.handle_normal_key(key),
            InputMode::Filter => self.handle_filter_key(key),
            InputMode::Rename => self.handle_input_key(key),
            InputMode::CreateFile => self.handle_input_key(key),
            InputMode::CreateDir => self.handle_input_key(key),
            InputMode::Bookmark => self.handle_bookmark_key(key),
            InputMode::JumpBookmark => self.handle_jump_bookmark_key(key),
            InputMode::Chmod => self.handle_chmod_key(key),
            InputMode::Search => self.handle_search_key(key),
            InputMode::SearchResults => self.handle_search_results_key(key),
        }
    }

    /// One mouse event: clicks on the recorded tab bar switch tabs, clicks
    /// in the content pane move the cursor, the wheel scrolls by one, and
    /// a right click flips the selection under the cursor.
    pub fn handle_mouse(&mut self, m: MouseInput) -> (r: bool)
        requires
            old(self).wf(),
        ensures
            final(self).wf(),
            !r,
            final(self).tabs@.len() == old(self).tabs@.len(),
            *final(self) == (App {
                tabs: final(self).tabs,
                active_tab: final(self).active_tab,
                ..*old(self)
            }),
            m == MouseInput::ScrollDown ==> final(self).active_tab == old(self).active_tab && ({
                let t0 = old(self).tabs@[old(self).active_tab as int];
                let t1 = final(self).tabs@[old(self).active_tab as int];
                t1 == (Tab { cursor: t1.cursor, ..t0 }) && t1.cursor == (if t0.cursor + 1 < t0.filtered_entries@.len() { t0.cursor + 1 } else { t0.cursor as int })
            }),
            m == MouseInput::ScrollUp ==> final(self).active_tab == old(self).active_tab && ({
                let t0 = old(self).tabs@[old(self).active_tab as int];
                let t1 = final(self).tabs@[old(self).active_tab as int];
                t1 == (Tab { cursor: t1.cursor, ..t0 }) && t1.cursor == (if t0.cursor > 0 { t0.cursor - 1 } else { 0int })
            }),
            // a right click flips the selection on the entry under the cursor
            m == MouseInput::RightClick ==> final(self).active_tab == old(self).active_tab && ({
                let t0 = old(self).tabs@[old(self).active_tab as int];
                let t1 = final(self).tabs@[old(self).active_tab as int];
                if t0.filtered_entries@.len() > 0 {
                    let e = t0.entries@[t0.filtered_entries@[t0.cursor as int] as int];
                    &&& t1 == (Tab { selected: t1.selected, ..t0 })
                    &&& str_seq_has(t1.selected@, e.path@) == !str_seq_has(t0.selected@, e.path@)
                } else {
                    final(self).tabs == old(self).tabs
                }
            }),
            // a left click either switches tabs or moves the active cursor
            (match m {
                MouseInput::LeftClick { .. } => {
                    ||| final(self).tabs == old(self).tabs
                    ||| (final(self).active_tab == old(self).active_tab && ({
                        let t0 = old(self).tabs@[old(self).active_tab as int];
                        let t1 = final(self).tabs@[old(self).active_tab as int];
                        final(self).tabs@ == old(self).tabs@.update(
                            old(self).active_tab as int,
                            t1,
                        ) && t1 == (Tab { cursor: t1.cursor, ..t0 })
                    }))
                },
                _ => true,
            }),
    {
        match m {
            MouseInput::LeftClick { col, row } => {
                let mut hit: Option<usize> = None;
                let mut i: usize = 0;
                while i < self.mouse_areas.tab_positions.len()
                    invariant
                        self.wf(),
                        *self == *old(self),
                        (match hit {
                            Some(idx) => (idx as int) < self.tabs@.len(),
                            None => true,
                        }),
                    decreases self.mouse_areas.tab_positions@.len() - i,
                {
                    let (tx, tw, idx) = self.mouse_areas.tab_positions[i];
                    if hit.is_none() && row == 0 && col >= tx && col - tx < tw && idx
                        < self.tabs.len() {
                        hit = Some(idx);
                    }
                    i = i + 1;
                }
                match hit {
                    Some(idx) => {
                        self.active_tab = idx;
                        return false;
                    },
                    None => {},
                }
                match self.mouse_areas.current_pane {
                    Some((px, py, pw, ph)) => {
                        if col >= px && col - px < pw && row >= py && row - py < ph {
                            let off = row - py;
                            let file_row: usize = if off == 0 {
                                0
                            } else {
                                (off - 1) as usize
                            };
                            let ti = self.active_tab;
                            let tab = &mut self.tabs[ti];
                            if file_row < tab.filtered_entries.len() {
                                tab.cursor = file_row;
                            }
                            proof {
                                assert forall|i: int| 0 <= i < self.tabs@.len() implies (
                                #[trigger] self.tabs@[i]).wf() by {
                                    if i != ti {
                                        assert(self.tabs@[i] == old(self).tabs@[i]);
                                    }
                                }
                            }
                        }
                    },
                    None => {},
                }
                false
            },
            MouseInput::ScrollDown => {
                self.list_cursor_down();
                false
            },
            MouseInput::ScrollUp => {
                self.list_cursor_up();
                false
            },
            MouseInput::RightClick => {
                let ti = self.active_tab;
                let target: Option<String> = match self.tabs[ti].selected_entry() {
                    Some(e) => Some(e.path.clone()),
                    None => None,
                };
                match target {
                    Some(p) => {
                        let tab = &mut self.tabs[ti];
                        tab.toggle_selected(&p);
                        proof {
                            assert forall|i: int| 0 <= i < self.tabs@.len() implies (
                            #[trigger] self.tabs@[i]).wf() by {
                                if i != ti {
                                    assert(self.tabs@[i] == old(self).tabs@[i]);
                                }
                            }
                        }
                    },
                    None => {},
                }
                false
            },
        }
    }
}

} // verus!
