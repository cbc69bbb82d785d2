use vstd::prelude::*;
use vstd::string::StrSliceExecFns;
use vstd::string::StringExecFns;

use crate::entry::FileEntry;
use crate::entry::GitFileStatus;
use crate::entry::SortBy;
use crate::filter::filter_indices;
use crate::filter::filter_spec;
use crate::filter::lemma_filter_spec_subsequence;
use crate::listing::tag_entries;
use crate::listing::tag_spec;
use crate::listing::visible_entries_of;
use crate::listing::visible_spec;
use crate::preview::PreviewLine;
use crate::sort::sort_spec;
use crate::sort::sorted_entries;
use crate::tree::build_subtree;
use crate::tree::str_seq_has;
use crate::tree::str_vec_has;
use crate::tree::subtree_spec;
use crate::tree::DirListing;
use crate::tree::TreeNode;
use crate::paths::file_name_of;
use crate::paths::file_name_spec;

verus! {

// ---------------------------------------------------------------------------
// Helpers on path sets kept as vectors
// ---------------------------------------------------------------------------
pub open spec fn distinct_strs(xs: Seq<String>) -> bool {
    forall|i: int, j: int| 0 <= i < j < xs.len() ==> xs[i]@ != xs[j]@
}

/// Flip membership of a path in a duplicate-free vector of paths.
pub(crate) fn toggle_in(v: &mut Vec<String>, p: &String)
    requires
        distinct_strs(old(v)@),
    ensures
        distinct_strs(final(v)@),
        str_seq_has(final(v)@, p@) == !str_seq_has(old(v)@, p@),
        forall|q: Seq<char>|
            q != p@ ==> #[trigger] str_seq_has(final(v)@, q) == str_seq_has(old(v)@, q),
{
    let mut j: usize = 0;
    while j < v.len()
        invariant
            distinct_strs(v@),
            v@ == old(v)@,
            0 <= j <= v.len(),
            forall|k: int| 0 <= k < j ==> v@[k]@ != p@,
        decreases v.len() - j,
    {
        if v[j] == *p {
            let ghost pre = v@;
            v.remove(j);
            proof {
                assert(str_seq_has(pre, p@));
                assert forall|q: Seq<char>| str_seq_has(v@, q) implies (str_seq_has(pre, q) && (q
                    != p@ || false)) by {
                    let w = choose|w: int| 0 <= w < v@.len() && v@[w]@ == q;
                    if w < j {
                        assert(pre[w]@ == q);
                    } else {
                        assert(pre[w + 1]@ == q);
                    }
                }
                assert(!str_seq_has(v@, p@));
                assert forall|q: Seq<char>| q != p@ && str_seq_has(pre, q) implies str_seq_has(
                    v@,
                    q,
                ) by {
                    let w = choose|w: int| 0 <= w < pre.len() && pre[w]@ == q;
                    if w < j {
                        assert(v@[w]@ == q);
                    } else {
                        assert(w != j);
                        assert(v@[w - 1]@ == q);
                    }
                }
                assert forall|a: int, b: int| 0 <= a < b < v@.len() implies v@[a]@ != v@[b]@ by {
                    let pa = if a < j {
                        a
                    } else {
                        a + 1
                    };
                    let pb = if b < j {
                        b
                    } else {
                        b + 1
                    };
                    assert(pre[pa]@ != pre[pb]@);
                }
            }
            return ;
        }
        j = j + 1;
    }
    let ghost pre = v@;
    v.push(p.clone());
    proof {
        assert(!str_seq_has(pre, p@));
        assert(v@[v@.len() - 1]@ == p@);
        assert forall|q: Seq<char>| q != p@ implies str_seq_has(v@, q) == str_seq_has(pre, q) by {
            if str_seq_has(v@, q) {
                let w = choose|w: int| 0 <= w < v@.len() && v@[w]@ == q;
                assert(w < pre.len());
                assert(pre[w]@ == q);
            }
            if str_seq_has(pre, q) {
                let w = choose|w: int| 0 <= w < pre.len() && pre[w]@ == q;
                assert(v@[w]@ == q);
            }
        }
    }
}

/// The position of the entry with a given path, or 0 when none has it.
pub open spec fn path_pos(s: Seq<FileEntry>, p: Seq<char>) -> Option<int>
    decreases s.len(),
{
    if s.len() == 0 {
        None
    } else if s.first().path@ == p {
        Some(0int)
    } else {
        match path_pos(s.drop_first(), p) {
            Some(i) => Some(i + 1),
            None => None,
        }
    }
}

pub open spec fn path_pos_or_zero(s: Seq<FileEntry>, p: Seq<char>) -> int {
    match path_pos(s, p) {
        Some(i) => i,
        None => 0,
    }
}

fn find_path_position(v: &Vec<FileEntry>, p: &String) -> (r: usize)
    ensures
        r == path_pos_or_zero(v@, p@),
        v@.len() > 0 ==> r < v@.len(),
        v@.len() == 0 ==> r == 0,
{
    proof {
        assert(v@.skip(0) =~= v@);
    }
    let mut j: usize = 0;
    while j < v.len()
        invariant
            0 <= j <= v.len(),
            (match path_pos(v@, p@) {
                Some(i) => path_pos(v@.skip(j as int), p@) == Some(i - j),
                None => path_pos(v@.skip(j as int), p@) is None,
            }),
        decreases v.len() - j,
    {
        proof {
            assert(v@.skip(j as int).first() == v@[j as int]);
            assert(v@.skip(j as int).drop_first() =~= v@.skip(j + 1));
        }
        if v[j].path == *p {
            return j;
        }
        j = j + 1;
    }
    proof {
        assert(v@.skip(v@.len() as int).len() == 0);
    }
    0
}

/// The name of a listing row matching the positions of the first entry
/// with a given name, or none.
pub open spec fn name_pos(s: Seq<FileEntry>, n: Seq<char>) -> Option<int>
    decreases s.len(),
{
    if s.len() == 0 {
        None
    } else if s.first().name@ == n {
        Some(0int)
    } else {
        match name_pos(s.drop_first(), n) {
            Some(i) => Some(i + 1),
            None => None,
        }
    }
}


/// How one refresh relates a tab to its old state and the supplied data:
/// the listing is hidden-filtered, sorted and tagged, the filter re-applied
/// and the cursor clamped, the parent pane recomputed, and everything else
/// — the selection above all — left untouched.
pub open spec fn refreshed(
    pre: Tab,
    post: Tab,
    raw: Seq<FileEntry>,
    parent_raw: Option<Vec<FileEntry>>,
    statuses: Seq<(String, GitFileStatus)>,
) -> bool {
    &&& post.entries@ == tag_spec(
        sort_spec(pre.sort_by, visible_spec(raw, pre.show_hidden)),
        statuses,
    )
    &&& post.filtered_entries@ == filter_spec(post.entries@, pre.filter_text@)
    &&& post.cursor == (if (pre.cursor as int) < post.filtered_entries@.len() {
        pre.cursor as int
    } else if post.filtered_entries@.len() == 0 {
        0int
    } else {
        post.filtered_entries@.len() - 1
    })
    &&& post.git_statuses@ == statuses
    &&& (match parent_raw {
        None => post.parent_entries@.len() == 0 && post.parent_cursor == 0,
        Some(praw) => {
            &&& post.parent_entries@ == sort_spec(
                SortBy::Name,
                visible_spec(praw@, pre.show_hidden),
            )
            &&& post.parent_cursor == path_pos_or_zero(post.parent_entries@, pre.current_dir@)
        },
    })
    &&& post.selected@ == pre.selected@
    &&& post.filter_text@ == pre.filter_text@
    &&& post.current_dir == pre.current_dir
    &&& post.show_hidden == pre.show_hidden
    &&& post.sort_by == pre.sort_by
    &&& post.tree_mode == pre.tree_mode
    &&& post.tree_nodes == pre.tree_nodes
    &&& post.tree_cursor == pre.tree_cursor
    &&& post.tree_expanded == pre.tree_expanded
    &&& post.preview_lines == pre.preview_lines
}

// ---------------------------------------------------------------------------
// One browsing context
// ---------------------------------------------------------------------------
/// One browsing context: a directory, its listed entries, the filtered
/// view of them, cursors, the selection, and the tree state.
pub struct Tab {
    pub current_dir: String,
    pub entries: Vec<FileEntry>,
    pub filtered_entries: Vec<usize>,
    pub cursor: usize,
    pub parent_entries: Vec<FileEntry>,
    pub parent_cursor: usize,
    pub preview_lines: Vec<PreviewLine>,
    pub show_hidden: bool,
    pub sort_by: SortBy,
    pub selected: Vec<String>,
    pub git_statuses: Vec<(String, GitFileStatus)>,
    pub filter_text: String,
    pub tree_mode: bool,
    pub tree_nodes: Vec<TreeNode>,
    pub tree_cursor: usize,
    pub tree_expanded: Vec<String>,
}

impl Tab {
    /// The cursor stays inside the filtered view, resting at zero when the
    /// view is empty.
    pub open spec fn cursor_ok(self) -> bool {
        if self.filtered_entries@.len() == 0 {
            self.cursor == 0
        } else {
            (self.cursor as int) < self.filtered_entries@.len()
        }
    }

    /// The filtered view is a strictly increasing sequence of positions
    /// into the listing.
    pub open spec fn indices_ok(self) -> bool {
        &&& forall|i: int, j: int|
            0 <= i < j < self.filtered_entries@.len() ==> self.filtered_entries@[i]
                < self.filtered_entries@[j]
        &&& forall|i: int|
            0 <= i < self.filtered_entries@.len() ==> (self.filtered_entries@[i] as int)
                < self.entries@.len()
    }

    pub open spec fn tree_ok(self) -> bool {
        if self.tree_nodes@.len() == 0 {
            self.tree_cursor == 0
        } else {
            (self.tree_cursor as int) < self.tree_nodes@.len()
        }
    }

    pub open spec fn wf(self) -> bool {
        &&& self.cursor_ok()
        &&& self.indices_ok()
        &&& self.tree_ok()
        &&& distinct_strs(self.selected@)
        &&& distinct_strs(self.tree_expanded@)
    }

    /// A fresh, still empty context on a directory; the first refresh
    /// fills it.
    pub fn new(dir: String, show_hidden: bool, sort_by: SortBy) -> (t: Tab)
        ensures
            t.wf(),
            t.current_dir == dir,
            t.entries@.len() == 0,
            t.filtered_entries@.len() == 0,
            t.cursor == 0,
            t.parent_entries@.len() == 0,
            t.parent_cursor == 0,
            t.preview_lines@.len() == 0,
            t.show_hidden == show_hidden,
            t.sort_by == sort_by,
            t.selected@.len() == 0,
            t.git_statuses@.len() == 0,
            t.filter_text@.len() == 0,
            !t.tree_mode,
            t.tree_nodes@.len() == 0,
            t.tree_cursor == 0,
            t.tree_expanded@.len() == 0,
    {
        Tab {
            current_dir: dir,
            entries: Vec::new(),
            filtered_entries: Vec::new(),
            cursor: 0,
            parent_entries: Vec::new(),
            parent_cursor: 0,
            preview_lines: Vec::new(),
            show_hidden,
            sort_by,
            selected: Vec::new(),
            git_statuses: Vec::new(),
            filter_text: String::new(),
            tree_mode: false,
            tree_nodes: Vec::new(),
            tree_cursor: 0,
            tree_expanded: Vec::new(),
        }
    }

    /// Re-apply the filter text to the listing and clamp the cursor, as
    /// after any change to either.  The selection is untouched.
    pub fn apply_filter(&mut self)
        ensures
            final(self).filtered_entries@ == filter_spec(
                old(self).entries@,
                old(self).filter_text@,
            ),
            final(self).cursor == (if (old(self).cursor as int) < final(self).filtered_entries@.len() {
                old(self).cursor as int
            } else if final(self).filtered_entries@.len() == 0 {
                0int
            } else {
                final(self).filtered_entries@.len() - 1
            }),
            final(self).cursor_ok(),
            final(self).indices_ok(),
            *final(self) == (Tab {
                filtered_entries: final(self).filtered_entries,
                cursor: final(self).cursor,
                ..*old(self)
            }),
    {
        let n = self.entries.len();
        let f = filter_indices(&self.entries, self.filter_text.as_str());
        proof {
            assert(self.entries@.len() == n);
            lemma_filter_spec_subsequence(self.entries@, self.filter_text@);
        }
        self.filtered_entries = f;
        if self.cursor >= self.filtered_entries.len() {
            if self.filtered_entries.len() == 0 {
                self.cursor = 0;
            } else {
                self.cursor = self.filtered_entries.len() - 1;
            }
        }
    }

    /// Re-sort the listing under the current key.
    pub fn sort_entries(&mut self)
        ensures
            final(self).entries@ == sort_spec(old(self).sort_by, old(self).entries@),
            *final(self) == (Tab { entries: final(self).entries, ..*old(self) }),
    {
        let sorted = sorted_entries(self.sort_by, &self.entries);
        self.entries = sorted;
    }

    /// Take in a fresh raw listing of the current directory, its parent's
    /// raw listing (none at the root), and the status tags: hide or show
    /// dotted names, sort, tag, re-filter, clamp the cursor, and position
    /// the parent cursor on the current directory.  The selection and the
    /// filter text survive unchanged.
    pub fn refresh(
        &mut self,
        raw: Vec<FileEntry>,
        parent_raw: Option<Vec<FileEntry>>,
        statuses: Vec<(String, GitFileStatus)>,
    )
        requires
            old(self).wf(),
        ensures
            final(self).wf(),
            refreshed(*old(self), *final(self), raw@, parent_raw, statuses@),
    {
        let vis = visible_entries_of(&raw, self.show_hidden);
        let mut sorted = sorted_entries(self.sort_by, &vis);
        tag_entries(&mut sorted, &statuses);
        self.entries = sorted;
        self.git_statuses = statuses;
        self.apply_filter();
        match parent_raw {
            None => {
                self.parent_entries = Vec::new();
                self.parent_cursor = 0;
            },
            Some(praw) => {
                let pvis = visible_entries_of(&praw, self.show_hidden);
                self.parent_entries = sorted_entries(SortBy::Name, &pvis);
                self.parent_cursor = find_path_position(&self.parent_entries, &self.current_dir);
            },
        }
    }

    /// The entries the pane shows, in filtered order.
    pub fn visible_entries(&self) -> (r: Vec<FileEntry>)
        requires
            self.wf(),
        ensures
            r@ == self.visible_seq(),
    {
        let mut r: Vec<FileEntry> = Vec::new();
        let mut i: usize = 0;
        while i < self.filtered_entries.len()
            invariant
                self.wf(),
                0 <= i <= self.filtered_entries@.len(),
                r@.len() == i,
                forall|k: int|
                    0 <= k < i ==> r@[k] == self.entries@[self.filtered_entries@[k] as int],
            decreases self.filtered_entries@.len() - i,
        {
            let idx = self.filtered_entries[i];
            r.push(self.entries[idx].clone());
            i = i + 1;
        }
        proof {
            assert(r@ =~= self.visible_seq());
        }
        r
    }

    /// The entry under the cursor, if the filtered view shows any.
    pub fn selected_entry(&self) -> (r: Option<&FileEntry>)
        requires
            self.wf(),
        ensures
            (match r {
                Some(e) => self.filtered_entries@.len() > 0 && *e == self.entries@[
                    self.filtered_entries@[self.cursor as int] as int
                ],
                None => self.filtered_entries@.len() == 0,
            }),
    {
        if self.filtered_entries.len() == 0 {
            None
        } else {
            let idx = self.filtered_entries[self.cursor];
            Some(&self.entries[idx])
        }
    }

    /// Show the given preview beside the entry under the cursor; with
    /// nothing under the cursor the pane goes blank.
    pub fn update_preview(&mut self, lines: Vec<PreviewLine>)
        requires
            old(self).wf(),
        ensures
            final(self).wf(),
            old(self).filtered_entries@.len() > 0 ==> final(self).preview_lines@ == lines@,
            old(self).filtered_entries@.len() == 0 ==> final(self).preview_lines@.len() == 0,
            *final(self) == (Tab { preview_lines: final(self).preview_lines, ..*old(self) }),
    {
        if self.filtered_entries.len() > 0 {
            self.preview_lines = lines;
        } else {
            self.preview_lines = Vec::new();
        }
    }

    /// Show the given preview beside the tree row under the cursor.
    pub fn update_preview_for_tree(&mut self, lines: Vec<PreviewLine>)
        requires
            old(self).wf(),
        ensures
            final(self).wf(),
            old(self).tree_nodes@.len() > 0 ==> final(self).preview_lines@ == lines@,
            old(self).tree_nodes@.len() == 0 ==> final(self).preview_lines@.len() == 0,
            *final(self) == (Tab { preview_lines: final(self).preview_lines, ..*old(self) }),
    {
        if self.tree_nodes.len() > 0 {
            self.preview_lines = lines;
        } else {
            self.preview_lines = Vec::new();
        }
    }

    pub fn file_count(&self) -> (r: usize)
        ensures
            r == self.filtered_entries@.len(),
    {
        self.filtered_entries.len()
    }

    pub fn selection_count(&self) -> (r: usize)
        ensures
            r == self.selected@.len(),
    {
        self.selected.len()
    }

    pub fn breadcrumb(&self) -> (r: String)
        ensures
            r@ == self.current_dir@,
    {
        self.current_dir.clone()
    }

    /// The short name a tab carries: the directory's file name, or `/` at
    /// the root.
    pub fn tab_title(&self) -> (r: String)
        ensures
            r@ == (if file_name_spec(self.current_dir@).len() == 0 {
                ("/")@
            } else {
                file_name_spec(self.current_dir@)
            }),
    {
        let name = file_name_of(self.current_dir.as_str());
        if name.as_str().unicode_len() == 0 {
            String::from_str("/")
        } else {
            name
        }
    }

    /// Whether a path is in the selection.
    pub fn is_selected(&self, path: &String) -> (r: bool)
        ensures
            r == str_seq_has(self.selected@, path@),
    {
        str_vec_has(&self.selected, path)
    }

    /// Flip a path in or out of the selection; nothing else moves.
    pub fn toggle_selected(&mut self, path: &String)
        requires
            old(self).wf(),
        ensures
            final(self).wf(),
            str_seq_has(final(self).selected@, path@) == !str_seq_has(
                old(self).selected@,
                path@,
            ),
            forall|q: Seq<char>|
                q != path@ ==> #[trigger] str_seq_has(final(self).selected@, q) == str_seq_has(
                    old(self).selected@,
                    q,
                ),
            *final(self) == (Tab { selected: final(self).selected, ..*old(self) }),
    {
        toggle_in(&mut self.selected, path);
    }

    /// Flip a directory's presence in the expanded set.
    pub fn toggle_expanded(&mut self, path: &String)
        requires
            old(self).wf(),
        ensures
            final(self).wf(),
            str_seq_has(final(self).tree_expanded@, path@) == !str_seq_has(
                old(self).tree_expanded@,
                path@,
            ),
            *final(self) == (Tab { tree_expanded: final(self).tree_expanded, ..*old(self) }),
    {
        toggle_in(&mut self.tree_expanded, path);
    }

    /// Flip between the flat listing and the tree view; entering the tree
    /// calls for a rebuild from fresh listings.
    pub fn toggle_tree_mode_flag(&mut self)
        ensures
            final(self).tree_mode == !old(self).tree_mode,
            *final(self) == (Tab { tree_mode: final(self).tree_mode, ..*old(self) }),
    {
        self.tree_mode = !self.tree_mode;
    }

    /// Rebuild the tree rows from the supplied listings and clamp the tree
    /// cursor into range.
    pub fn rebuild_tree(&mut self, listings: &Vec<DirListing>)
        requires
            old(self).wf(),
        ensures
            final(self).wf(),
            final(self).tree_nodes@ == subtree_spec(
                listings@,
                old(self).tree_expanded@,
                old(self).show_hidden,
                old(self).current_dir@,
                0,
            ),
            final(self).tree_cursor == (if (old(self).tree_cursor as int) < final(self).tree_nodes@.len() {
                old(self).tree_cursor as int
            } else if final(self).tree_nodes@.len() == 0 {
                0int
            } else {
                final(self).tree_nodes@.len() - 1
            }),
            *final(self) == (Tab {
                tree_nodes: final(self).tree_nodes,
                tree_cursor: final(self).tree_cursor,
                ..*old(self)
            }),
    {
        let nodes = build_subtree(
            listings,
            &self.tree_expanded,
            self.show_hidden,
            &self.current_dir,
            0,
        );
        self.tree_nodes = nodes;
        if self.tree_cursor >= self.tree_nodes.len() {
            if self.tree_nodes.len() == 0 {
                self.tree_cursor = 0;
            } else {
                self.tree_cursor = self.tree_nodes.len() - 1;
            }
        }
    }

    /// Flip between list and tree view: the list state — entries, filter,
    /// cursor, selection — is untouched either way, and entering the tree
    /// builds its rows from the supplied listings and clamps the tree
    /// cursor.
    pub fn toggle_tree_mode(&mut self, listings: &Vec<DirListing>)
        requires
            old(self).wf(),
        ensures
            final(self).wf(),
            final(self).tree_mode == !old(self).tree_mode,
            *final(self) == (Tab {
                tree_mode: final(self).tree_mode,
                tree_nodes: final(self).tree_nodes,
                tree_cursor: final(self).tree_cursor,
                ..*old(self)
            }),
            old(self).tree_mode ==> final(self).tree_nodes == old(self).tree_nodes && final(self).tree_cursor == old(self).tree_cursor,
            !old(self).tree_mode ==> {
                &&& final(self).tree_nodes@ == subtree_spec(
                    listings@,
                    old(self).tree_expanded@,
                    old(self).show_hidden,
                    old(self).current_dir@,
                    0,
                )
                &&& final(self).tree_cursor == (if (old(self).tree_cursor as int) < final(self).tree_nodes@.len() {
                    old(self).tree_cursor as int
                } else if final(self).tree_nodes@.len() == 0 {
                    0int
                } else {
                    final(self).tree_nodes@.len() - 1
                })
            },
    {
        self.toggle_tree_mode_flag();
        if self.tree_mode {
            self.rebuild_tree(listings);
        }
    }

    /// Expand or collapse the directory under the tree cursor: its path's
    /// membership in the expanded set flips and the rows are rebuilt from
    /// the supplied listings; on a file row or an empty tree nothing moves.
    pub fn tree_toggle_expand(&mut self, listings: &Vec<DirListing>)
        requires
            old(self).wf(),
        ensures
            final(self).wf(),
            ({
                let t0 = *old(self);
                if t0.tree_nodes@.len() > 0 && t0.tree_nodes@[t0.tree_cursor as int].entry.is_dir {
                    let p = t0.tree_nodes@[t0.tree_cursor as int].entry.path;
                    &&& *final(self) == (Tab {
                        tree_expanded: final(self).tree_expanded,
                        tree_nodes: final(self).tree_nodes,
                        tree_cursor: final(self).tree_cursor,
                        ..t0
                    })
                    &&& str_seq_has(final(self).tree_expanded@, p@) == !str_seq_has(
                        t0.tree_expanded@,
                        p@,
                    )
                    &&& final(self).tree_nodes@ == subtree_spec(
                        listings@,
                        final(self).tree_expanded@,
                        t0.show_hidden,
                        t0.current_dir@,
                        0,
                    )
                    &&& final(self).tree_cursor == (if (t0.tree_cursor as int) < final(self).tree_nodes@.len() {
                        t0.tree_cursor as int
                    } else if final(self).tree_nodes@.len() == 0 {
                        0int
                    } else {
                        final(self).tree_nodes@.len() - 1
                    })
                } else {
                    *final(self) == t0
                }
            }),
    {
        if self.tree_cursor < self.tree_nodes.len() {
            let is_dir = self.tree_nodes[self.tree_cursor].entry.is_dir;
            if is_dir {
                let path = self.tree_nodes[self.tree_cursor].entry.path.clone();
                self.toggle_expanded(&path);
                self.rebuild_tree(listings);
            }
        }
    }

    /// The entry of the tree row under the cursor, if any.
    pub fn selected_tree_entry(&self) -> (r: Option<&FileEntry>)
        requires
            self.wf(),
        ensures
            (match r {
                Some(e) => self.tree_nodes@.len() > 0 && *e == self.tree_nodes@[
                    self.tree_cursor as int
                ].entry,
                None => self.tree_nodes@.len() == 0,
            }),
    {
        if self.tree_nodes.len() == 0 {
            None
        } else {
            Some(&self.tree_nodes[self.tree_cursor].entry)
        }
    }

    /// The entries the filtered view shows, in order, as a sequence.
    pub open spec fn visible_seq(self) -> Seq<FileEntry> {
        Seq::new(self.filtered_entries@.len(), |i: int| self.entries@[self.filtered_entries@[i] as int])
    }

    /// Move the cursor onto the first visible entry with the given name,
    /// leaving it alone when no shown entry has it.
    pub fn focus_name(&mut self, name: &String)
        requires
            old(self).wf(),
        ensures
            final(self).wf(),
            *final(self) == (Tab { cursor: final(self).cursor, ..*old(self) }),
            final(self).cursor == (match name_pos(old(self).visible_seq(), name@) {
                Some(p) => p,
                None => old(self).cursor as int,
            }),
    {
        let ghost vis = self.visible_seq();
        proof {
            assert(vis.skip(0) =~= vis);
        }
        let mut i: usize = 0;
        while i < self.filtered_entries.len()
            invariant
                self.wf(),
                *self == *old(self),
                vis == old(self).visible_seq(),
                0 <= i <= self.filtered_entries@.len(),
                (match name_pos(vis, name@) {
                    Some(p) => name_pos(vis.skip(i as int), name@) == Some(p - i),
                    None => name_pos(vis.skip(i as int), name@) is None,
                }),
            decreases self.filtered_entries@.len() - i,
        {
            proof {
                assert(vis.skip(i as int).first() == vis[i as int]);
                assert(vis.skip(i as int).drop_first() =~= vis.skip(i + 1));
            }
            let idx = self.filtered_entries[i];
            if self.entries[idx].name == *name {
                self.cursor = i;
                return ;
            }
            i = i + 1;
        }
        proof {
            assert(vis.skip(vis.len() as int).len() == 0);
        }
    }
}

} // verus!
