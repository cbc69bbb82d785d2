use vstd::prelude::*;

use crate::entry::FileEntry;
use crate::entry::SortBy;
use crate::listing::visible_entries_of;
use crate::listing::visible_spec;
use crate::sort::sort_spec;
use crate::sort::sorted_entries;

verus! {

// ---------------------------------------------------------------------------
// Rows of the tree pane
// ---------------------------------------------------------------------------
/// One row of the tree pane: an entry at a depth, with its expansion state
/// and whether it can be expanded at all.
pub struct TreeNode {
    pub entry: FileEntry,
    pub depth: usize,
    pub expanded: bool,
    pub has_children: bool,
}

impl Clone for TreeNode {
    fn clone(&self) -> (r: Self)
        ensures
            r == *self,
    {
        TreeNode {
            entry: self.entry.clone(),
            depth: self.depth,
            expanded: self.expanded,
            has_children: self.has_children,
        }
    }
}

/// One directory's raw children, as the lister saw them, with the cheap
/// probe saying whether the directory has any child at all.
pub struct DirListing {
    pub path: String,
    pub entries: Vec<FileEntry>,
    pub nonempty: bool,
}

// ---------------------------------------------------------------------------
// Looking a directory up among the supplied listings
// ---------------------------------------------------------------------------
pub open spec fn find_listing(ls: Seq<DirListing>, p: Seq<char>) -> Option<DirListing>
    decreases ls.len(),
{
    if ls.len() == 0 {
        None
    } else if ls.first().path@ == p {
        Some(ls.first())
    } else {
        find_listing(ls.drop_first(), p)
    }
}

pub open spec fn probe_nonempty(ls: Seq<DirListing>, p: Seq<char>) -> bool {
    match find_listing(ls, p) {
        Some(l) => l.nonempty,
        None => false,
    }
}

pub open spec fn str_seq_has(xs: Seq<String>, p: Seq<char>) -> bool {
    exists|i: int| 0 <= i < xs.len() && xs[i]@ == p
}

fn find_listing_exec<'a>(ls: &'a Vec<DirListing>, p: &String) -> (r: Option<&'a DirListing>)
    ensures
        (match r {
            Some(l) => find_listing(ls@, p@) == Some(*l),
            None => find_listing(ls@, p@) is None,
        }),
{
    proof {
        assert(ls@.skip(0) =~= ls@);
    }
    let mut j: usize = 0;
    while j < ls.len()
        invariant
            0 <= j <= ls.len(),
            find_listing(ls@, p@) == find_listing(ls@.skip(j as int), p@),
        decreases ls.len() - j,
    {
        proof {
            assert(ls@.skip(j as int).first() == ls@[j as int]);
            assert(ls@.skip(j as int).drop_first() =~= ls@.skip(j + 1));
        }
        if ls[j].path == *p {
            return Some(&ls[j]);
        }
        j = j + 1;
    }
    None
}

pub(crate) fn str_vec_has(xs: &Vec<String>, p: &String) -> (r: bool)
    ensures
        r == str_seq_has(xs@, p@),
{
    let mut j: usize = 0;
    while j < xs.len()
        invariant
            0 <= j <= xs.len(),
            forall|k: int| 0 <= k < j ==> xs@[k]@ != p@,
        decreases xs.len() - j,
    {
        if xs[j] == *p {
            return true;
        }
        j = j + 1;
    }
    false
}

fn probe_exec(ls: &Vec<DirListing>, p: &String) -> (r: bool)
    ensures
        r == probe_nonempty(ls@, p@),
{
    match find_listing_exec(ls, p) {
        Some(l) => l.nonempty,
        None => false,
    }
}

// ---------------------------------------------------------------------------
// The flattened tree
// ---------------------------------------------------------------------------
/// The rows below one directory: its ordered visible children, each dir
/// that is expanded followed at once by its own rows, descent stopping at
/// depth 5 and at directories whose listing was not supplied.
pub open spec fn subtree_spec(
    ls: Seq<DirListing>,
    expanded: Seq<String>,
    show_hidden: bool,
    dir: Seq<char>,
    depth: usize,
) -> Seq<TreeNode>
    decreases 6 - depth, 1int, 0int,
{
    if depth > 5 {
        Seq::empty()
    } else {
        match find_listing(ls, dir) {
            None => Seq::empty(),
            Some(l) => rows_spec(
                ls,
                expanded,
                show_hidden,
                sort_spec(SortBy::Name, visible_spec(l.entries@, show_hidden)),
                depth,
            ),
        }
    }
}

pub open spec fn rows_spec(
    ls: Seq<DirListing>,
    expanded: Seq<String>,
    show_hidden: bool,
    entries: Seq<FileEntry>,
    depth: usize,
) -> Seq<TreeNode>
    decreases 6 - depth, 0int, entries.len(),
{
    if entries.len() == 0 || depth > 5 {
        Seq::empty()
    } else {
        let e = entries.first();
        let node = TreeNode {
            entry: e,
            depth,
            expanded: str_seq_has(expanded, e.path@),
            has_children: e.is_dir && probe_nonempty(ls, e.path@),
        };
        let sub = if e.is_dir && str_seq_has(expanded, e.path@) && depth < 5 {
            subtree_spec(ls, expanded, show_hidden, e.path@, (depth + 1) as usize)
        } else {
            Seq::empty()
        };
        seq![node] + sub + rows_spec(ls, expanded, show_hidden, entries.drop_first(), depth)
    }
}

/// Build the rows below `dir` from the supplied listings.
pub fn build_subtree(
    ls: &Vec<DirListing>,
    expanded: &Vec<String>,
    show_hidden: bool,
    dir: &String,
    depth: usize,
) -> (r: Vec<TreeNode>)
    requires
        depth <= 5,
    ensures
        r@ == subtree_spec(ls@, expanded@, show_hidden, dir@, depth),
    decreases 5 - depth,
{
    let mut nodes: Vec<TreeNode> = Vec::new();
    let listing = match find_listing_exec(ls, dir) {
        None => {
            return nodes;
        },
        Some(l) => l,
    };
    let vis = visible_entries_of(&listing.entries, show_hidden);
    let ordered = sorted_entries(SortBy::Name, &vis);
    let ghost full = sort_spec(SortBy::Name, visible_spec(listing.entries@, show_hidden));
    proof {
        assert(ordered@.skip(0) =~= ordered@);
    }
    let mut i: usize = 0;
    while i < ordered.len()
        invariant
            depth <= 5,
            0 <= i <= ordered.len(),
            ordered@ == full,
            rows_spec(ls@, expanded@, show_hidden, full, depth) == nodes@ + rows_spec(
                ls@,
                expanded@,
                show_hidden,
                ordered@.skip(i as int),
                depth,
            ),
        decreases ordered.len() - i,
    {
        proof {
            assert(ordered@.skip(i as int).first() == ordered@[i as int]);
            assert(ordered@.skip(i as int).drop_first() =~= ordered@.skip(i + 1));
        }
        let ent = ordered[i].clone();
        let is_expanded = str_vec_has(expanded, &ent.path);
        let has_kids = ent.is_dir && probe_exec(ls, &ent.path);
        let mut sub: Vec<TreeNode> = if ent.is_dir && is_expanded && depth < 5 {
            build_subtree(ls, expanded, show_hidden, &ent.path, depth + 1)
        } else {
            Vec::new()
        };
        nodes.push(TreeNode { entry: ent, depth, expanded: is_expanded, has_children: has_kids });
        nodes.append(&mut sub);
        i = i + 1;
    }
    proof {
        assert(ordered@.skip(ordered@.len() as int) =~= Seq::<FileEntry>::empty());
    }
    nodes
}

} // verus!
