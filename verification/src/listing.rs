use vstd::prelude::*;
use vstd::string::StrSliceExecFns;

use crate::entry::FileEntry;
use crate::entry::GitFileStatus;
use crate::entry::SortBy;
use crate::sort::lemma_sort_spec_props;
use crate::sort::sort_spec;

verus! {

// ---------------------------------------------------------------------------
// Hidden entries
// ---------------------------------------------------------------------------
pub open spec fn is_hidden(name: Seq<char>) -> bool {
    name.len() > 0 && name[0] == '.'
}

/// The entries of a raw listing that a pane shows: all of them when hidden
/// files are shown, otherwise those whose name does not start with a dot.
pub open spec fn visible_spec(raw: Seq<FileEntry>, show_hidden: bool) -> Seq<FileEntry>
    decreases raw.len(),
{
    if raw.len() == 0 {
        raw
    } else {
        let pre = visible_spec(raw.drop_last(), show_hidden);
        if show_hidden || !is_hidden(raw.last().name@) {
            pre.push(raw.last())
        } else {
            pre
        }
    }
}

/// With hidden entries suppressed no shown name starts with a dot; with
/// them shown the listing passes through whole.
pub proof fn lemma_visible_spec(raw: Seq<FileEntry>, show_hidden: bool)
    ensures
        visible_spec(raw, show_hidden).len() <= raw.len(),
        !show_hidden ==> forall|k: int|
            0 <= k < visible_spec(raw, show_hidden).len() ==> !is_hidden(
                visible_spec(raw, show_hidden)[k].name@,
            ),
        show_hidden ==> visible_spec(raw, show_hidden) == raw,
    decreases raw.len(),
{
    if raw.len() > 0 {
        lemma_visible_spec(raw.drop_last(), show_hidden);
        if show_hidden {
            assert(visible_spec(raw, show_hidden) =~= raw);
        }
    }
}

pub fn visible_entries_of(raw: &Vec<FileEntry>, show_hidden: bool) -> (r: Vec<FileEntry>)
    ensures
        r@ == visible_spec(raw@, show_hidden),
{
    let mut r: Vec<FileEntry> = Vec::new();
    let mut i: usize = 0;
    while i < raw.len()
        invariant
            0 <= i <= raw.len(),
            r@ == visible_spec(raw@.subrange(0, i as int), show_hidden),
        decreases raw.len() - i,
    {
        let name = &raw[i].name;
        let hidden = name.as_str().unicode_len() > 0 && name.as_str().get_char(0) == '.';
        if show_hidden || !hidden {
            r.push(raw[i].clone());
        }
        proof {
            assert(raw@.subrange(0, i + 1).drop_last() =~= raw@.subrange(0, i as int));
            assert(raw@.subrange(0, i + 1).last() == raw@[i as int]);
        }
        i = i + 1;
    }
    proof {
        assert(raw@.subrange(0, raw@.len() as int) =~= raw@);
    }
    r
}

// ---------------------------------------------------------------------------
// Status tags
// ---------------------------------------------------------------------------
/// The status recorded for a name, taking the first matching pair.
pub open spec fn status_for(statuses: Seq<(String, GitFileStatus)>, name: Seq<char>) -> Option<
    GitFileStatus,
>
    decreases statuses.len(),
{
    if statuses.len() == 0 {
        None
    } else if statuses.first().0@ == name {
        Some(statuses.first().1)
    } else {
        status_for(statuses.drop_first(), name)
    }
}

pub open spec fn with_status(e: FileEntry, statuses: Seq<(String, GitFileStatus)>) -> FileEntry {
    FileEntry {
        name: e.name,
        path: e.path,
        is_dir: e.is_dir,
        is_symlink: e.is_symlink,
        symlink_target: e.symlink_target,
        size: e.size,
        modified: e.modified,
        git_status: status_for(statuses, e.name@),
    }
}

pub open spec fn tag_spec(
    entries: Seq<FileEntry>,
    statuses: Seq<(String, GitFileStatus)>,
) -> Seq<FileEntry> {
    Seq::new(entries.len(), |i: int| with_status(entries[i], statuses))
}

/// What a pane ends up holding after a refresh with hidden entries
/// suppressed: sorting and tagging introduce no entry, so no shown name
/// starts with a dot, whatever the raw listing held.
pub proof fn lemma_refresh_hides_dotted(
    sk: SortBy,
    raw: Seq<FileEntry>,
    statuses: Seq<(String, GitFileStatus)>,
)
    ensures
        forall|k: int|
            0 <= k < tag_spec(sort_spec(sk, visible_spec(raw, false)), statuses).len()
                ==> !is_hidden(
                #[trigger] tag_spec(sort_spec(sk, visible_spec(raw, false)), statuses)[k].name@,
            ),
{
    broadcast use vstd::seq_lib::group_to_multiset_ensures;

    let vis = visible_spec(raw, false);
    lemma_visible_spec(raw, false);
    lemma_sort_spec_props(sk, vis);
    let sorted = sort_spec(sk, vis);
    let tagged = tag_spec(sorted, statuses);
    assert forall|k: int| 0 <= k < tagged.len() implies !is_hidden(tagged[k].name@) by {
        assert(tagged[k].name == sorted[k].name);
        assert(sorted.to_multiset().count(sorted[k]) > 0);
        assert(vis.to_multiset().count(sorted[k]) > 0);
        assert(vis.contains(sorted[k]));
        let w = choose|w: int| 0 <= w < vis.len() && vis[w] == sorted[k];
        assert(!is_hidden(vis[w].name@));
    }
}

fn status_lookup(statuses: &Vec<(String, GitFileStatus)>, name: &String) -> (r: Option<
    GitFileStatus,
>)
    ensures
        r == status_for(statuses@, name@),
{
    proof {
        assert(statuses@.skip(0) =~= statuses@);
    }
    let mut j: usize = 0;
    while j < statuses.len()
        invariant
            0 <= j <= statuses.len(),
            status_for(statuses@, name@) == status_for(statuses@.skip(j as int), name@),
        decreases statuses.len() - j,
    {
        proof {
            assert(statuses@.skip(j as int).first() == statuses@[j as int]);
            assert(statuses@.skip(j as int).drop_first() =~= statuses@.skip(j + 1));
        }
        if statuses[j].0 == *name {
            return Some(statuses[j].1);
        }
        j = j + 1;
    }
    proof {
        assert(statuses@.skip(statuses@.len() as int).len() == 0);
    }
    None
}

/// Mark every entry with the status recorded under its name, if any.
pub fn tag_entries(entries: &mut Vec<FileEntry>, statuses: &Vec<(String, GitFileStatus)>)
    ensures
        final(entries)@ == tag_spec(old(entries)@, statuses@),
{
    let ghost orig = entries@;
    let mut i: usize = 0;
    while i < entries.len()
        invariant
            0 <= i <= entries.len(),
            entries@.len() == orig.len(),
            forall|k: int| 0 <= k < i ==> entries@[k] == with_status(orig[k], statuses@),
            forall|k: int| i <= k < orig.len() ==> entries@[k] == orig[k],
        decreases entries.len() - i,
    {
        let st = status_lookup(statuses, &entries[i].name);
        let e = &mut entries[i];
        e.git_status = st;
        i = i + 1;
    }
    proof {
        assert(entries@ =~= tag_spec(orig, statuses@));
    }
}

} // verus!
