use vstd::prelude::*;

use crate::entry::FileEntry;
use crate::entry::SortBy;
use crate::paths::ext_key_spec;
use crate::paths::extension_key;
use crate::text::lex_le;
use crate::text::lex_lt;
use crate::text::lex_lt_exec;
use crate::text::lemma_lex_le_total;
use crate::text::lemma_lex_le_trans;
use crate::text::lemma_lex_lt_asym;
use crate::text::lemma_lex_lt_connected;
use crate::text::lemma_lex_lt_trans;
use crate::text::lower_of;
use crate::text::lowercase;

verus! {

// ---------------------------------------------------------------------------
// The ordering of a listing
// ---------------------------------------------------------------------------
pub open spec fn name_key(e: FileEntry) -> Seq<char> {
    lower_of(e.name@)
}

pub open spec fn ext_key(e: FileEntry) -> Seq<char> {
    ext_key_spec(e.name@)
}

pub open spec fn name_le(a: FileEntry, b: FileEntry) -> bool {
    lex_le(name_key(a), name_key(b))
}

/// Strictly larger: a known, newer modification time.
pub open spec fn date_gt(a: FileEntry, b: FileEntry) -> bool {
    match (a.modified, b.modified) {
        (Some(av), Some(bv)) => av > bv,
        (Some(_), None) => true,
        _ => false,
    }
}

/// Newest first, entries without a modification time last, equal times
/// tied by name.
pub open spec fn date_le(a: FileEntry, b: FileEntry) -> bool {
    date_gt(a, b) || (!date_gt(a, b) && !date_gt(b, a) && name_le(a, b))
}

/// Largest first, equal sizes tied by name.
pub open spec fn size_le(a: FileEntry, b: FileEntry) -> bool {
    a.size > b.size || (a.size == b.size && name_le(a, b))
}

/// Extension first, ties broken by name, both case-insensitively.
pub open spec fn ext_le(a: FileEntry, b: FileEntry) -> bool {
    ||| lex_lt(ext_key(a), ext_key(b))
    ||| (!lex_lt(ext_key(b), ext_key(a)) && name_le(a, b))
}

/// `a` may stand at or before `b` in a listing: directories always come
/// before files, and within each group the sort key decides.
pub open spec fn entry_le(sk: SortBy, a: FileEntry, b: FileEntry) -> bool {
    if a.is_dir != b.is_dir {
        a.is_dir
    } else {
        match sk {
            SortBy::Name => name_le(a, b),
            SortBy::Size => size_le(a, b),
            SortBy::Date => date_le(a, b),
            SortBy::Extension => ext_le(a, b),
        }
    }
}

pub proof fn lemma_entry_le_total(sk: SortBy, a: FileEntry, b: FileEntry)
    ensures
        entry_le(sk, a, b) || entry_le(sk, b, a),
{
    if a.is_dir == b.is_dir {
        match sk {
            SortBy::Name => {
                lemma_lex_le_total(name_key(a), name_key(b));
            },
            SortBy::Size => {
                lemma_lex_le_total(name_key(a), name_key(b));
            },
            SortBy::Date => {
                lemma_lex_le_total(name_key(a), name_key(b));
            },
            SortBy::Extension => {
                lemma_lex_lt_asym(ext_key(a), ext_key(b));
                lemma_lex_lt_asym(ext_key(b), ext_key(a));
                lemma_lex_le_total(name_key(a), name_key(b));
            },
        }
    }
}

pub proof fn lemma_entry_le_trans(sk: SortBy, a: FileEntry, b: FileEntry, c: FileEntry)
    requires
        entry_le(sk, a, b),
        entry_le(sk, b, c),
    ensures
        entry_le(sk, a, c),
{
    if a.is_dir == b.is_dir && b.is_dir == c.is_dir {
        match sk {
            SortBy::Name => {
                lemma_lex_le_trans(name_key(a), name_key(b), name_key(c));
            },
            SortBy::Size => {
                if a.size == b.size && b.size == c.size {
                    lemma_lex_le_trans(name_key(a), name_key(b), name_key(c));
                }
            },
            SortBy::Date => {
                if !date_gt(a, b) && !date_gt(b, a) && !date_gt(b, c) && !date_gt(c, b) {
                    lemma_lex_le_trans(name_key(a), name_key(b), name_key(c));
                }
            },
            SortBy::Extension => {
                let ea = ext_key(a);
                let eb = ext_key(b);
                let ec = ext_key(c);
                if lex_lt(ea, eb) {
                    if lex_lt(eb, ec) {
                        lemma_lex_lt_trans(ea, eb, ec);
                    } else {
                        lemma_lex_lt_asym(ea, eb);
                        lemma_lex_lt_connected(eb, ec);
                    }
                } else {
                    lemma_lex_lt_connected(ea, eb);
                    if !lex_lt(eb, ec) {
                        lemma_lex_lt_connected(eb, ec);
                        lemma_lex_le_trans(name_key(a), name_key(b), name_key(c));
                    }
                }
            },
        }
    }
}

// ---------------------------------------------------------------------------
// What it means for a listing to be sorted
// ---------------------------------------------------------------------------
pub open spec fn sorted_by(sk: SortBy, s: Seq<FileEntry>) -> bool {
    forall|i: int, j: int| 0 <= i < j < s.len() ==> entry_le(sk, s[i], s[j])
}

/// Directories stand before files in any sorted listing, whatever the key.
pub proof fn lemma_sorted_dirs_first(sk: SortBy, s: Seq<FileEntry>)
    requires
        sorted_by(sk, s),
    ensures
        forall|i: int, j: int| 0 <= i < j < s.len() && s[j].is_dir ==> s[i].is_dir,
{
    assert forall|i: int, j: int| 0 <= i < j < s.len() && s[j].is_dir implies s[i].is_dir by {
        assert(entry_le(sk, s[i], s[j]));
    }
}

// ---------------------------------------------------------------------------
// The sort itself, stated as a function
// ---------------------------------------------------------------------------
/// Stable insertion into an ordered prefix: the element goes after every
/// element it does not strictly precede.
pub open spec fn insert_sorted(sk: SortBy, x: FileEntry, s: Seq<FileEntry>) -> Seq<FileEntry>
    decreases s.len(),
{
    if s.len() == 0 {
        seq![x]
    } else if entry_le(sk, s.last(), x) {
        s.push(x)
    } else {
        insert_sorted(sk, x, s.drop_last()).push(s.last())
    }
}

/// Insertion sort over a listing, processing entries left to right, which
/// keeps the incoming order of entries whose keys tie.
pub open spec fn sort_spec(sk: SortBy, s: Seq<FileEntry>) -> Seq<FileEntry>
    decreases s.len(),
{
    if s.len() == 0 {
        s
    } else {
        insert_sorted(sk, s.last(), sort_spec(sk, s.drop_last()))
    }
}

/// Inserting at the position the scan from the right finds: everything at
/// or after it strictly precedes nothing, everything before it may stay.
pub proof fn lemma_insert_sorted_split(sk: SortBy, x: FileEntry, s: Seq<FileEntry>, p: int)
    requires
        0 <= p <= s.len(),
        forall|j: int| p <= j < s.len() ==> !entry_le(sk, s[j], x),
        p > 0 ==> entry_le(sk, s[p - 1], x),
    ensures
        insert_sorted(sk, x, s) == s.subrange(0, p) + seq![x] + s.subrange(p, s.len() as int),
    decreases s.len(),
{
    if p == s.len() {
        if s.len() == 0 {
            assert(insert_sorted(sk, x, s) =~= s.subrange(0, p) + seq![x] + s.subrange(
                p,
                s.len() as int,
            ));
        } else {
            assert(insert_sorted(sk, x, s) =~= s.subrange(0, p) + seq![x] + s.subrange(
                p,
                s.len() as int,
            ));
        }
    } else {
        lemma_insert_sorted_split(sk, x, s.drop_last(), p);
        assert(insert_sorted(sk, x, s) =~= s.subrange(0, p) + seq![x] + s.subrange(
            p,
            s.len() as int,
        ));
    }
}

/// The shape of an insertion: one longer, holds the new element, and keeps
/// order if the prefix was ordered and the relation is the listing order.
pub proof fn lemma_insert_sorted_props(sk: SortBy, x: FileEntry, s: Seq<FileEntry>)
    requires
        sorted_by(sk, s),
    ensures
        insert_sorted(sk, x, s).len() == s.len() + 1,
        sorted_by(sk, insert_sorted(sk, x, s)),
        insert_sorted(sk, x, s).to_multiset() == s.to_multiset().insert(x),
    decreases s.len(),
{
    broadcast use vstd::seq_lib::group_to_multiset_ensures;

    let r = insert_sorted(sk, x, s);
    if s.len() == 0 {
        assert(r =~= Seq::empty().push(x));
        assert(r.to_multiset() =~= s.to_multiset().insert(x));
    } else if entry_le(sk, s.last(), x) {
        assert forall|i: int, j: int| 0 <= i < j < r.len() implies entry_le(sk, r[i], r[j]) by {
            if j == r.len() - 1 {
                if i < s.len() - 1 {
                    lemma_entry_le_trans(sk, s[i], s.last(), x);
                }
            }
        }
    } else {
        let inner = insert_sorted(sk, x, s.drop_last());
        assert(sorted_by(sk, s.drop_last()));
        lemma_insert_sorted_props(sk, x, s.drop_last());
        lemma_entry_le_total(sk, s.last(), x);
        // Everything in the inner sequence is x or some earlier entry, and
        // either way precedes the last entry of s.
        assert forall|i: int, j: int| 0 <= i < j < r.len() implies entry_le(sk, r[i], r[j]) by {
            if j == r.len() - 1 {
                assert(inner.to_multiset().count(inner[i]) > 0);
                if inner[i] == x {
                    assert(entry_le(sk, x, s.last()));
                } else {
                    assert(s.drop_last().to_multiset().count(inner[i]) > 0);
                    assert(s.drop_last().contains(inner[i]));
                    let k = choose|k: int|
                        0 <= k < s.drop_last().len() && s.drop_last()[k] == inner[i];
                    assert(entry_le(sk, s[k], s.last()));
                }
            }
        }
        assert(r.to_multiset() =~= s.to_multiset().insert(x)) by {
            assert(s.drop_last().push(s.last()) =~= s);
            assert(s.drop_last().push(s.last()).to_multiset() == s.drop_last().to_multiset().insert(
                s.last(),
            ));
        }
    }
}

/// The sort gives an ordered permutation of its input.
pub proof fn lemma_sort_spec_props(sk: SortBy, s: Seq<FileEntry>)
    ensures
        sort_spec(sk, s).len() == s.len(),
        sorted_by(sk, sort_spec(sk, s)),
        sort_spec(sk, s).to_multiset() == s.to_multiset(),
    decreases s.len(),
{
    broadcast use vstd::seq_lib::group_to_multiset_ensures;

    if s.len() > 0 {
        lemma_sort_spec_props(sk, s.drop_last());
        lemma_insert_sorted_props(sk, s.last(), sort_spec(sk, s.drop_last()));
        assert(s.drop_last().push(s.last()) =~= s);
        assert(s.drop_last().push(s.last()).to_multiset() == s.drop_last().to_multiset().insert(
            s.last(),
        ));
    }
}

/// Sorting a listing that is already in order leaves it exactly as it is.
pub proof fn lemma_sort_sorted_id(sk: SortBy, s: Seq<FileEntry>)
    requires
        sorted_by(sk, s),
    ensures
        sort_spec(sk, s) == s,
    decreases s.len(),
{
    if s.len() > 0 {
        assert(sorted_by(sk, s.drop_last()));
        lemma_sort_sorted_id(sk, s.drop_last());
        if s.len() >= 2 {
            assert(entry_le(sk, s[s.len() - 2], s[s.len() - 1]));
        }
        assert(insert_sorted(sk, s.last(), s.drop_last()) =~= s);
    }
}

/// Re-sorting is idempotent: sorting twice gives the order of sorting once.
pub proof fn lemma_sort_idempotent(sk: SortBy, s: Seq<FileEntry>)
    ensures
        sort_spec(sk, sort_spec(sk, s)) == sort_spec(sk, s),
{
    lemma_sort_spec_props(sk, s);
    lemma_sort_sorted_id(sk, sort_spec(sk, s));
}

// ---------------------------------------------------------------------------
// Executable comparison and sort
// ---------------------------------------------------------------------------
pub fn entry_le_exec(sk: SortBy, a: &FileEntry, b: &FileEntry) -> (r: bool)
    ensures
        r == entry_le(sk, *a, *b),
{
    if a.is_dir != b.is_dir {
        return a.is_dir;
    }
    match sk {
        SortBy::Name => {
            let la = lowercase(a.name.as_str());
            let lb = lowercase(b.name.as_str());
            !lex_lt_exec(lb.as_str(), la.as_str())
        },
        SortBy::Size => {
            if a.size != b.size {
                a.size > b.size
            } else {
                let la = lowercase(a.name.as_str());
                let lb = lowercase(b.name.as_str());
                !lex_lt_exec(lb.as_str(), la.as_str())
            }
        },
        SortBy::Date => {
            let gt_ab = match (a.modified, b.modified) {
                (Some(av), Some(bv)) => av > bv,
                (Some(_), None) => true,
                _ => false,
            };
            let gt_ba = match (b.modified, a.modified) {
                (Some(bv), Some(av)) => bv > av,
                (Some(_), None) => true,
                _ => false,
            };
            if gt_ab {
                true
            } else if gt_ba {
                false
            } else {
                let la = lowercase(a.name.as_str());
                let lb = lowercase(b.name.as_str());
                !lex_lt_exec(lb.as_str(), la.as_str())
            }
        },
        SortBy::Extension => {
            let ea = extension_key(a.name.as_str());
            let eb = extension_key(b.name.as_str());
            if lex_lt_exec(ea.as_str(), eb.as_str()) {
                true
            } else if lex_lt_exec(eb.as_str(), ea.as_str()) {
                false
            } else {
                let la = lowercase(a.name.as_str());
                let lb = lowercase(b.name.as_str());
                !lex_lt_exec(lb.as_str(), la.as_str())
            }
        },
    }
}

/// The listing in sorted order: an insertion sort, stable for tied keys.
pub fn sorted_entries(sk: SortBy, v: &Vec<FileEntry>) -> (r: Vec<FileEntry>)
    ensures
        r@ == sort_spec(sk, v@),
{
    let mut out: Vec<FileEntry> = Vec::new();
    let mut idx: usize = 0;
    while idx < v.len()
        invariant
            0 <= idx <= v.len(),
            out@ == sort_spec(sk, v@.subrange(0, idx as int)),
            out.len() == idx,
        decreases v.len() - idx,
    {
        let ghost prefix = v@.subrange(0, idx as int);
        let x = v[idx].clone();
        let mut p: usize = out.len();
        loop
            invariant
                0 <= p <= out.len(),
                out.len() == idx,
                forall|j: int| p <= j < out.len() ==> !entry_le(sk, out@[j], x),
            ensures
                0 <= p <= out.len(),
                forall|j: int| p <= j < out.len() ==> !entry_le(sk, out@[j], x),
                p > 0 ==> entry_le(sk, out@[p as int - 1], x),
            decreases p,
        {
            if p == 0 {
                break ;
            }
            if entry_le_exec(sk, &out[p - 1], &x) {
                break ;
            }
            p = p - 1;
        }
        proof {
            lemma_insert_sorted_split(sk, x, out@, p as int);
        }
        out.insert(p, x);
        proof {
            let sp = sort_spec(sk, prefix);
            assert(out@ =~= sp.subrange(0, p as int) + seq![x] + sp.subrange(
                p as int,
                sp.len() as int,
            ));
            assert(out@ == insert_sorted(sk, x, sp));
            assert(v@.subrange(0, idx + 1).drop_last() =~= prefix);
            assert(v@.subrange(0, idx + 1).last() == v@[idx as int]);
            assert(out@ == sort_spec(sk, v@.subrange(0, idx + 1)));
        }
        idx = idx + 1;
    }
    proof {
        assert(v@.subrange(0, v@.len() as int) =~= v@);
    }
    out
}

} // verus!
