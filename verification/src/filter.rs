use vstd::prelude::*;

use fuzzy_matcher::skim::SkimMatcherV2;
use fuzzy_matcher::FuzzyMatcher;

use crate::entry::FileEntry;

verus! {

/// Whether a name fuzzily matches a pattern.  Stated abstractly: the
/// matcher's verdict is a fixed function of the two strings, and the
/// executable wrapper below produces it.
pub uninterp spec fn fuzzy_matches(name: Seq<char>, pattern: Seq<char>) -> bool;

/// Relies on fuzzy_matcher's SkimMatcherV2, through
/// FuzzyMatcher::fuzzy_match with the default configuration: whether a
/// name matches a pattern depends on the two strings alone.
#[verifier::external_body]
pub(crate) fn fuzzy_match_name(name: &str, pattern: &str) -> (r: bool)
    ensures
        r == fuzzy_matches(name@, pattern@),
{
    SkimMatcherV2::default().fuzzy_match(name, pattern).is_some()
}

/// An empty filter text hides nothing; otherwise the matcher decides.
pub open spec fn matches_filter(name: Seq<char>, filter: Seq<char>) -> bool {
    filter.len() == 0 || fuzzy_matches(name, filter)
}

/// The positions of the entries that stay visible, in listing order.
pub open spec fn filter_spec(entries: Seq<FileEntry>, filter: Seq<char>) -> Seq<usize>
    decreases entries.len(),
{
    if entries.len() == 0 {
        Seq::empty()
    } else {
        let pre = filter_spec(entries.drop_last(), filter);
        if matches_filter(entries.last().name@, filter) {
            pre.push((entries.len() - 1) as usize)
        } else {
            pre
        }
    }
}

/// Whether the position `k` of the listing occurs among the visible indices.
pub open spec fn idx_in(r: Seq<usize>, k: int) -> bool {
    exists|w: int| 0 <= w < r.len() && r[w] as int == k
}

/// The visible indices are a strictly increasing subsequence of the
/// positions of the listing, and hold exactly the matching positions.
pub proof fn lemma_filter_spec_subsequence(entries: Seq<FileEntry>, filter: Seq<char>)
    requires
        entries.len() <= usize::MAX,
    ensures
        forall|i: int, j: int|
            0 <= i < j < filter_spec(entries, filter).len() ==> filter_spec(entries, filter)[i]
                < filter_spec(entries, filter)[j],
        forall|i: int|
            0 <= i < filter_spec(entries, filter).len() ==> (filter_spec(entries, filter)[i] as int)
                < entries.len(),
        forall|k: int|
            0 <= k < entries.len() ==> (idx_in(filter_spec(entries, filter), k)
                <==> matches_filter(entries[k].name@, filter)),
    decreases entries.len(),
{
    let r = filter_spec(entries, filter);
    if entries.len() > 0 {
        lemma_filter_spec_subsequence(entries.drop_last(), filter);
        let pre = filter_spec(entries.drop_last(), filter);
        let n = entries.len() - 1;
        assert forall|k: int| 0 <= k < entries.len() implies (idx_in(r, k) <==> matches_filter(
            entries[k].name@,
            filter,
        )) by {
            if k < n {
                assert(entries.drop_last()[k] == entries[k]);
                if idx_in(pre, k) {
                    let w = choose|w: int| 0 <= w < pre.len() && pre[w] as int == k;
                    assert(r[w] as int == k);
                    assert(idx_in(r, k));
                }
                if idx_in(r, k) {
                    let w = choose|w: int| 0 <= w < r.len() && r[w] as int == k;
                    if w < pre.len() {
                        assert(pre[w] as int == k);
                        assert(idx_in(pre, k));
                    }
                }
            } else {
                if matches_filter(entries[k].name@, filter) {
                    assert(r[r.len() - 1] as int == k);
                    assert(idx_in(r, k));
                }
                if idx_in(r, k) {
                    let w = choose|w: int| 0 <= w < r.len() && r[w] as int == k;
                    if w < pre.len() {
                        assert((pre[w] as int) < n);
                    }
                    assert(matches_filter(entries[k].name@, filter));
                }
            }
        }
    }
}

/// An empty filter text keeps every position, in order: clearing a filter
/// restores the full listing.
pub proof fn lemma_filter_spec_empty(entries: Seq<FileEntry>)
    ensures
        filter_spec(entries, Seq::empty()) =~= Seq::new(entries.len(), |i: int| i as usize),
    decreases entries.len(),
{
    if entries.len() > 0 {
        lemma_filter_spec_empty(entries.drop_last());
    }
}

/// The visible positions of a listing under a filter text.
pub fn filter_indices(entries: &Vec<FileEntry>, filter_text: &str) -> (r: Vec<usize>)
    ensures
        r@ == filter_spec(entries@, filter_text@),
{
    let empty = filter_text.is_empty();
    let mut r: Vec<usize> = Vec::new();
    let mut i: usize = 0;
    while i < entries.len()
        invariant
            0 <= i <= entries.len(),
            empty == (filter_text@.len() == 0),
            r@ == filter_spec(entries@.subrange(0, i as int), filter_text@),
        decreases entries.len() - i,
    {
        let keep = if empty {
            true
        } else {
            fuzzy_match_name(entries[i].name.as_str(), filter_text)
        };
        if keep {
            r.push(i);
        }
        proof {
            assert(entries@.subrange(0, i + 1).drop_last() =~= entries@.subrange(0, i as int));
            assert(entries@.subrange(0, i + 1).last() == entries@[i as int]);
        }
        i = i + 1;
    }
    proof {
        assert(entries@.subrange(0, entries@.len() as int) =~= entries@);
    }
    r
}

} // verus!
