use vstd::prelude::*;

use crate::text::has_substring;
use crate::text::has_substring_exec;
use crate::text::lower_of;
use crate::text::lowercase;

verus! {

/// One hit of a recursive text search: a file, a one-based line number,
/// and the line itself.
pub struct SearchResult {
    pub path: String,
    pub line_number: usize,
    pub line_text: String,
}

impl Clone for SearchResult {
    fn clone(&self) -> (r: Self)
        ensures
            r == *self,
    {
        SearchResult {
            path: self.path.clone(),
            line_number: self.line_number,
            line_text: self.line_text.clone(),
        }
    }
}

/// Case-insensitive containment: the lowered line holds the (already
/// lowered) pattern.
pub open spec fn line_matches(line: Seq<char>, pattern_lower: Seq<char>) -> bool {
    has_substring(lower_of(line), pattern_lower)
}

/// The hits of one file's lines from line index `idx` on, stopping as soon
/// as `room` hits have been taken.
pub open spec fn hits_from(
    path: String,
    lines: Seq<String>,
    pattern_lower: Seq<char>,
    idx: int,
    room: int,
) -> Seq<SearchResult>
    decreases lines.len(),
{
    if lines.len() == 0 || room <= 0 {
        Seq::empty()
    } else if line_matches(lines.first()@, pattern_lower) {
        seq![
            SearchResult {
                path: path,
                line_number: (idx + 1) as usize,
                line_text: lines.first(),
            },
        ] + hits_from(path, lines.drop_first(), pattern_lower, idx + 1, room - 1)
    } else {
        hits_from(path, lines.drop_first(), pattern_lower, idx + 1, room)
    }
}

/// Scan one file's lines for a pattern, case-insensitively, appending a
/// hit per matching line and stopping the moment the cap is reached.
pub fn search_lines(
    path: &String,
    lines: &Vec<String>,
    pattern_lower: &str,
    results: &mut Vec<SearchResult>,
    cap: usize,
)
    ensures
        final(results)@ == old(results)@ + hits_from(
            *path,
            lines@,
            pattern_lower@,
            0,
            cap - old(results)@.len(),
        ),
{
    proof {
        assert(lines@.skip(0) =~= lines@);
    }
    let ghost room0: int = cap - old(results)@.len();
    let mut i: usize = 0;
    loop
        invariant
            0 <= i <= lines@.len(),
            results@.len() >= old(results)@.len(),
            old(results)@ + hits_from(*path, lines@, pattern_lower@, 0, room0) == results@
                + hits_from(
                *path,
                lines@.skip(i as int),
                pattern_lower@,
                i as int,
                cap - results@.len(),
            ),
        ensures
            results@ == old(results)@ + hits_from(*path, lines@, pattern_lower@, 0, room0),
        decreases lines@.len() - i,
    {
        if i == lines.len() {
            proof {
                assert(lines@.skip(i as int) =~= Seq::<String>::empty());
            }
            break ;
        }
        if results.len() >= cap {
            break ;
        }
        proof {
            assert(lines@.skip(i as int).first() == lines@[i as int]);
            assert(lines@.skip(i as int).drop_first() =~= lines@.skip(i + 1));
        }
        let low = lowercase(lines[i].as_str());
        if has_substring_exec(low.as_str(), pattern_lower) {
            results.push(
                SearchResult {
                    path: path.clone(),
                    line_number: i + 1,
                    line_text: lines[i].clone(),
                },
            );
        }
        i = i + 1;
    }
}

} // verus!
