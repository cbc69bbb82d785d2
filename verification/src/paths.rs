use vstd::prelude::*;
use vstd::string::StrSliceExecFns;
use vstd::string::StringExecFns;

use crate::text::after_last;
use crate::text::has_char;
use crate::text::lemma_after_last_absent;
use crate::text::lemma_after_last_at;
use crate::text::lower_of;
use crate::text::lowercase;
use crate::text::rfind_char;

verus! {

// ---------------------------------------------------------------------------
// File names
// ---------------------------------------------------------------------------
/// The component after the last separator; empty when the path ends in one.
pub open spec fn file_name_spec(p: Seq<char>) -> Seq<char> {
    after_last(p, '/')
}

pub fn file_name_of(path: &str) -> (r: String)
    ensures
        r@ == file_name_spec(path@),
{
    let len = path.unicode_len();
    match rfind_char(path, '/') {
        Some(i) => {
            proof {
                lemma_after_last_at(path@, '/', i as int);
            }
            String::from_str(path.substring_char(i + 1, len))
        },
        None => {
            proof {
                lemma_after_last_absent(path@, '/');
            }
            String::from_str(path)
        },
    }
}

// ---------------------------------------------------------------------------
// Parent directories
// ---------------------------------------------------------------------------
/// The directory above a path: everything before the last separator, the
/// root staying `/`, and a path without a separator having no parent.
pub open spec fn parent_spec(p: Seq<char>) -> Option<Seq<char>> {
    let name = after_last(p, '/');
    if p.len() == 0 || name.len() == p.len() {
        None
    } else if p.len() - name.len() == 1 {
        if p.len() == 1 {
            None
        } else {
            Some(seq!['/'])
        }
    } else {
        Some(p.subrange(0, p.len() - name.len() - 1))
    }
}

pub fn parent_of(path: &str) -> (r: Option<String>)
    ensures
        match r {
            Some(s) => parent_spec(path@) == Some(s@),
            None => parent_spec(path@) is None,
        },
{
    let len = path.unicode_len();
    match rfind_char(path, '/') {
        None => {
            proof {
                lemma_after_last_absent(path@, '/');
            }
            None
        },
        Some(i) => {
            proof {
                lemma_after_last_at(path@, '/', i as int);
            }
            if i == 0 {
                if len == 1 {
                    None
                } else {
                    let r = String::from_str("/");
                    proof {
                        reveal_strlit("/");
                        assert(r@ =~= seq!['/']);
                    }
                    Some(r)
                }
            } else {
                Some(String::from_str(path.substring_char(0, i)))
            }
        },
    }
}

// ---------------------------------------------------------------------------
// Joining
// ---------------------------------------------------------------------------
pub open spec fn join_spec(dir: Seq<char>, name: Seq<char>) -> Seq<char> {
    if dir.len() > 0 && dir.last() == '/' {
        dir + name
    } else {
        dir + seq!['/'] + name
    }
}

/// A child's path below a directory.
pub fn join_path(dir: &str, name: &str) -> (r: String)
    ensures
        r@ == join_spec(dir@, name@),
{
    let len = dir.unicode_len();
    let mut s = String::from_str(dir);
    if len == 0 || dir.get_char(len - 1) != '/' {
        s.append("/");
        proof {
            reveal_strlit("/");
            assert(s@ =~= dir@ + seq!['/']);
        }
    }
    s.append(name);
    s
}

// ---------------------------------------------------------------------------
// Extensions
// ---------------------------------------------------------------------------
/// The lowercased extension used as a sort key: the characters after the
/// last dot, provided that dot is not the first character; empty otherwise.
pub open spec fn ext_key_spec(name: Seq<char>) -> Seq<char> {
    if has_char(name, '.') && name.len() - after_last(name, '.').len() - 1 >= 1 {
        lower_of(after_last(name, '.'))
    } else {
        Seq::empty()
    }
}

pub fn extension_key(name: &str) -> (r: String)
    ensures
        r@ == ext_key_spec(name@),
{
    let len = name.unicode_len();
    match rfind_char(name, '.') {
        None => {
            assert(!has_char(name@, '.'));
            String::new()
        },
        Some(i) => {
            proof {
                lemma_after_last_at(name@, '.', i as int);
                assert(has_char(name@, '.'));
            }
            if i == 0 {
                String::new()
            } else {
                lowercase(name.substring_char(i + 1, len))
            }
        },
    }
}

} // verus!
