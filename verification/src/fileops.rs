use vstd::prelude::*;
use vstd::string::StrSliceExecFns;
use vstd::string::StringExecFns;

use crate::paths::ext_key_spec;
use crate::paths::extension_key;
use crate::text::lower_of;
use crate::text::lowercase;

verus! {

// ---------------------------------------------------------------------------
// Staged copy or move operations
// ---------------------------------------------------------------------------
#[derive(Clone, Copy, Debug, PartialEq, Eq, Structural)]
pub enum OpKind {
    Copy,
    Move,
}

/// A staged set of sources awaiting a paste.
#[derive(Debug)]
pub struct PendingOp {
    pub kind: OpKind,
    pub sources: Vec<String>,
}

/// A fresh vector holding the same strings.
pub(crate) fn clone_strings(v: &Vec<String>) -> (r: Vec<String>)
    ensures
        r@ == v@,
{
    let mut r: Vec<String> = Vec::new();
    let mut i: usize = 0;
    while i < v.len()
        invariant
            0 <= i <= v.len(),
            r@ =~= v@.subrange(0, i as int),
        decreases v.len() - i,
    {
        r.push(v[i].clone());
        i = i + 1;
    }
    proof {
        assert(v@.subrange(0, v@.len() as int) =~= v@);
    }
    r
}

impl Clone for PendingOp {
    fn clone(&self) -> (r: Self)
        ensures
            r.kind == self.kind,
            r.sources@ == self.sources@,
    {
        PendingOp { kind: self.kind, sources: clone_strings(&self.sources) }
    }
}

// ---------------------------------------------------------------------------
// Permission bits
// ---------------------------------------------------------------------------
pub open spec fn perm_triple(bits: u32) -> Seq<char> {
    seq![
        if bits & 4 != 0 {
            'r'
        } else {
            '-'
        },
        if bits & 2 != 0 {
            'w'
        } else {
            '-'
        },
        if bits & 1 != 0 {
            'x'
        } else {
            '-'
        },
    ]
}

pub open spec fn format_permissions_spec(mode: u32) -> Seq<char> {
    perm_triple((mode >> 6) & 7) + perm_triple((mode >> 3) & 7) + perm_triple(mode & 7)
}

/// A mode written the way a long listing shows it: three rwx triples.
pub fn format_permissions(mode: u32) -> (r: String)
    ensures
        r@ == format_permissions_spec(mode),
{
    let mut s = String::new();
    let owner = (mode >> 6) & 7;
    let group = (mode >> 3) & 7;
    let other = mode & 7;
    append_triple(&mut s, owner);
    append_triple(&mut s, group);
    append_triple(&mut s, other);
    proof {
        assert(s@ =~= format_permissions_spec(mode));
    }
    s
}

fn append_triple(s: &mut String, bits: u32)
    ensures
        final(s)@ == old(s)@ + perm_triple(bits),
{
    if bits & 4 != 0 {
        s.append("r");
    } else {
        s.append("-");
    }
    if bits & 2 != 0 {
        s.append("w");
    } else {
        s.append("-");
    }
    if bits & 1 != 0 {
        s.append("x");
    } else {
        s.append("-");
    }
    proof {
        reveal_strlit("r");
        reveal_strlit("w");
        reveal_strlit("x");
        reveal_strlit("-");
        assert(final(s)@ =~= old(s)@ + perm_triple(bits));
    }
}

// ---------------------------------------------------------------------------
// Octal mode strings
// ---------------------------------------------------------------------------
pub open spec fn octal_val(c: char) -> int {
    if c == '0' {
        0
    } else if c == '1' {
        1
    } else if c == '2' {
        2
    } else if c == '3' {
        3
    } else if c == '4' {
        4
    } else if c == '5' {
        5
    } else if c == '6' {
        6
    } else if c == '7' {
        7
    } else {
        8
    }
}

pub open spec fn valid_octal(s: Seq<char>) -> bool {
    s.len() > 0 && forall|i: int| 0 <= i < s.len() ==> octal_val(s[i]) < 8
}

pub open spec fn octal_value(s: Seq<char>) -> int
    decreases s.len(),
{
    if s.len() == 0 {
        0
    } else {
        octal_value(s.drop_last()) * 8 + octal_val(s.last())
    }
}

proof fn lemma_octal_value_nonneg(s: Seq<char>)
    ensures
        octal_value(s) >= 0,
    decreases s.len(),
{
    if s.len() > 0 {
        lemma_octal_value_nonneg(s.drop_last());
        assert(octal_val(s.last()) >= 0);
    }
}

/// The value never shrinks as more octal digits are read.
proof fn lemma_octal_value_monotone(s: Seq<char>, i: int)
    requires
        0 <= i <= s.len(),
    ensures
        octal_value(s) >= octal_value(s.subrange(0, i)),
    decreases s.len() - i,
{
    if i < s.len() {
        lemma_octal_value_monotone(s, i + 1);
        let p = s.subrange(0, i + 1);
        assert(p.drop_last() =~= s.subrange(0, i));
        lemma_octal_value_nonneg(s.subrange(0, i));
        assert(octal_value(p) == octal_value(s.subrange(0, i)) * 8 + octal_val(s[i]));
    } else {
        assert(s.subrange(0, i) =~= s);
    }
}

pub(crate) fn octal_digit(c: char) -> (r: Option<u32>)
    ensures
        (match r {
            Some(v) => octal_val(c) < 8 && v == octal_val(c),
            None => octal_val(c) == 8,
        }),
{
    if c == '0' {
        Some(0)
    } else if c == '1' {
        Some(1)
    } else if c == '2' {
        Some(2)
    } else if c == '3' {
        Some(3)
    } else if c == '4' {
        Some(4)
    } else if c == '5' {
        Some(5)
    } else if c == '6' {
        Some(6)
    } else if c == '7' {
        Some(7)
    } else {
        None
    }
}

/// An octal mode string such as `755`, accepted up to `7777`.
pub fn parse_octal_mode(s: &str) -> (r: Option<u32>)
    ensures
        r == (if valid_octal(s@) && octal_value(s@) <= 0o7777 {
            Some(octal_value(s@) as u32)
        } else {
            None
        }),
{
    let len = s.unicode_len();
    if len == 0 {
        return None;
    }
    let mut acc: u32 = 0;
    let mut i: usize = 0;
    while i < len
        invariant
            len == s@.len(),
            0 < len,
            0 <= i <= len,
            forall|k: int| 0 <= k < i ==> octal_val(s@[k]) < 8,
            acc == octal_value(s@.subrange(0, i as int)),
            acc <= 0o7777,
        decreases len - i,
    {
        let c = s.get_char(i);
        let v = match octal_digit(c) {
            Some(v) => v,
            None => {
                return None;
            },
        };
        proof {
            assert(s@.subrange(0, i + 1).drop_last() =~= s@.subrange(0, i as int));
            assert(s@.subrange(0, i + 1).last() == s@[i as int]);
        }
        acc = acc * 8 + v;
        i = i + 1;
        if acc > 0o7777 {
            proof {
                lemma_octal_value_monotone(s@, i as int);
            }
            return None;
        }
    }
    proof {
        assert(s@.subrange(0, len as int) =~= s@);
    }
    Some(acc)
}

// ---------------------------------------------------------------------------
// Toggling one permission bit
// ---------------------------------------------------------------------------
pub open spec fn toggle_permission_bit_spec(mode: u32, position: usize) -> u32 {
    if position > 8 {
        mode
    } else {
        mode ^ (1u32 << ((8 - position) as u32))
    }
}

/// Flip one of the nine rwx bits; position 0 is the owner's read bit,
/// position 8 the world's execute bit.
pub fn toggle_permission_bit(mode: u32, position: usize) -> (r: u32)
    ensures
        r == toggle_permission_bit_spec(mode, position),
{
    if position > 8 {
        return mode;
    }
    let bit: u32 = (8 - position) as u32;
    mode ^ (1u32 << bit)
}

// ---------------------------------------------------------------------------
// Archive names
// ---------------------------------------------------------------------------
pub open spec fn suffix_of(s: Seq<char>, suf: Seq<char>) -> bool {
    s.len() >= suf.len() && s.subrange(s.len() - suf.len(), s.len() as int) == suf
}

/// Whether `s` ends in `suf`, character for character.
pub fn has_suffix(s: &str, suf: &str) -> (r: bool)
    ensures
        r == suffix_of(s@, suf@),
{
    let slen = s.unicode_len();
    let flen = suf.unicode_len();
    if flen > slen {
        return false;
    }
    let start = slen - flen;
    let mut j: usize = 0;
    while j < flen
        invariant
            slen == s@.len(),
            flen == suf@.len(),
            flen <= slen,
            start == slen - flen,
            0 <= j <= flen,
            forall|k: int| 0 <= k < j ==> s@[start + k] == suf@[k],
        decreases flen - j,
    {
        if s.get_char(start + j) != suf.get_char(j) {
            proof {
                if suffix_of(s@, suf@) {
                    assert(s@.subrange(s@.len() - suf@.len(), s@.len() as int)[j as int]
                        == suf@[j as int]);
                }
            }
            return false;
        }
        j = j + 1;
    }
    proof {
        assert(s@.subrange(s@.len() - suf@.len(), s@.len() as int) =~= suf@);
    }
    true
}

/// The archive formats extraction understands, told apart by suffix.
#[derive(Clone, Copy, Debug, PartialEq, Eq, Structural)]
pub enum ArchiveKind {
    Zip,
    TarGz,
    Tar,
    Gz,
}

pub open spec fn archive_kind_spec(p: Seq<char>) -> Option<ArchiveKind> {
    let low = lower_of(p);
    if suffix_of(low, (".zip")@) {
        Some(ArchiveKind::Zip)
    } else if suffix_of(low, (".tar.gz")@) || suffix_of(low, (".tgz")@) {
        Some(ArchiveKind::TarGz)
    } else if suffix_of(low, (".tar")@) {
        Some(ArchiveKind::Tar)
    } else if suffix_of(low, (".gz")@) {
        Some(ArchiveKind::Gz)
    } else {
        None
    }
}

/// Which extraction routine a path calls for, decided by its suffix.
pub fn archive_kind(path: &str) -> (r: Option<ArchiveKind>)
    ensures
        r == archive_kind_spec(path@),
{
    let low = lowercase(path);
    if has_suffix(low.as_str(), ".zip") {
        Some(ArchiveKind::Zip)
    } else if has_suffix(low.as_str(), ".tar.gz") || has_suffix(low.as_str(), ".tgz") {
        Some(ArchiveKind::TarGz)
    } else if has_suffix(low.as_str(), ".tar") {
        Some(ArchiveKind::Tar)
    } else if has_suffix(low.as_str(), ".gz") {
        Some(ArchiveKind::Gz)
    } else {
        None
    }
}

pub open spec fn is_archive_spec(p: Seq<char>) -> bool {
    ||| ext_key_spec(p) == ("zip")@
    ||| ext_key_spec(p) == ("gz")@
    ||| ext_key_spec(p) == ("tar")@
    ||| ext_key_spec(p) == ("tgz")@
    ||| suffix_of(lower_of(p), (".tar.gz")@)
}

/// Whether a path names an archive extraction can open.
pub fn is_archive(path: &str) -> (r: bool)
    ensures
        r == is_archive_spec(path@),
{
    let ek = extension_key(path);
    if ek == String::from_str("zip") || ek == String::from_str("gz") || ek == String::from_str(
        "tar",
    ) || ek == String::from_str("tgz") {
        return true;
    }
    let low = lowercase(path);
    has_suffix(low.as_str(), ".tar.gz")
}

} // verus!
