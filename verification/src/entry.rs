use vstd::prelude::*;
use vstd::string::StringExecFns;

use crate::text::dec_seq;
use crate::text::u64_to_string;

verus! {

// ---------------------------------------------------------------------------
// Sort keys
// ---------------------------------------------------------------------------
#[derive(Clone, Copy, Debug, PartialEq, Eq, Structural)]
pub enum SortBy {
    Name,
    Size,
    Date,
    Extension,
}

impl SortBy {
    pub open spec fn label_spec(self) -> Seq<char> {
        match self {
            SortBy::Name => ("Name")@,
            SortBy::Size => ("Size")@,
            SortBy::Date => ("Date")@,
            SortBy::Extension => ("Extension")@,
        }
    }

    /// The key's name as the status bar shows it.
    pub fn label(self) -> (r: &'static str)
        ensures
            r@ == self.label_spec(),
    {
        match self {
            SortBy::Name => "Name",
            SortBy::Size => "Size",
            SortBy::Date => "Date",
            SortBy::Extension => "Extension",
        }
    }
}

// ---------------------------------------------------------------------------
// Version-control status tags
// ---------------------------------------------------------------------------
#[derive(Clone, Copy, Debug, PartialEq, Eq, Structural)]
pub enum GitFileStatus {
    Modified,
    Staged,
    Untracked,
    Conflict,
    Deleted,
    Renamed,
    Ignored,
}

impl GitFileStatus {
    pub open spec fn icon_spec(self) -> Seq<char> {
        match self {
            GitFileStatus::Modified => seq!['M'],
            GitFileStatus::Staged => seq!['S'],
            GitFileStatus::Untracked => seq!['?'],
            GitFileStatus::Conflict => seq!['!'],
            GitFileStatus::Deleted => seq!['D'],
            GitFileStatus::Renamed => seq!['R'],
            GitFileStatus::Ignored => seq!['I'],
        }
    }

    /// One-letter marker shown beside a file name.
    pub fn icon(self) -> (r: &'static str)
        ensures
            r@ == self.icon_spec(),
    {
        let r: &'static str = match self {
            GitFileStatus::Modified => "M",
            GitFileStatus::Staged => "S",
            GitFileStatus::Untracked => "?",
            GitFileStatus::Conflict => "!",
            GitFileStatus::Deleted => "D",
            GitFileStatus::Renamed => "R",
            GitFileStatus::Ignored => "I",
        };
        proof {
            reveal_strlit("M");
            reveal_strlit("S");
            reveal_strlit("?");
            reveal_strlit("!");
            reveal_strlit("D");
            reveal_strlit("R");
            reveal_strlit("I");
            assert(r@ =~= self.icon_spec());
        }
        r
    }
}

/// The status tag for one path, decided from its classified status bits,
/// highest priority first: a conflict wins over anything staged, staged
/// over worktree changes, and plain worktree additions come last.
pub open spec fn classify_status_spec(
    conflicted: bool,
    index_new: bool,
    index_modified: bool,
    index_deleted: bool,
    index_renamed: bool,
    wt_modified: bool,
    wt_renamed: bool,
    wt_deleted: bool,
    wt_new: bool,
) -> Option<GitFileStatus> {
    if conflicted {
        Some(GitFileStatus::Conflict)
    } else if index_new || index_modified || index_deleted || index_renamed {
        Some(GitFileStatus::Staged)
    } else if wt_modified || wt_renamed {
        Some(GitFileStatus::Modified)
    } else if wt_deleted {
        Some(GitFileStatus::Deleted)
    } else if wt_new {
        Some(GitFileStatus::Untracked)
    } else {
        None
    }
}

pub fn classify_status(
    conflicted: bool,
    index_new: bool,
    index_modified: bool,
    index_deleted: bool,
    index_renamed: bool,
    wt_modified: bool,
    wt_renamed: bool,
    wt_deleted: bool,
    wt_new: bool,
) -> (r: Option<GitFileStatus>)
    ensures
        r == classify_status_spec(
            conflicted,
            index_new,
            index_modified,
            index_deleted,
            index_renamed,
            wt_modified,
            wt_renamed,
            wt_deleted,
            wt_new,
        ),
{
    if conflicted {
        Some(GitFileStatus::Conflict)
    } else if index_new || index_modified || index_deleted || index_renamed {
        Some(GitFileStatus::Staged)
    } else if wt_modified || wt_renamed {
        Some(GitFileStatus::Modified)
    } else if wt_deleted {
        Some(GitFileStatus::Deleted)
    } else if wt_new {
        Some(GitFileStatus::Untracked)
    } else {
        None
    }
}

// ---------------------------------------------------------------------------
// Directory entries
// ---------------------------------------------------------------------------
/// One child of a directory, as the lister reports it.  The modification
/// time is a plain timestamp; entries whose metadata had none carry `None`.
pub struct FileEntry {
    pub name: String,
    pub path: String,
    pub is_dir: bool,
    pub is_symlink: bool,
    pub symlink_target: Option<String>,
    pub size: u64,
    pub modified: Option<i64>,
    pub git_status: Option<GitFileStatus>,
}

pub(crate) fn clone_opt_string(o: &Option<String>) -> (r: Option<String>)
    ensures
        r == *o,
{
    match o {
        Some(s) => Some(s.clone()),
        None => None,
    }
}

impl Clone for FileEntry {
    fn clone(&self) -> (r: Self)
        ensures
            r == *self,
    {
        FileEntry {
            name: self.name.clone(),
            path: self.path.clone(),
            is_dir: self.is_dir,
            is_symlink: self.is_symlink,
            symlink_target: clone_opt_string(&self.symlink_target),
            size: self.size,
            modified: self.modified,
            git_status: self.git_status,
        }
    }
}

/// How an entry is written in a listing pane: directories end in a slash,
/// symlinks show their target.
pub open spec fn display_name_spec(e: FileEntry) -> Seq<char> {
    let base = if e.is_dir {
        e.name@ + ("/")@
    } else {
        e.name@
    };
    if e.is_symlink && e.symlink_target is Some {
        base + (" → ")@ + e.symlink_target->0@
    } else {
        base
    }
}

pub fn entry_display_name(entry: &FileEntry) -> (r: String)
    ensures
        r@ == display_name_spec(*entry),
{
    let mut name = entry.name.clone();
    if entry.is_dir {
        name.append("/");
    }
    if entry.is_symlink {
        match &entry.symlink_target {
            Some(t) => {
                name.append(" → ");
                name.append(t.as_str());
            },
            None => {},
        }
    }
    name
}

// ---------------------------------------------------------------------------
// Sizes for people
// ---------------------------------------------------------------------------
pub open spec fn tenths_render(t: int, unit: Seq<char>) -> Seq<char> {
    dec_seq(t / 10) + seq!['.'] + dec_seq(t % 10) + seq![' '] + unit
}

/// A byte count with one decimal place and a unit, stepping through
/// kilobytes and upward in powers of 1024, rounding to the nearest tenth.
pub open spec fn human_size_spec(b: u64) -> Seq<char> {
    if b < 1024 {
        tenths_render(b * 10, ("B")@)
    } else if b < 1048576 {
        tenths_render((b * 10 + 512) / 1024, ("KB")@)
    } else if b < 1073741824 {
        tenths_render((b * 10 + 524288) / 1048576, ("MB")@)
    } else if b < 1099511627776 {
        tenths_render((b * 10 + 536870912) / 1073741824, ("GB")@)
    } else if b < 1152921504606846976 {
        tenths_render((b * 10 + 549755813888) / 1099511627776, ("TB")@)
    } else {
        tenths_render((b * 10 + 562949953421312) / 1125899906842624, ("PB")@)
    }
}

pub fn human_size(bytes: u64) -> (r: String)
    ensures
        r@ == human_size_spec(bytes),
{
    let b: u128 = bytes as u128;
    let t: u128;
    let unit: &'static str;
    if bytes < 1024 {
        t = b * 10;
        unit = "B";
    } else if bytes < 1048576 {
        t = (b * 10 + 512) / 1024;
        unit = "KB";
    } else if bytes < 1073741824 {
        t = (b * 10 + 524288) / 1048576;
        unit = "MB";
    } else if bytes < 1099511627776 {
        t = (b * 10 + 536870912) / 1073741824;
        unit = "GB";
    } else if bytes < 1152921504606846976 {
        t = (b * 10 + 549755813888) / 1099511627776;
        unit = "TB";
    } else {
        t = (b * 10 + 562949953421312) / 1125899906842624;
        unit = "PB";
    }
    let whole: u64 = (t / 10) as u64;
    let frac: u64 = (t % 10) as u64;
    let mut s = u64_to_string(whole);
    s.append(".");
    let fs = u64_to_string(frac);
    s.append(fs.as_str());
    s.append(" ");
    s.append(unit);
    proof {
        reveal_strlit(".");
        reveal_strlit(" ");
        assert(("." )@ =~= seq!['.']) by {
            reveal_strlit(".");
        }
        assert((" ")@ =~= seq![' ']) by {
            reveal_strlit(" ");
        }
        assert(s@ =~= human_size_spec(bytes));
    }
    s
}

} // verus!
