use vstd::prelude::*;
use vstd::string::StringExecFns;

use crate::paths::file_name_of;
use crate::paths::file_name_spec;

verus! {

// ---------------------------------------------------------------------------
// Reversible records of completed operations
// ---------------------------------------------------------------------------
/// A completed file operation, recorded so that it can be undone.
pub enum UndoAction {
    /// A file was copied to `dest`: undoing deletes the copy.
    Copy { dest: String },
    /// A file was moved from `src` to `dest`: undoing moves it back.
    Move { src: String, dest: String },
    /// A file was renamed within its directory: undoing renames it back.
    Rename { old_path: String, new_path: String },
    /// A file was created: undoing deletes it.
    CreateFile { path: String },
    /// A directory was created: undoing removes it.
    CreateDir { path: String },
}

impl Clone for UndoAction {
    fn clone(&self) -> (r: Self)
        ensures
            r == *self,
    {
        match self {
            UndoAction::Copy { dest } => UndoAction::Copy { dest: dest.clone() },
            UndoAction::Move { src, dest } => UndoAction::Move {
                src: src.clone(),
                dest: dest.clone(),
            },
            UndoAction::Rename { old_path, new_path } => UndoAction::Rename {
                old_path: old_path.clone(),
                new_path: new_path.clone(),
            },
            UndoAction::CreateFile { path } => UndoAction::CreateFile { path: path.clone() },
            UndoAction::CreateDir { path } => UndoAction::CreateDir { path: path.clone() },
        }
    }
}

impl UndoAction {
    pub open spec fn description_spec(self) -> Seq<char> {
        match self {
            UndoAction::Copy { dest } => ("Copy → ")@ + dest@,
            UndoAction::Move { src, dest } => src@ + (" → ")@ + dest@,
            UndoAction::Rename { old_path, new_path } => ("Rename ")@ + file_name_spec(old_path@)
                + (" → ")@ + file_name_spec(new_path@),
            UndoAction::CreateFile { path } => ("Create ")@ + path@,
            UndoAction::CreateDir { path } => ("Create dir ")@ + path@,
        }
    }

    /// A short line saying what was done, for the status bar.
    pub fn description(&self) -> (r: String)
        ensures
            r@ == self.description_spec(),
    {
        match self {
            UndoAction::Copy { dest } => {
                let mut s = String::new();
                s.append("Copy → ");
                s.append(dest.as_str());
                proof {
                    assert(s@ =~= self.description_spec());
                }
                s
            },
            UndoAction::Move { src, dest } => {
                let mut s = String::new();
                s.append(src.as_str());
                s.append(" → ");
                s.append(dest.as_str());
                proof {
                    assert(s@ =~= self.description_spec());
                }
                s
            },
            UndoAction::Rename { old_path, new_path } => {
                let old_name = file_name_of(old_path.as_str());
                let new_name = file_name_of(new_path.as_str());
                let mut s = String::new();
                s.append("Rename ");
                s.append(old_name.as_str());
                s.append(" → ");
                s.append(new_name.as_str());
                proof {
                    assert(s@ =~= self.description_spec());
                }
                s
            },
            UndoAction::CreateFile { path } => {
                let mut s = String::new();
                s.append("Create ");
                s.append(path.as_str());
                proof {
                    assert(s@ =~= self.description_spec());
                }
                s
            },
            UndoAction::CreateDir { path } => {
                let mut s = String::new();
                s.append("Create dir ");
                s.append(path.as_str());
                proof {
                    assert(s@ =~= self.description_spec());
                }
                s
            },
        }
    }

    /// The record that reverses this one: what the redo log keeps after an
    /// undo, and the undo log after a redo.
    pub open spec fn inverse_spec(self) -> UndoAction {
        match self {
            UndoAction::Copy { dest } => UndoAction::CreateFile { path: dest },
            UndoAction::Move { src, dest } => UndoAction::Move { src: dest, dest: src },
            UndoAction::Rename { old_path, new_path } => UndoAction::Rename {
                old_path: new_path,
                new_path: old_path,
            },
            UndoAction::CreateFile { path } => UndoAction::CreateFile { path },
            UndoAction::CreateDir { path } => UndoAction::CreateDir { path },
        }
    }

    pub fn inverse(&self) -> (r: UndoAction)
        ensures
            r == self.inverse_spec(),
    {
        match self {
            UndoAction::Copy { dest } => UndoAction::CreateFile { path: dest.clone() },
            UndoAction::Move { src, dest } => UndoAction::Move {
                src: dest.clone(),
                dest: src.clone(),
            },
            UndoAction::Rename { old_path, new_path } => UndoAction::Rename {
                old_path: new_path.clone(),
                new_path: old_path.clone(),
            },
            UndoAction::CreateFile { path } => UndoAction::CreateFile { path: path.clone() },
            UndoAction::CreateDir { path } => UndoAction::CreateDir { path: path.clone() },
        }
    }
}

// ---------------------------------------------------------------------------
// Building records
// ---------------------------------------------------------------------------
pub fn record_copy(dest: &str) -> (r: UndoAction)
    ensures
        (match r {
            UndoAction::Copy { dest: d } => d@ == dest@,
            _ => false,
        }),
{
    UndoAction::Copy { dest: String::from_str(dest) }
}

pub fn record_move(src: &str, dest: &str) -> (r: UndoAction)
    ensures
        (match r {
            UndoAction::Move { src: s, dest: d } => s@ == src@ && d@ == dest@,
            _ => false,
        }),
{
    UndoAction::Move { src: String::from_str(src), dest: String::from_str(dest) }
}

pub fn record_rename(old_path: &str, new_path: &str) -> (r: UndoAction)
    ensures
        (match r {
            UndoAction::Rename { old_path: o, new_path: n } => o@ == old_path@ && n@ == new_path@,
            _ => false,
        }),
{
    UndoAction::Rename {
        old_path: String::from_str(old_path),
        new_path: String::from_str(new_path),
    }
}

pub fn record_create_file(path: &str) -> (r: UndoAction)
    ensures
        (match r {
            UndoAction::CreateFile { path: p } => p@ == path@,
            _ => false,
        }),
{
    UndoAction::CreateFile { path: String::from_str(path) }
}

pub fn record_create_dir(path: &str) -> (r: UndoAction)
    ensures
        (match r {
            UndoAction::CreateDir { path: p } => p@ == path@,
            _ => false,
        }),
{
    UndoAction::CreateDir { path: String::from_str(path) }
}

// ---------------------------------------------------------------------------
// The two bounded stacks
// ---------------------------------------------------------------------------
/// Linear-history undo: a stack of completed actions and a stack of undone
/// ones, both capped; recording anything new clears the redo side.
pub struct UndoStack {
    pub undo: Vec<UndoAction>,
    pub redo: Vec<UndoAction>,
    pub max_size: usize,
}

impl UndoStack {
    pub fn new() -> (s: Self)
        ensures
            s.undo@.len() == 0,
            s.redo@.len() == 0,
            s.max_size == 100,
    {
        UndoStack { undo: Vec::new(), redo: Vec::new(), max_size: 100 }
    }

    /// Record a completed action: the redo stack is cleared, and past the
    /// cap the oldest record is evicted.
    pub fn push(&mut self, action: UndoAction)
        ensures
            final(self).redo@.len() == 0,
            final(self).max_size == old(self).max_size,
            final(self).undo@ == if old(self).undo@.len() + 1 > old(self).max_size {
                old(self).undo@.push(action).drop_first()
            } else {
                old(self).undo@.push(action)
            },
    {
        self.undo.push(action);
        self.redo.clear();
        if self.undo.len() > self.max_size {
            self.undo.remove(0);
            proof {
                assert(self.undo@ =~= old(self).undo@.push(action).drop_first());
            }
        }
    }

    /// What an undo would reverse: the most recent record, if any.
    pub fn undo_target(&self) -> (r: Option<UndoAction>)
        ensures
            (match r {
                Some(a) => self.undo@.len() > 0 && a == self.undo@.last(),
                None => self.undo@.len() == 0,
            }),
    {
        if self.undo.len() == 0 {
            None
        } else {
            Some(self.undo[self.undo.len() - 1].clone())
        }
    }

    /// What a redo would replay: the most recently undone record, if any.
    pub fn redo_target(&self) -> (r: Option<UndoAction>)
        ensures
            (match r {
                Some(a) => self.redo@.len() > 0 && a == self.redo@.last(),
                None => self.redo@.len() == 0,
            }),
    {
        if self.redo.len() == 0 {
            None
        } else {
            Some(self.redo[self.redo.len() - 1].clone())
        }
    }

    /// Book the reversal of the most recent record, once its effect has
    /// been carried out; with nothing to undo, the stacks stay as they are.
    pub fn undo(&mut self) -> (r: Result<String, String>)
        ensures
            (match r {
                Ok(msg) => {
                    &&& old(self).undo@.len() > 0
                    &&& final(self).undo@ == old(self).undo@.drop_last()
                    &&& final(self).redo@ == old(self).redo@.push(
                        old(self).undo@.last().inverse_spec(),
                    )
                    &&& final(self).max_size == old(self).max_size
                    &&& msg@ == ("Undo: ")@ + old(self).undo@.last().description_spec()
                },
                Err(msg) => {
                    &&& old(self).undo@.len() == 0
                    &&& *final(self) == *old(self)
                    &&& msg@ == ("Nothing to undo")@
                },
            }),
    {
        if self.undo.len() == 0 {
            return Err(String::from_str("Nothing to undo"));
        }
        let action = self.undo[self.undo.len() - 1].clone();
        let new_len = self.undo.len() - 1;
        self.undo.truncate(new_len);
        let desc = action.description();
        let reverse = action.inverse();
        self.redo.push(reverse);
        let mut msg = String::from_str("Undo: ");
        msg.append(desc.as_str());
        proof {
            assert(self.undo@ =~= old(self).undo@.drop_last());
        }
        Ok(msg)
    }

    /// Book the replay of the most recently undone record, once its effect
    /// has been carried out; with nothing to redo, the stacks stay as they
    /// are.
    pub fn redo(&mut self) -> (r: Result<String, String>)
        ensures
            (match r {
                Ok(msg) => {
                    &&& old(self).redo@.len() > 0
                    &&& final(self).redo@ == old(self).redo@.drop_last()
                    &&& final(self).undo@ == old(self).undo@.push(
                        old(self).redo@.last().inverse_spec(),
                    )
                    &&& final(self).max_size == old(self).max_size
                    &&& msg@ == ("Redo: ")@ + old(self).redo@.last().description_spec()
                },
                Err(msg) => {
                    &&& old(self).redo@.len() == 0
                    &&& *final(self) == *old(self)
                    &&& msg@ == ("Nothing to redo")@
                },
            }),
    {
        if self.redo.len() == 0 {
            return Err(String::from_str("Nothing to redo"));
        }
        let action = self.redo[self.redo.len() - 1].clone();
        let new_len = self.redo.len() - 1;
        self.redo.truncate(new_len);
        let desc = action.description();
        let reverse = action.inverse();
        self.undo.push(reverse);
        let mut msg = String::from_str("Redo: ");
        msg.append(desc.as_str());
        proof {
            assert(self.redo@ =~= old(self).redo@.drop_last());
        }
        Ok(msg)
    }

    pub fn can_undo(&self) -> (r: bool)
        ensures
            r == (self.undo@.len() > 0),
    {
        self.undo.len() > 0
    }

    pub fn can_redo(&self) -> (r: bool)
        ensures
            r == (self.redo@.len() > 0),
    {
        self.redo.len() > 0
    }

    pub fn undo_count(&self) -> (r: usize)
        ensures
            r == self.undo@.len(),
    {
        self.undo.len()
    }

    pub fn redo_count(&self) -> (r: usize)
        ensures
            r == self.redo@.len(),
    {
        self.redo.len()
    }

    pub fn last_undo_desc(&self) -> (r: Option<String>)
        ensures
            (match r {
                Some(d) => self.undo@.len() > 0 && d@ == self.undo@.last().description_spec(),
                None => self.undo@.len() == 0,
            }),
    {
        if self.undo.len() == 0 {
            None
        } else {
            Some(self.undo[self.undo.len() - 1].description())
        }
    }
}

// ---------------------------------------------------------------------------
// What undoing does to the tree of files
// ---------------------------------------------------------------------------
/// A model of the part of the filesystem these records touch: each present
/// path maps to an abstract file identity.  `undo_eff` is the change made
/// when a record is undone — deleting a recorded copy or creation, moving
/// or renaming back.
pub open spec fn undo_eff(fs: Map<Seq<char>, nat>, a: UndoAction) -> Map<Seq<char>, nat> {
    match a {
        UndoAction::Copy { dest } => fs.remove(dest@),
        UndoAction::Move { src, dest } => fs.remove(dest@).insert(src@, fs[dest@]),
        UndoAction::Rename { old_path, new_path } => fs.remove(new_path@).insert(
            old_path@,
            fs[new_path@],
        ),
        UndoAction::CreateFile { path } => fs.remove(path@),
        UndoAction::CreateDir { path } => fs.remove(path@),
    }
}

/// Undo then redo is a round trip for moves and renames: undoing applies
/// the record's reversal, redoing applies the reversal of the recorded
/// inverse, and the tree ends exactly where the forward operation had left
/// it.  (A copy or a creation is not covered: undoing one deletes the
/// file, and its recorded inverse deletes again rather than restoring.)
pub proof fn lemma_undo_redo_round_trip(fs: Map<Seq<char>, nat>, a: UndoAction)
    requires
        (match a {
            UndoAction::Move { src, dest } => fs.dom().contains(dest@) && !fs.dom().contains(src@)
                && src@ != dest@,
            UndoAction::Rename { old_path, new_path } => fs.dom().contains(new_path@)
                && !fs.dom().contains(old_path@) && old_path@ != new_path@,
            _ => false,
        }),
    ensures
        undo_eff(undo_eff(fs, a), a.inverse_spec()) == fs,
{
    match a {
        UndoAction::Move { src, dest } => {
            assert(undo_eff(undo_eff(fs, a), a.inverse_spec()) =~= fs);
        },
        UndoAction::Rename { old_path, new_path } => {
            assert(undo_eff(undo_eff(fs, a), a.inverse_spec()) =~= fs);
        },
        _ => {},
    }
}

} // verus!
