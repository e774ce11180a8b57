//! Mathematical model of the engine and of the filesystem it drives.
//!
//! `StateModel` is the abstract value of a `Backend`: the root path, the
//! destination folders, the file listing with the cursor, and the two history
//! stacks.  A filesystem is modelled as a set of `Loc` values (directory and
//! file name); a rename removes one location and inserts another.  The
//! executable engine promises, operation by operation, that its new state is
//! the one these spec functions compute.

use vstd::prelude::*;

verus! {

/// One executed move: file `name` left the root directory for the destination
/// folder `folder`; `index` is the listing position the entry held before the
/// move removed it.
pub ghost struct Rec {
    pub name: Seq<char>,
    pub folder: Seq<char>,
    pub index: int,
}

/// A file location: a directory path and a file name within it.
pub ghost struct Loc {
    pub dir: Seq<char>,
    pub name: Seq<char>,
}

/// Abstract state of the engine.
#[verifier::ext_equal]
pub ghost struct StateModel {
    /// Path of the loaded root directory.
    pub root: Seq<char>,
    /// Destination folder paths, in their presentation order.
    pub folders: Seq<Seq<char>>,
    /// File names still awaiting a decision, in traversal order.
    pub listing: Seq<Seq<char>>,
    /// Index of the current file; `listing.len()` means exhausted.
    pub cursor: int,
    /// Moves that are in effect, chronological (last = most recent).
    pub applied: Seq<Rec>,
    /// Moves taken back and available for redo (last = next redo).
    pub undone: Seq<Rec>,
}

/// View of a sequence of owned strings as a sequence of character sequences.
pub open spec fn names(s: Seq<String>) -> Seq<Seq<char>> {
    s.map_values(|x: String| x@)
}

pub proof fn lemma_names_remove(s: Seq<String>, i: int)
    requires
        0 <= i < s.len(),
    ensures
        names(s.remove(i)) =~= names(s).remove(i),
{
}

pub proof fn lemma_names_insert(s: Seq<String>, i: int, x: String)
    requires
        0 <= i <= s.len(),
    ensures
        names(s.insert(i, x)) =~= names(s).insert(i, x@),
{
}

pub proof fn lemma_names_take(s: Seq<String>, i: int)
    requires
        0 <= i <= s.len(),
    ensures
        names(s.take(i)) =~= names(s).take(i),
{
}

impl StateModel {
    /// Structural invariant every reachable engine state satisfies.
    pub open spec fn wf(self) -> bool {
        &&& 0 <= self.cursor <= self.listing.len()
        &&& self.undone.len() <= self.listing.len()
    }

    /// The state right after a load: fresh listing, cursor at the start,
    /// empty history.
    pub open spec fn loaded(
        root: Seq<char>,
        folders: Seq<Seq<char>>,
        files: Seq<Seq<char>>,
    ) -> StateModel {
        StateModel {
            root,
            folders,
            listing: files,
            cursor: 0,
            applied: Seq::empty(),
            undone: Seq::empty(),
        }
    }

    /// There is a file under the cursor.
    pub open spec fn has_current(self) -> bool {
        0 <= self.cursor < self.listing.len()
    }

    /// Name of the file under the cursor.
    pub open spec fn current_name(self) -> Seq<char> {
        self.listing[self.cursor]
    }

    /// Whether `skip` succeeds: the cursor is strictly before the last entry.
    pub open spec fn can_skip(self) -> bool {
        self.cursor + 1 < self.listing.len()
    }

    /// State after a successful `skip`.
    pub open spec fn after_skip(self) -> StateModel {
        StateModel { cursor: self.cursor + 1, ..self }
    }

    /// The record a move of the current file into `folder` would create.
    pub open spec fn planned_record(self, folder: Seq<char>) -> Rec {
        Rec { name: self.current_name(), folder, index: self.cursor }
    }

    /// State after a successful move of the current file into `folder`: the
    /// entry leaves the listing, the record is appended to the applied
    /// history, and the redo stack is discarded.
    pub open spec fn after_move(self, folder: Seq<char>) -> StateModel {
        StateModel {
            listing: self.listing.remove(self.cursor),
            applied: self.applied.push(self.planned_record(folder)),
            undone: Seq::empty(),
            ..self
        }
    }

    /// The record the next `undo` takes back.
    pub open spec fn undo_target(self) -> Rec {
        self.applied.last()
    }

    /// Where `undo` re-inserts the restored entry: its recorded position
    /// when that is still within the listing, else the end of the listing.
    pub open spec fn restore_pos(self) -> int {
        let rec = self.undo_target();
        if 0 <= rec.index <= self.listing.len() {
            rec.index
        } else {
            self.listing.len() as int
        }
    }

    /// State after a successful `undo`: the most recent record is popped,
    /// the entry returns to the listing, the cursor points at it, and the
    /// record moves to the redo stack.
    pub open spec fn after_undo(self) -> StateModel {
        let rec = self.undo_target();
        let pos = self.restore_pos();
        StateModel {
            listing: self.listing.insert(pos, rec.name),
            cursor: pos,
            applied: self.applied.drop_last(),
            undone: self.undone.push(rec),
            ..self
        }
    }

    /// State after an `undo` whose reverse rename failed: the record is
    /// popped and dropped — the forward move can no longer be trusted to
    /// exist at its recorded destination — and everything else stays.
    pub open spec fn after_failed_undo(self) -> StateModel {
        StateModel { applied: self.applied.drop_last(), ..self }
    }

    /// The record the next `redo` re-applies.
    pub open spec fn redo_target(self) -> Rec {
        self.undone.last()
    }

    /// Where `redo` removes the restored entry from the listing: its
    /// recorded position when still valid, else the last entry.
    pub open spec fn remove_pos(self) -> int {
        let rec = self.redo_target();
        if 0 <= rec.index < self.listing.len() {
            rec.index
        } else {
            self.listing.len() - 1
        }
    }

    /// State after a successful `redo`: the most recent undone record is
    /// re-applied, its entry leaves the listing again, and the cursor is
    /// clamped to the shrunken listing.
    pub open spec fn after_redo(self) -> StateModel {
        let pos = self.remove_pos();
        let shrunk = self.listing.remove(pos);
        StateModel {
            listing: shrunk,
            cursor: if self.cursor <= shrunk.len() {
                self.cursor
            } else {
                shrunk.len() as int
            },
            applied: self.applied.push(self.redo_target()),
            undone: self.undone.drop_last(),
            ..self
        }
    }
}

/// Source location of a recorded move: the file as it sat in the root.
pub open spec fn rec_source(root: Seq<char>, rec: Rec) -> Loc {
    Loc { dir: root, name: rec.name }
}

/// Destination location of a recorded move: the file inside its folder.
pub open spec fn rec_dest(rec: Rec) -> Loc {
    Loc { dir: rec.folder, name: rec.name }
}

/// Effect of a rename on a filesystem: `from` disappears, `to` appears.
pub open spec fn rename_fs(fs: Set<Loc>, from: Loc, to: Loc) -> Set<Loc> {
    fs.remove(from).insert(to)
}

/// The filesystem backs the listing: every listed file exists in the root.
pub open spec fn fs_coherent(s: StateModel, fs: Set<Loc>) -> bool {
    forall|i: int|
        0 <= i < s.listing.len() ==> fs.contains(Loc { dir: s.root, name: s.listing[i] })
}

/// Whether a move of the current file into `folder` goes through: there is a
/// current file and nothing sits at the destination.
pub open spec fn move_allowed(s: StateModel, fs: Set<Loc>, folder: Seq<char>) -> bool {
    &&& s.has_current()
    &&& !fs.contains(rec_dest(s.planned_record(folder)))
}

/// Combined effect of a successful move on the engine state and the
/// filesystem.
pub open spec fn move_step(s: StateModel, fs: Set<Loc>, folder: Seq<char>) -> (StateModel, Set<
    Loc,
>) {
    let rec = s.planned_record(folder);
    (s.after_move(folder), rename_fs(fs, rec_source(s.root, rec), rec_dest(rec)))
}

/// Whether an undo goes through: there is a move to take back.
pub open spec fn undo_allowed(s: StateModel) -> bool {
    s.applied.len() > 0
}

/// Combined effect of a successful undo: the recorded rename is reversed.
pub open spec fn undo_step(s: StateModel, fs: Set<Loc>) -> (StateModel, Set<Loc>) {
    let rec = s.undo_target();
    (s.after_undo(), rename_fs(fs, rec_dest(rec), rec_source(s.root, rec)))
}

/// Whether a redo goes through: there is an undone move and its destination
/// is free again.
pub open spec fn redo_allowed(s: StateModel, fs: Set<Loc>) -> bool {
    &&& s.undone.len() > 0
    &&& !fs.contains(rec_dest(s.redo_target()))
}

/// Combined effect of a successful redo: the recorded rename is re-applied.
pub open spec fn redo_step(s: StateModel, fs: Set<Loc>) -> (StateModel, Set<Loc>) {
    let rec = s.redo_target();
    (s.after_redo(), rename_fs(fs, rec_source(s.root, rec), rec_dest(rec)))
}

} // verus!
