//! The navigation and move-history engine.
//!
//! A `Backend` owns the listing, the cursor, the folder list and the two
//! history stacks.  It never touches the filesystem itself: operations that
//! need a physical rename are split into a `*_plan` step, which names the
//! rename the caller must attempt, and a `*_commit` step, which takes the
//! rename's outcome and updates the in-memory state — or leaves it untouched
//! when the rename did not happen.  Memory state therefore always reflects
//! the last rename that actually succeeded.

use vstd::prelude::*;

use crate::model::{lemma_names_insert, lemma_names_remove, names, Rec, StateModel};
use crate::order::{sort_names, sorted_names};

verus! {

/// Filesystem-origin failure kinds, surfaced verbatim to the caller.
#[derive(Clone, Copy, Debug, PartialEq, Eq, Structural)]
pub enum IoErrorKind {
    NotFound,
    PermissionDenied,
    CrossDevice,
    Other,
}

/// Everything an engine operation can fail with.
#[derive(Clone, Copy, Debug, PartialEq, Eq, Structural)]
pub enum BackendError {
    /// The underlying rename or directory scan failed.
    Io(IoErrorKind),
    /// `skip` was called with the cursor at or past the last entry.
    EndOfListing,
    /// A move was requested while no file is current.
    NoCurrentFile,
    /// The destination already holds a file of the same name.
    DestinationConflict,
    /// `undo` was called with an empty applied history.
    NothingToUndo,
    /// `redo` was called with an empty redo stack.
    NothingToRedo,
}

/// What became of a forward rename the caller attempted.
#[derive(Clone, Copy, Debug, PartialEq, Eq, Structural)]
pub enum RenameOutcome {
    /// The file was renamed from source to destination.
    Done,
    /// A file already sat at the destination; nothing was renamed.
    DestinationExists,
    /// The rename itself failed; nothing changed on disk.
    Failed(IoErrorKind),
}

/// What became of a reverse rename (an undo) the caller attempted.
#[derive(Clone, Copy, Debug, PartialEq, Eq, Structural)]
pub enum ReverseOutcome {
    /// The file was renamed back from destination to source.
    Done,
    /// The reverse rename failed; nothing changed on disk.
    Failed(IoErrorKind),
}

/// One executed move: file `name` went from the root into `folder`; `index`
/// is the listing position the entry held before the move.
#[derive(Clone, Debug, PartialEq, Eq)]
pub struct MoveRecord {
    pub name: String,
    pub folder: String,
    pub index: usize,
}

impl View for MoveRecord {
    type V = Rec;

    open spec fn view(&self) -> Rec {
        Rec { name: self.name@, folder: self.folder@, index: self.index as int }
    }
}

/// View of a sequence of records as their mathematical counterparts.
pub open spec fn recs(s: Seq<MoveRecord>) -> Seq<Rec> {
    s.map_values(|r: MoveRecord| r@)
}

pub proof fn lemma_recs_push(s: Seq<MoveRecord>, r: MoveRecord)
    ensures
        recs(s.push(r)) =~= recs(s).push(r@),
{
}

pub proof fn lemma_recs_remove(s: Seq<MoveRecord>, i: int)
    requires
        0 <= i < s.len(),
    ensures
        recs(s.remove(i)) =~= recs(s).remove(i),
{
}

/// The engine.  All state lives in memory; callers perform the physical
/// renames the plan operations describe and report every outcome back.
pub struct Backend {
    root: String,
    folders: Vec<String>,
    listing: Vec<String>,
    cursor: usize,
    applied: Vec<MoveRecord>,
    undone: Vec<MoveRecord>,
}

impl View for Backend {
    type V = StateModel;

    closed spec fn view(&self) -> StateModel {
        StateModel {
            root: self.root@,
            folders: names(self.folders@),
            listing: names(self.listing@),
            cursor: self.cursor as int,
            applied: recs(self.applied@),
            undone: recs(self.undone@),
        }
    }
}

impl Backend {
    /// A fresh engine with nothing loaded.
    pub fn new() -> (r: Backend)
        ensures
            r@ == StateModel::loaded(Seq::<char>::empty(), Seq::empty(), Seq::empty()),
            r@.wf(),
    {
        let b = Backend {
            root: String::new(),
            folders: Vec::new(),
            listing: Vec::new(),
            cursor: 0,
            applied: Vec::new(),
            undone: Vec::new(),
        };
        proof {
            assert(b@ =~= StateModel::loaded(Seq::<char>::empty(), Seq::empty(), Seq::empty()));
        }
        b
    }

    /// Replace all state with a freshly enumerated root: the folder and file
    /// lists are put into a deterministic (lexicographic) order, the cursor
    /// returns to the first file, and the history is cleared.  The caller
    /// enumerates the directory; on a scan failure it must not call this, so
    /// a failed load leaves every part of the old state untouched.
    pub fn load(&mut self, root: String, folders: Vec<String>, files: Vec<String>) -> (counts: (
        usize,
        usize,
    ))
        ensures
            final(self)@.wf(),
            final(self)@.root == root@,
            final(self)@.cursor == 0,
            final(self)@.applied == Seq::<Rec>::empty(),
            final(self)@.undone == Seq::<Rec>::empty(),
            sorted_names(final(self)@.folders),
            final(self)@.folders.to_multiset() == names(folders@).to_multiset(),
            sorted_names(final(self)@.listing),
            final(self)@.listing.to_multiset() == names(files@).to_multiset(),
            counts.0 == final(self)@.folders.len(),
            counts.1 == final(self)@.listing.len(),
    {
        let sorted_folders = sort_names(folders);
        let sorted_files = sort_names(files);
        let folder_count = sorted_folders.len();
        let file_count = sorted_files.len();
        self.root = root;
        self.folders = sorted_folders;
        self.listing = sorted_files;
        self.cursor = 0;
        self.applied = Vec::new();
        self.undone = Vec::new();
        (folder_count, file_count)
    }

    /// Path of the loaded root directory.
    pub fn root(&self) -> (r: &String)
        ensures
            r@ == self@.root,
    {
        &self.root
    }

    /// The destination folders, in their numbered order.
    pub fn list_folders(&self) -> (r: &Vec<String>)
        ensures
            names(r@) == self@.folders,
    {
        &self.folders
    }

    /// The files still awaiting a decision, in traversal order.
    pub fn listing(&self) -> (r: &Vec<String>)
        ensures
            names(r@) == self@.listing,
    {
        &self.listing
    }

    /// Position of the cursor within the listing; the listing's length when
    /// the listing is empty or exhausted.
    pub fn cursor_index(&self) -> (r: usize)
        ensures
            r == self@.cursor,
    {
        self.cursor
    }

    /// Name of the file the cursor points at, or nothing when the listing is
    /// empty or exhausted.
    pub fn current_file(&self) -> (r: Option<String>)
        ensures
            match r {
                Some(name) => self@.has_current() && name@ == self@.current_name(),
                None => !self@.has_current(),
            },
    {
        if self.cursor < self.listing.len() {
            Some(self.listing[self.cursor].clone())
        } else {
            None
        }
    }

    /// Number of moves currently in effect.
    pub fn applied_count(&self) -> (r: usize)
        ensures
            r == self@.applied.len(),
    {
        self.applied.len()
    }

    /// Number of undone moves available for redo.
    pub fn undone_count(&self) -> (r: usize)
        ensures
            r == self@.undone.len(),
    {
        self.undone.len()
    }

    /// Advance the cursor by one.  Touches neither the filesystem nor the
    /// history; fails once the cursor is at or past the last entry.
    pub fn skip(&mut self) -> (r: Result<(), BackendError>)
        requires
            old(self)@.wf(),
        ensures
            final(self)@.wf(),
            old(self)@.can_skip() ==> r == Ok::<(), BackendError>(()) && final(self)@ == old(
                self,
            )@.after_skip(),
            !old(self)@.can_skip() ==> r == Err::<(), BackendError>(BackendError::EndOfListing)
                && final(self)@ == old(self)@,
    {
        if self.listing.len() > 0 && self.cursor < self.listing.len() - 1 {
            self.cursor = self.cursor + 1;
            proof {
                assert(self@ =~= old(self)@.after_skip());
            }
            Ok(())
        } else {
            Err(BackendError::EndOfListing)
        }
    }

    /// Describe the rename a move of the current file into `folder` asks
    /// for: from root/name to folder/name.  Fails when no file is current;
    /// nothing is changed either way.
    pub fn move_file_plan(&self, folder: &String) -> (r: Result<MoveRecord, BackendError>)
        ensures
            self@.has_current() ==> (r matches Ok(rec) && rec@ == self@.planned_record(folder@)),
            !self@.has_current() ==> r == Err::<MoveRecord, BackendError>(
                BackendError::NoCurrentFile,
            ),
    {
        if self.cursor < self.listing.len() {
            Ok(
                MoveRecord {
                    name: self.listing[self.cursor].clone(),
                    folder: folder.clone(),
                    index: self.cursor,
                },
            )
        } else {
            Err(BackendError::NoCurrentFile)
        }
    }

    /// Take in the outcome of the planned move rename.  On success the entry
    /// leaves the listing (the cursor lands on the next file), the record
    /// joins the applied history, and the redo stack is discarded — a new
    /// move forks the timeline.  On any failure the state is exactly what it
    /// was, and the error says why: a destination conflict or the underlying
    /// rename failure.
    pub fn move_file_commit(&mut self, folder: String, outcome: RenameOutcome) -> (r: Result<
        (),
        BackendError,
    >)
        requires
            old(self)@.wf(),
        ensures
            final(self)@.wf(),
            !old(self)@.has_current() ==> r == Err::<(), BackendError>(BackendError::NoCurrentFile)
                && final(self)@ == old(self)@,
            old(self)@.has_current() ==> match outcome {
                RenameOutcome::Done => r == Ok::<(), BackendError>(()) && final(self)@ == old(
                    self,
                )@.after_move(folder@),
                RenameOutcome::DestinationExists => r == Err::<(), BackendError>(
                    BackendError::DestinationConflict,
                ) && final(self)@ == old(self)@,
                RenameOutcome::Failed(k) => r == Err::<(), BackendError>(BackendError::Io(k))
                    && final(self)@ == old(self)@,
            },
    {
        if self.cursor >= self.listing.len() {
            return Err(BackendError::NoCurrentFile);
        }
        match outcome {
            RenameOutcome::Done => {
                let name = self.listing.remove(self.cursor);
                let rec = MoveRecord { name, folder, index: self.cursor };
                self.applied.push(rec);
                self.undone = Vec::new();
                proof {
                    lemma_names_remove(old(self).listing@, old(self).cursor as int);
                    lemma_recs_push(
                        old(self).applied@,
                        MoveRecord {
                            name: old(self).listing@[old(self).cursor as int],
                            folder,
                            index: old(self).cursor,
                        },
                    );
                    assert(self@ =~= old(self)@.after_move(folder@));
                }
                Ok(())
            },
            RenameOutcome::DestinationExists => Err(BackendError::DestinationConflict),
            RenameOutcome::Failed(k) => Err(BackendError::Io(k)),
        }
    }

    /// Describe the reverse rename the next undo asks for: the most recent
    /// applied record, to be renamed from folder/name back to root/name.
    /// Fails when no move is in effect; nothing is changed either way.
    pub fn undo_plan(&self) -> (r: Result<MoveRecord, BackendError>)
        ensures
            self@.applied.len() > 0 ==> (r matches Ok(rec) && rec@ == self@.undo_target()),
            self@.applied.len() == 0 ==> r == Err::<MoveRecord, BackendError>(
                BackendError::NothingToUndo,
            ),
    {
        if self.applied.len() > 0 {
            let rec = &self.applied[self.applied.len() - 1];
            Ok(MoveRecord { name: rec.name.clone(), folder: rec.folder.clone(), index: rec.index })
        } else {
            Err(BackendError::NothingToUndo)
        }
    }

    /// Take in the outcome of the planned undo rename.  On success the
    /// record is popped, the entry returns to the listing at its recorded
    /// position (clamped to the end when the listing has shrunk below it),
    /// the cursor points at the restored entry, and the record moves to the
    /// redo stack.  When the reverse rename failed, the record is popped and
    /// dropped — the forward move can no longer be trusted to exist at its
    /// recorded destination — while listing and cursor stay untouched.
    pub fn undo_commit(&mut self, outcome: ReverseOutcome) -> (r: Result<(), BackendError>)
        requires
            old(self)@.wf(),
        ensures
            final(self)@.wf(),
            old(self)@.applied.len() == 0 ==> r == Err::<(), BackendError>(
                BackendError::NothingToUndo,
            ) && final(self)@ == old(self)@,
            old(self)@.applied.len() > 0 ==> match outcome {
                ReverseOutcome::Done => r == Ok::<(), BackendError>(()) && final(self)@ == old(
                    self,
                )@.after_undo(),
                ReverseOutcome::Failed(k) => r == Err::<(), BackendError>(BackendError::Io(k))
                    && final(self)@ == old(self)@.after_failed_undo(),
            },
    {
        if self.applied.len() == 0 {
            return Err(BackendError::NothingToUndo);
        }
        let rec = self.applied.remove(self.applied.len() - 1);
        proof {
            lemma_recs_remove(old(self).applied@, old(self).applied@.len() - 1);
            assert(recs(self.applied@) =~= old(self)@.applied.drop_last());
        }
        match outcome {
            ReverseOutcome::Done => {
                let pos = if rec.index <= self.listing.len() {
                    rec.index
                } else {
                    self.listing.len()
                };
                self.listing.insert(pos, rec.name.clone());
                self.cursor = pos;
                self.undone.push(rec);
                proof {
                    lemma_names_insert(
                        old(self).listing@,
                        old(self)@.restore_pos(),
                        old(self).applied@[old(self).applied@.len() - 1].name,
                    );
                    lemma_recs_push(
                        old(self).undone@,
                        old(self).applied@[old(self).applied@.len() - 1],
                    );
                    assert(self@ =~= old(self)@.after_undo());
                }
                Ok(())
            },
            ReverseOutcome::Failed(k) => {
                proof {
                    assert(self@ =~= old(self)@.after_failed_undo());
                }
                Err(BackendError::Io(k))
            },
        }
    }

    /// Describe the forward rename the next redo asks for: the most recent
    /// undone record, to be renamed from root/name into folder/name again.
    /// Fails when the redo stack is empty; nothing is changed either way.
    pub fn redo_plan(&self) -> (r: Result<MoveRecord, BackendError>)
        ensures
            self@.undone.len() > 0 ==> (r matches Ok(rec) && rec@ == self@.redo_target()),
            self@.undone.len() == 0 ==> r == Err::<MoveRecord, BackendError>(
                BackendError::NothingToRedo,
            ),
    {
        if self.undone.len() > 0 {
            let rec = &self.undone[self.undone.len() - 1];
            Ok(MoveRecord { name: rec.name.clone(), folder: rec.folder.clone(), index: rec.index })
        } else {
            Err(BackendError::NothingToRedo)
        }
    }

    /// Take in the outcome of the planned redo rename.  On success the
    /// record returns to the applied history, its entry leaves the listing
    /// again, and the cursor is clamped to the shrunken listing.  On any
    /// failure — the destination is occupied again, or the rename itself
    /// failed — the state is exactly what it was, redo stack included.
    pub fn redo_commit(&mut self, outcome: RenameOutcome) -> (r: Result<(), BackendError>)
        requires
            old(self)@.wf(),
        ensures
            final(self)@.wf(),
            old(self)@.undone.len() == 0 ==> r == Err::<(), BackendError>(
                BackendError::NothingToRedo,
            ) && final(self)@ == old(self)@,
            old(self)@.undone.len() > 0 ==> match outcome {
                RenameOutcome::Done => r == Ok::<(), BackendError>(()) && final(self)@ == old(
                    self,
                )@.after_redo(),
                RenameOutcome::DestinationExists => r == Err::<(), BackendError>(
                    BackendError::DestinationConflict,
                ) && final(self)@ == old(self)@,
                RenameOutcome::Failed(k) => r == Err::<(), BackendError>(BackendError::Io(k))
                    && final(self)@ == old(self)@,
            },
    {
        if self.undone.len() == 0 {
            return Err(BackendError::NothingToRedo);
        }
        match outcome {
            RenameOutcome::Done => {
                let rec = self.undone.remove(self.undone.len() - 1);
                let pos = if rec.index < self.listing.len() {
                    rec.index
                } else {
                    self.listing.len() - 1
                };
                self.listing.remove(pos);
                if self.cursor > self.listing.len() {
                    self.cursor = self.listing.len();
                }
                self.applied.push(rec);
                proof {
                    lemma_recs_remove(old(self).undone@, old(self).undone@.len() - 1);
                    lemma_names_remove(old(self).listing@, old(self)@.remove_pos());
                    lemma_recs_push(
                        old(self).applied@,
                        old(self).undone@[old(self).undone@.len() - 1],
                    );
                    assert(self@ =~= old(self)@.after_redo());
                }
                Ok(())
            },
            RenameOutcome::DestinationExists => Err(BackendError::DestinationConflict),
            RenameOutcome::Failed(k) => Err(BackendError::Io(k)),
        }
    }
}

} // verus!
