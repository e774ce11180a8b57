//! The engine's guarantees, stated and proved over the model.
//!
//! These laws speak about `StateModel` together with a filesystem model
//! (`Set<Loc>`): the combined step functions of `model` say what a
//! successful move, undo or redo does to both, and the executable engine's
//! contracts tie each commit operation to the same state-update functions.

use vstd::prelude::*;

use crate::model::{
    fs_coherent, move_allowed, move_step, redo_allowed, redo_step, rec_dest, rec_source, rename_fs,
    undo_allowed, undo_step, Loc, StateModel,
};

verus! {

/// Renaming a file somewhere and straight back restores the filesystem.
proof fn lemma_rename_roundtrip(fs: Set<Loc>, from: Loc, to: Loc)
    requires
        fs.contains(from),
        !fs.contains(to),
    ensures
        rename_fs(rename_fs(fs, from, to), to, from) == fs,
{
    assert(rename_fs(rename_fs(fs, from, to), to, from) =~= fs);
}

/// A successful move preserves well-formedness, filesystem coherence and the
/// distinctness of the listed names.
pub proof fn lemma_move_preserves(s: StateModel, fs: Set<Loc>, folder: Seq<char>)
    requires
        s.wf(),
        fs_coherent(s, fs),
        s.listing.no_duplicates(),
        move_allowed(s, fs, folder),
    ensures
        ({
            let (s1, fs1) = move_step(s, fs, folder);
            &&& s1.wf()
            &&& fs_coherent(s1, fs1)
            &&& s1.listing.no_duplicates()
        }),
{
    let (s1, fs1) = move_step(s, fs, folder);
    let c = s.cursor;
    assert forall|i: int, j: int|
        0 <= i < s1.listing.len() && 0 <= j < s1.listing.len() && i != j implies s1.listing[i]
        != s1.listing[j] by {
        let oi = if i < c {
            i
        } else {
            i + 1
        };
        let oj = if j < c {
            j
        } else {
            j + 1
        };
        assert(s1.listing[i] == s.listing[oi]);
        assert(s1.listing[j] == s.listing[oj]);
    }
    assert forall|i: int| 0 <= i < s1.listing.len() implies fs1.contains(
        Loc { dir: s1.root, name: s1.listing[i] },
    ) by {
        let oi = if i < c {
            i
        } else {
            i + 1
        };
        assert(s1.listing[i] == s.listing[oi]);
        assert(fs.contains(Loc { dir: s.root, name: s.listing[oi] }));
        assert(s.listing[oi] != s.listing[c]);
    }
}

/// Running `n` successful undos in a row; nothing if one finds an empty
/// history.
pub open spec fn run_undos(s: StateModel, fs: Set<Loc>, n: nat) -> Option<(StateModel, Set<Loc>)>
    decreases n,
{
    if n == 0 {
        Some((s, fs))
    } else if undo_allowed(s) {
        let (s1, fs1) = undo_step(s, fs);
        run_undos(s1, fs1, (n - 1) as nat)
    } else {
        None
    }
}

/// Running one successful move per listed folder, in order; nothing if one
/// of them cannot go through.
pub open spec fn run_moves(s: StateModel, fs: Set<Loc>, dests: Seq<Seq<char>>) -> Option<
    (StateModel, Set<Loc>),
>
    decreases dests.len(),
{
    if dests.len() == 0 {
        Some((s, fs))
    } else if move_allowed(s, fs, dests[0]) {
        let (s1, fs1) = move_step(s, fs, dests[0]);
        run_moves(s1, fs1, dests.drop_first())
    } else {
        None
    }
}

/// A run of `n + 1` undos is a run of `n` undos followed by one more.
proof fn lemma_run_undos_snoc(s: StateModel, fs: Set<Loc>, n: nat)
    requires
        run_undos(s, fs, n) is Some,
    ensures
        ({
            let (t, g) = run_undos(s, fs, n)->Some_0;
            run_undos(s, fs, (n + 1) as nat) == if undo_allowed(t) {
                Some(undo_step(t, g))
            } else {
                None::<(StateModel, Set<Loc>)>
            }
        }),
    decreases n,
{
    if n == 0 {
        if undo_allowed(s) {
            let (s1, fs1) = undo_step(s, fs);
            assert(run_undos(s1, fs1, 0) == Some((s1, fs1)));
        }
    } else {
        let (s1, fs1) = undo_step(s, fs);
        lemma_run_undos_snoc(s1, fs1, (n - 1) as nat);
        assert(undo_allowed(s));
        assert(run_undos(s, fs, n) == run_undos(s1, fs1, (n - 1) as nat));
        assert(run_undos(s, fs, (n + 1) as nat) == run_undos(s1, fs1, n));
        assert(((n - 1) + 1) as nat == n);
    }
}

/// Round trip: from any well-formed state whose listing the filesystem
/// backs, a run of successful moves followed by as many undos goes through
/// and restores the listing, the cursor, the applied history and the
/// filesystem.  In particular, run from the state right after a load, it
/// restores everything observable about that state.
pub proof fn lemma_round_trip(s: StateModel, fs: Set<Loc>, dests: Seq<Seq<char>>)
    requires
        s.wf(),
        fs_coherent(s, fs),
        s.listing.no_duplicates(),
        run_moves(s, fs, dests) is Some,
    ensures
        ({
            let (s1, fs1) = run_moves(s, fs, dests)->Some_0;
            &&& run_undos(s1, fs1, dests.len()) is Some
            &&& {
                let (s2, fs2) = run_undos(s1, fs1, dests.len())->Some_0;
                &&& s2.listing == s.listing
                &&& s2.cursor == s.cursor
                &&& s2.applied == s.applied
                &&& s2.root == s.root
                &&& s2.folders == s.folders
                &&& fs2 == fs
            }
        }),
    decreases dests.len(),
{
    if dests.len() > 0 {
        let d0 = dests[0];
        let rec = s.planned_record(d0);
        let (sa, fsa) = move_step(s, fs, d0);
        lemma_move_preserves(s, fs, d0);
        lemma_round_trip(sa, fsa, dests.drop_first());
        let (s1, fs1) = run_moves(s, fs, dests)->Some_0;
        let n1 = (dests.len() - 1) as nat;
        let (s2p, fs2p) = run_undos(s1, fs1, n1)->Some_0;
        lemma_run_undos_snoc(s1, fs1, n1);
        assert(undo_allowed(s2p));
        assert(s2p.applied.last() == rec);
        assert(s2p.applied.drop_last() =~= s.applied);
        assert(s2p.listing.insert(s.cursor, rec.name) =~= s.listing);
        assert(fs.contains(rec_source(s.root, rec)));
        lemma_rename_roundtrip(fs, rec_source(s.root, rec), rec_dest(rec));
        assert(run_undos(s1, fs1, dests.len()) == Some(undo_step(s2p, fs2p)));
    }
}

/// Redo undoes an undo: after a successful move, one undo and one redo both
/// go through, and listing, cursor and filesystem end exactly as the move
/// alone left them.
pub proof fn lemma_redo_inverse(s: StateModel, fs: Set<Loc>, folder: Seq<char>)
    requires
        s.wf(),
        fs_coherent(s, fs),
        move_allowed(s, fs, folder),
    ensures
        ({
            let (s1, fs1) = move_step(s, fs, folder);
            &&& undo_allowed(s1)
            &&& {
                let (s2, fs2) = undo_step(s1, fs1);
                &&& redo_allowed(s2, fs2)
                &&& {
                    let (s3, fs3) = redo_step(s2, fs2);
                    &&& s3.listing == s1.listing
                    &&& s3.cursor == s1.cursor
                    &&& s3.applied == s1.applied
                    &&& fs3 == fs1
                }
            }
        }),
{
    let rec = s.planned_record(folder);
    let (s1, fs1) = move_step(s, fs, folder);
    let (s2, fs2) = undo_step(s1, fs1);
    assert(s2.listing =~= s.listing);
    assert(fs.contains(rec_source(s.root, rec)));
    lemma_rename_roundtrip(fs, rec_source(s.root, rec), rec_dest(rec));
    let (s3, fs3) = redo_step(s2, fs2);
    assert(s3.listing =~= s1.listing);
    assert(s3.applied =~= s1.applied);
}

/// A new move forks the timeline: move, undo, then a different move leaves
/// the redo stack empty, so redoing the first move fails.
pub proof fn lemma_fork_clears_redo(s: StateModel, fs: Set<Loc>, a: Seq<char>, b: Seq<char>)
    requires
        s.wf(),
        fs_coherent(s, fs),
        move_allowed(s, fs, a),
        move_allowed(s, fs, b),
    ensures
        ({
            let (s1, fs1) = move_step(s, fs, a);
            &&& undo_allowed(s1)
            &&& {
                let (s2, fs2) = undo_step(s1, fs1);
                &&& move_allowed(s2, fs2, b)
                &&& move_step(s2, fs2, b).0.undone.len() == 0
            }
        }),
{
    let reca = s.planned_record(a);
    let (s1, fs1) = move_step(s, fs, a);
    let (s2, fs2) = undo_step(s1, fs1);
    assert(s2.listing =~= s.listing);
    assert(fs.contains(rec_source(s.root, reca)));
    lemma_rename_roundtrip(fs, rec_source(s.root, reca), rec_dest(reca));
}

/// No double move: after a successful move nothing remains at the source;
/// the file exists at its destination only.
pub proof fn lemma_no_double_move(s: StateModel, fs: Set<Loc>, folder: Seq<char>)
    requires
        s.wf(),
        fs_coherent(s, fs),
        move_allowed(s, fs, folder),
    ensures
        ({
            let rec = s.planned_record(folder);
            let (s1, fs1) = move_step(s, fs, folder);
            &&& !fs1.contains(rec_source(s.root, rec))
            &&& fs1.contains(rec_dest(rec))
        }),
{
    let rec = s.planned_record(folder);
    assert(fs.contains(rec_source(s.root, rec)));
}

/// Conflict safety: when a file of the same name already sits at the
/// destination, the move is not allowed — the engine's commit then reports
/// a destination conflict and, as its contract states, leaves listing,
/// cursor and history exactly as they were; no rename was performed.
pub proof fn lemma_conflict_safety(s: StateModel, fs: Set<Loc>, folder: Seq<char>)
    requires
        s.has_current(),
        fs.contains(rec_dest(s.planned_record(folder))),
    ensures
        !move_allowed(s, fs, folder),
{
}

/// Running `k` successful skips in a row.
pub open spec fn run_skips(s: StateModel, k: nat) -> StateModel
    decreases k,
{
    if k == 0 {
        s
    } else {
        run_skips(s, (k - 1) as nat).after_skip()
    }
}

proof fn lemma_run_skips(s: StateModel, k: nat)
    ensures
        run_skips(s, k).cursor == s.cursor + k,
        run_skips(s, k).listing == s.listing,
    decreases k,
{
    if k > 0 {
        lemma_run_skips(s, (k - 1) as nat);
    }
}

/// Exhaustion: on a listing of N files, skipping from the first succeeds
/// exactly N − 1 times — every earlier state can skip, and the state after
/// N − 1 skips cannot.
pub proof fn lemma_exhaustion(s: StateModel)
    requires
        s.cursor == 0,
        s.listing.len() >= 1,
    ensures
        forall|k: nat| k < s.listing.len() - 1 ==> (#[trigger] run_skips(s, k)).can_skip(),
        !run_skips(s, (s.listing.len() - 1) as nat).can_skip(),
{
    assert forall|k: nat| k < s.listing.len() - 1 implies (#[trigger] run_skips(s, k)).can_skip() by {
        lemma_run_skips(s, k);
    }
    lemma_run_skips(s, (s.listing.len() - 1) as nat);
}

} // verus!
