//! Engine behaviour against a small in-memory stand-in for the filesystem,
//! driven exactly the way an application drives the engine: plan, attempt
//! the rename, commit the outcome.

use sorter_backend::engine::{Backend, BackendError, IoErrorKind, RenameOutcome, ReverseOutcome};

/// A filesystem as a set of (directory, file name) pairs.
type Fs = Vec<(String, String)>;

fn fs_contains(fs: &Fs, dir: &str, name: &str) -> bool {
    fs.iter().any(|e| e.0 == dir && e.1 == name)
}

fn fs_rename(fs: &mut Fs, from: (&str, &str), to: (&str, &str)) {
    fs.retain(|e| !(e.0 == from.0 && e.1 == from.1));
    fs.push((to.0.to_string(), to.1.to_string()));
}

fn fs_snapshot(fs: &Fs) -> Vec<(String, String)> {
    let mut s = fs.clone();
    s.sort();
    s
}

fn do_move(b: &mut Backend, fs: &mut Fs, folder: &str) -> Result<(), BackendError> {
    let rec = b.move_file_plan(&folder.to_string())?;
    if fs_contains(fs, folder, &rec.name) {
        return b.move_file_commit(folder.to_string(), RenameOutcome::DestinationExists);
    }
    let root = b.root().clone();
    fs_rename(fs, (&root, &rec.name), (folder, &rec.name));
    b.move_file_commit(folder.to_string(), RenameOutcome::Done)
}

fn do_undo(b: &mut Backend, fs: &mut Fs) -> Result<(), BackendError> {
    let rec = b.undo_plan()?;
    let root = b.root().clone();
    fs_rename(fs, (&rec.folder, &rec.name), (&root, &rec.name));
    b.undo_commit(ReverseOutcome::Done)
}

fn do_redo(b: &mut Backend, fs: &mut Fs) -> Result<(), BackendError> {
    let rec = b.redo_plan()?;
    if fs_contains(fs, &rec.folder, &rec.name) {
        return b.redo_commit(RenameOutcome::DestinationExists);
    }
    let root = b.root().clone();
    fs_rename(fs, (&root, &rec.name), (&rec.folder, &rec.name));
    b.redo_commit(RenameOutcome::Done)
}

fn setup(files: &[&str], folders: &[&str]) -> (Backend, Fs) {
    let mut b = Backend::new();
    let counts = b.load(
        "root".to_string(),
        folders.iter().map(|s| s.to_string()).collect(),
        files.iter().map(|s| s.to_string()).collect(),
    );
    assert_eq!(counts, (folders.len(), files.len()));
    let fs: Fs = files.iter().map(|f| ("root".to_string(), f.to_string())).collect();
    (b, fs)
}

#[test]
fn scenario_triage_session() {
    let (mut b, mut fs) = setup(&["a.jpg", "b.jpg", "c.jpg"], &["keep", "trash"]);
    assert_eq!(b.list_folders(), &vec!["keep".to_string(), "trash".to_string()]);
    assert_eq!(b.current_file(), Some("a.jpg".to_string()));

    assert_eq!(do_move(&mut b, &mut fs, "trash"), Ok(()));
    assert!(fs_contains(&fs, "trash", "a.jpg"));
    assert!(!fs_contains(&fs, "root", "a.jpg"));
    assert_eq!(b.current_file(), Some("b.jpg".to_string()));
    assert_eq!(b.applied_count(), 1);

    assert_eq!(do_undo(&mut b, &mut fs), Ok(()));
    assert!(fs_contains(&fs, "root", "a.jpg"));
    assert!(!fs_contains(&fs, "trash", "a.jpg"));
    assert_eq!(b.current_file(), Some("a.jpg".to_string()));
    assert_eq!(b.undone_count(), 1);

    assert_eq!(b.skip(), Ok(()));
    assert_eq!(b.current_file(), Some("b.jpg".to_string()));

    assert_eq!(do_move(&mut b, &mut fs, "keep"), Ok(()));
    assert!(fs_contains(&fs, "keep", "b.jpg"));
    assert_eq!(b.undone_count(), 0);
    assert_eq!(b.redo_plan(), Err(BackendError::NothingToRedo));
}

#[test]
fn load_sorts_and_resets() {
    let (mut b, _fs) = setup(&["c.jpg", "a.jpg", "b.jpg"], &["trash", "keep"]);
    assert_eq!(
        b.listing(),
        &vec!["a.jpg".to_string(), "b.jpg".to_string(), "c.jpg".to_string()]
    );
    assert_eq!(b.list_folders(), &vec!["keep".to_string(), "trash".to_string()]);
    assert_eq!(b.current_file(), Some("a.jpg".to_string()));
    assert_eq!(b.root(), "root");

    let mut fs = vec![("root".to_string(), "c.jpg".to_string())];
    let counts = b.load(
        "root".to_string(),
        vec![],
        vec!["x.png".to_string(), "w.png".to_string()],
    );
    assert_eq!(counts, (0, 2));
    assert_eq!(b.applied_count(), 0);
    assert_eq!(b.undone_count(), 0);
    assert_eq!(b.cursor_index(), 0);
    assert_eq!(b.current_file(), Some("w.png".to_string()));
    let _ = &mut fs;
}

#[test]
fn round_trip_restores_everything() {
    let (mut b, mut fs) = setup(&["a.jpg", "b.jpg", "c.jpg", "d.jpg"], &["keep", "trash"]);
    assert_eq!(b.skip(), Ok(()));
    let listing0 = b.listing().clone();
    let cursor0 = b.cursor_index();
    let fs0 = fs_snapshot(&fs);

    assert_eq!(do_move(&mut b, &mut fs, "trash"), Ok(()));
    assert_eq!(do_move(&mut b, &mut fs, "keep"), Ok(()));
    assert_eq!(do_move(&mut b, &mut fs, "trash"), Ok(()));
    assert_eq!(b.applied_count(), 3);
    assert_eq!(b.listing().len(), 1);

    assert_eq!(do_undo(&mut b, &mut fs), Ok(()));
    assert_eq!(do_undo(&mut b, &mut fs), Ok(()));
    assert_eq!(do_undo(&mut b, &mut fs), Ok(()));

    assert_eq!(b.listing(), &listing0);
    assert_eq!(b.cursor_index(), cursor0);
    assert_eq!(fs_snapshot(&fs), fs0);
    assert_eq!(b.applied_count(), 0);
    assert_eq!(b.undone_count(), 3);
}

#[test]
fn redo_is_inverse_of_undo() {
    let (mut b, mut fs) = setup(&["a.jpg", "b.jpg"], &["keep"]);
    assert_eq!(do_move(&mut b, &mut fs, "keep"), Ok(()));
    let listing1 = b.listing().clone();
    let cursor1 = b.cursor_index();
    let fs1 = fs_snapshot(&fs);

    assert_eq!(do_undo(&mut b, &mut fs), Ok(()));
    assert_eq!(do_redo(&mut b, &mut fs), Ok(()));

    assert_eq!(b.listing(), &listing1);
    assert_eq!(b.cursor_index(), cursor1);
    assert_eq!(fs_snapshot(&fs), fs1);
    assert_eq!(b.applied_count(), 1);
    assert_eq!(b.undone_count(), 0);
}

#[test]
fn new_move_forks_history() {
    let (mut b, mut fs) = setup(&["a.jpg", "b.jpg"], &["keep", "trash"]);
    assert_eq!(do_move(&mut b, &mut fs, "keep"), Ok(()));
    assert_eq!(do_undo(&mut b, &mut fs), Ok(()));
    assert_eq!(b.undone_count(), 1);
    assert_eq!(do_move(&mut b, &mut fs, "trash"), Ok(()));
    assert_eq!(b.undone_count(), 0);
    assert_eq!(do_redo(&mut b, &mut fs), Err(BackendError::NothingToRedo));
}

#[test]
fn no_double_move() {
    let (mut b, mut fs) = setup(&["a.jpg"], &["keep"]);
    assert_eq!(do_move(&mut b, &mut fs, "keep"), Ok(()));
    assert!(fs_contains(&fs, "keep", "a.jpg"));
    assert!(!fs_contains(&fs, "root", "a.jpg"));
    assert_eq!(fs.len(), 1);
    assert_eq!(b.current_file(), None);
}

#[test]
fn destination_conflict_changes_nothing() {
    let (mut b, mut fs) = setup(&["a.jpg", "b.jpg"], &["keep"]);
    fs.push(("keep".to_string(), "a.jpg".to_string()));
    let fs0 = fs_snapshot(&fs);
    let listing0 = b.listing().clone();

    assert_eq!(do_move(&mut b, &mut fs, "keep"), Err(BackendError::DestinationConflict));

    assert_eq!(fs_snapshot(&fs), fs0);
    assert_eq!(b.listing(), &listing0);
    assert_eq!(b.cursor_index(), 0);
    assert_eq!(b.applied_count(), 0);
    assert_eq!(b.current_file(), Some("a.jpg".to_string()));
}

#[test]
fn skip_exhausts_after_n_minus_one() {
    let n = 5;
    let names: Vec<String> = (0..n).map(|i| format!("f{}.jpg", i)).collect();
    let mut b = Backend::new();
    b.load("root".to_string(), vec![], names);
    for _ in 0..n - 1 {
        assert_eq!(b.skip(), Ok(()));
    }
    assert_eq!(b.skip(), Err(BackendError::EndOfListing));
    assert_eq!(b.cursor_index(), n - 1);
    assert_eq!(b.current_file(), Some("f4.jpg".to_string()));
}

#[test]
fn skip_fails_on_empty_listing() {
    let mut b = Backend::new();
    assert_eq!(b.skip(), Err(BackendError::EndOfListing));
    b.load("root".to_string(), vec![], vec![]);
    assert_eq!(b.skip(), Err(BackendError::EndOfListing));
    assert_eq!(b.current_file(), None);
}

#[test]
fn move_without_current_file() {
    let (mut b, mut fs) = setup(&[], &["keep"]);
    assert_eq!(do_move(&mut b, &mut fs, "keep"), Err(BackendError::NoCurrentFile));
    assert_eq!(b.applied_count(), 0);
}

#[test]
fn move_io_failure_changes_nothing() {
    let (mut b, _fs) = setup(&["a.jpg"], &["keep"]);
    let r = b.move_file_commit("keep".to_string(), RenameOutcome::Failed(IoErrorKind::PermissionDenied));
    assert_eq!(r, Err(BackendError::Io(IoErrorKind::PermissionDenied)));
    assert_eq!(b.listing().len(), 1);
    assert_eq!(b.applied_count(), 0);
    assert_eq!(b.current_file(), Some("a.jpg".to_string()));
}

#[test]
fn undo_with_empty_history() {
    let (mut b, mut fs) = setup(&["a.jpg"], &["keep"]);
    assert_eq!(do_undo(&mut b, &mut fs), Err(BackendError::NothingToUndo));
}

#[test]
fn undo_io_failure_drops_the_record() {
    let (mut b, mut fs) = setup(&["a.jpg", "b.jpg"], &["keep"]);
    assert_eq!(do_move(&mut b, &mut fs, "keep"), Ok(()));
    let listing1 = b.listing().clone();
    let cursor1 = b.cursor_index();

    let r = b.undo_commit(ReverseOutcome::Failed(IoErrorKind::Other));
    assert_eq!(r, Err(BackendError::Io(IoErrorKind::Other)));
    // The record is popped and not re-pushed anywhere.
    assert_eq!(b.applied_count(), 0);
    assert_eq!(b.undone_count(), 0);
    // Listing and cursor are exactly as before the failed undo.
    assert_eq!(b.listing(), &listing1);
    assert_eq!(b.cursor_index(), cursor1);
    assert_eq!(do_undo(&mut b, &mut fs), Err(BackendError::NothingToUndo));
}

#[test]
fn redo_with_empty_stack() {
    let (mut b, mut fs) = setup(&["a.jpg"], &["keep"]);
    assert_eq!(do_redo(&mut b, &mut fs), Err(BackendError::NothingToRedo));
    assert_eq!(do_move(&mut b, &mut fs, "keep"), Ok(()));
    assert_eq!(do_redo(&mut b, &mut fs), Err(BackendError::NothingToRedo));
}

#[test]
fn redo_failure_keeps_the_stack() {
    let (mut b, mut fs) = setup(&["a.jpg", "b.jpg"], &["keep"]);
    assert_eq!(do_move(&mut b, &mut fs, "keep"), Ok(()));
    assert_eq!(do_undo(&mut b, &mut fs), Ok(()));
    let listing2 = b.listing().clone();

    let r = b.redo_commit(RenameOutcome::Failed(IoErrorKind::CrossDevice));
    assert_eq!(r, Err(BackendError::Io(IoErrorKind::CrossDevice)));
    assert_eq!(b.undone_count(), 1);
    assert_eq!(b.applied_count(), 0);
    assert_eq!(b.listing(), &listing2);

    // The redo is still available and goes through once the rename can.
    assert_eq!(do_redo(&mut b, &mut fs), Ok(()));
    assert_eq!(b.applied_count(), 1);
    assert_eq!(b.undone_count(), 0);
}

#[test]
fn redo_conflict_changes_nothing() {
    let (mut b, mut fs) = setup(&["a.jpg", "b.jpg"], &["keep"]);
    assert_eq!(do_move(&mut b, &mut fs, "keep"), Ok(()));
    assert_eq!(do_undo(&mut b, &mut fs), Ok(()));
    // Someone else occupies the destination in the meantime.
    fs.push(("keep".to_string(), "a.jpg".to_string()));
    let fs0 = fs_snapshot(&fs);

    assert_eq!(do_redo(&mut b, &mut fs), Err(BackendError::DestinationConflict));
    assert_eq!(b.undone_count(), 1);
    assert_eq!(fs_snapshot(&fs), fs0);
}

#[test]
fn undo_restores_after_exhaustion() {
    let (mut b, mut fs) = setup(&["a.jpg"], &["keep"]);
    assert_eq!(do_move(&mut b, &mut fs, "keep"), Ok(()));
    assert_eq!(b.current_file(), None);
    assert_eq!(do_undo(&mut b, &mut fs), Ok(()));
    assert_eq!(b.current_file(), Some("a.jpg".to_string()));
}

#[test]
fn move_record_reports_the_rename() {
    let (b, _fs) = setup(&["a.jpg", "b.jpg"], &["keep"]);
    let rec = b.move_file_plan(&"keep".to_string()).unwrap();
    assert_eq!(rec.name, "a.jpg");
    assert_eq!(rec.folder, "keep");
    assert_eq!(rec.index, 0);
}
