//! How a file is replaced.
//!
//! The new content goes to a file of its own, which is flushed and then renamed into the
//! place of the old one: who reads the file finds the old content or the new, never a
//! part of it.

use crate::config::FilePath;
use crate::models;
use vstd::prelude::*;

verus! {

/// What is to be done next.
#[derive(Debug, Clone, Copy, PartialEq, Eq, Structural)]
pub enum SavePhase {
    /// Write the content to a new file at [`Saving::tmp`] with [`Saving::mode`], and
    /// flush it.
    Write,
    /// Rename that file to [`Saving::path`].
    Rename,
    /// Flush the directory, so that the rename itself is kept.
    SyncDir,
    Finished,
}

/// A file that is being replaced.
#[derive(Debug)]
pub struct Saving {
    phase: SavePhase,
    path: FilePath,
    tmp: FilePath,
    mode: u32,
    sync_dir: bool,
    error: Option<String>,
}

/// What a [`Saving`] says.
#[verifier::ext_equal]
pub struct SavingView {
    pub phase: SavePhase,
    pub path: Seq<u8>,
    pub tmp: Seq<u8>,
    pub mode: u32,
    pub sync_dir: bool,
    pub error: Option<Seq<char>>,
}

impl View for Saving {
    type V = SavingView;

    closed spec fn view(&self) -> SavingView {
        SavingView {
            phase: self.phase,
            path: self.path@,
            tmp: self.tmp@,
            mode: self.mode,
            sync_dir: self.sync_dir,
            error: models::opt_text(self.error),
        }
    }
}

/// The file at `path` before anything was done to replace it.
pub open spec fn unsaved(path: Seq<u8>, tmp: Seq<u8>, mode: u32, sync_dir: bool) -> SavingView {
    SavingView { phase: SavePhase::Write, path, tmp, mode, sync_dir, error: None }
}

/// What follows a phase that ended with `outcome`: the first failure is the end.
pub open spec fn save_step(s: SavingView, outcome: Result<(), Seq<char>>) -> SavingView {
    match (s.phase, outcome) {
        (SavePhase::Finished, _) => s,
        (_, Err(e)) => SavingView { phase: SavePhase::Finished, error: Some(e), ..s },
        (SavePhase::Write, Ok(_)) => SavingView { phase: SavePhase::Rename, ..s },
        (SavePhase::Rename, Ok(_)) => SavingView {
            phase: if s.sync_dir {
                SavePhase::SyncDir
            } else {
                SavePhase::Finished
            },
            ..s
        },
        (SavePhase::SyncDir, Ok(_)) => SavingView { phase: SavePhase::Finished, ..s },
    }
}

/// What an outcome says.
pub open spec fn outcome_view(r: Result<(), String>) -> Result<(), Seq<char>> {
    match r {
        Ok(_) => Ok(()),
        Err(e) => Err(e@),
    }
}

impl Saving {
    /// Replace the file at `path`, by way of one at `tmp` that is made with `mode`, and
    /// flush the directory where `sync_dir` asks for it.
    pub fn new(path: FilePath, tmp: FilePath, mode: u32, sync_dir: bool) -> (r: Saving)
        ensures
            r@ == unsaved(path@, tmp@, mode, sync_dir),
    {
        Saving { phase: SavePhase::Write, path, tmp, mode, sync_dir, error: None }
    }

    /// What is to be done next.
    pub fn phase(&self) -> (r: SavePhase)
        ensures
            r == self@.phase,
    {
        self.phase
    }

    /// The file that is replaced.
    pub fn path(&self) -> (r: &FilePath)
        ensures
            r@ == self@.path,
    {
        &self.path
    }

    /// The file that takes its place.
    pub fn tmp(&self) -> (r: &FilePath)
        ensures
            r@ == self@.tmp,
    {
        &self.tmp
    }

    /// The permission bits that it is made with.
    pub fn mode(&self) -> (r: u32)
        ensures
            r == self@.mode,
    {
        self.mode
    }

    /// Go on once a phase has ended with `outcome`.
    pub fn resume(self, outcome: Result<(), String>) -> (r: Saving)
        ensures
            r@ == save_step(self@, outcome_view(outcome)),
    {
        match (self.phase, outcome) {
            (SavePhase::Finished, _) => self,
            (_, Err(e)) => Saving { phase: SavePhase::Finished, error: Some(e), ..self },
            (SavePhase::Write, Ok(_)) => Saving { phase: SavePhase::Rename, ..self },
            (SavePhase::Rename, Ok(_)) => {
                let phase = if self.sync_dir {
                    SavePhase::SyncDir
                } else {
                    SavePhase::Finished
                };
                Saving { phase, ..self }
            },
            (SavePhase::SyncDir, Ok(_)) => Saving { phase: SavePhase::Finished, ..self },
        }
    }

    /// How it ended: with the failure that stopped it, if one did.
    pub fn outcome(self) -> (r: Result<(), String>)
        ensures
            outcome_view(r) == (match self@.error {
                Some(e) => Err::<(), Seq<char>>(e),
                None => Ok::<(), Seq<char>>(()),
            }),
    {
        match self.error {
            Some(e) => Err(e),
            None => Ok(()),
        }
    }
}

// ---------------------------------------------------------------------------
// What becomes of the disk
// ---------------------------------------------------------------------------

/// A file: its content, and the permission bits that it was made with.
#[verifier::ext_equal]
pub struct FileState {
    pub content: Seq<u8>,
    pub mode: u32,
}

/// What a phase makes of the files on disk, by path. Writing makes the new file or, where
/// it fails, leaves anything at all in its place; renaming moves it or changes nothing.
pub open spec fn phase_effect(
    s: SavingView,
    content: Seq<u8>,
    outcome: Result<(), Seq<char>>,
    before: Map<Seq<u8>, FileState>,
    after: Map<Seq<u8>, FileState>,
) -> bool {
    match s.phase {
        SavePhase::Write => if outcome is Ok {
            after == before.insert(s.tmp, FileState { content, mode: s.mode })
        } else {
            after.remove(s.tmp) == before.remove(s.tmp)
        },
        SavePhase::Rename => if outcome is Ok {
            after == before.remove(s.tmp).insert(s.path, before[s.tmp])
        } else {
            after == before
        },
        SavePhase::SyncDir | SavePhase::Finished => after == before,
    }
}

/// Whether phases that end with the given outcomes can leave the disk as given in turn.
pub open spec fn can_run(
    s: SavingView,
    content: Seq<u8>,
    disk: Map<Seq<u8>, FileState>,
    steps: Seq<(Result<(), Seq<char>>, Map<Seq<u8>, FileState>)>,
) -> bool
    decreases steps.len(),
{
    steps.len() == 0 || {
        let (outcome, after) = steps[0];
        &&& phase_effect(s, content, outcome, disk, after)
        &&& can_run(save_step(s, outcome), content, after, steps.drop_first())
    }
}

/// Where phases that end with the given outcomes lead.
pub open spec fn run_to(
    s: SavingView,
    disk: Map<Seq<u8>, FileState>,
    steps: Seq<(Result<(), Seq<char>>, Map<Seq<u8>, FileState>)>,
) -> (SavingView, Map<Seq<u8>, FileState>)
    decreases steps.len(),
{
    if steps.len() == 0 {
        (s, disk)
    } else {
        run_to(save_step(s, steps[0].0), steps[0].1, steps.drop_first())
    }
}

/// The disk with the file replaced, and nothing left over.
pub open spec fn with_replaced(
    disk: Map<Seq<u8>, FileState>,
    path: Seq<u8>,
    tmp: Seq<u8>,
    file: FileState,
) -> Map<Seq<u8>, FileState> {
    disk.remove(tmp).insert(path, file)
}

/// What holds of the disk in each phase, as against the disk that saving began with.
spec fn in_phase(
    s: SavingView,
    file: FileState,
    first: Map<Seq<u8>, FileState>,
    disk: Map<Seq<u8>, FileState>,
) -> bool {
    let replaced = with_replaced(first, s.path, s.tmp, file);
    match s.phase {
        SavePhase::Write => s.error is None && disk == first,
        SavePhase::Rename => s.error is None && disk == first.insert(s.tmp, file),
        SavePhase::SyncDir => s.error is None && disk == replaced,
        SavePhase::Finished => disk == replaced || (s.error is Some && disk.remove(s.tmp)
            == first.remove(s.tmp)),
    }
}

proof fn steps_stay_in_phase(
    s: SavingView,
    file: FileState,
    first: Map<Seq<u8>, FileState>,
    disk: Map<Seq<u8>, FileState>,
    steps: Seq<(Result<(), Seq<char>>, Map<Seq<u8>, FileState>)>,
)
    requires
        s.path != s.tmp,
        s.mode == file.mode,
        in_phase(s, file, first, disk),
        can_run(s, file.content, disk, steps),
    ensures
        in_phase(run_to(s, disk, steps).0, file, first, run_to(s, disk, steps).1),
        run_to(s, disk, steps).0.path == s.path,
        run_to(s, disk, steps).0.tmp == s.tmp,
    decreases steps.len(),
{
    if steps.len() > 0 {
        let (outcome, after) = steps[0];
        let next = save_step(s, outcome);
        match (s.phase, outcome) {
            (SavePhase::Rename, Ok(_)) => {
                assert(after =~= with_replaced(first, s.path, s.tmp, file));
            },
            (SavePhase::Rename, Err(_)) => {
                assert(after.remove(s.tmp) =~= first.remove(s.tmp));
            },
            _ => {},
        }
        assert(in_phase(next, file, first, after));
        steps_stay_in_phase(next, file, first, after, steps.drop_first());
    }
}

// ---------------------------------------------------------------------------
// Laws
// ---------------------------------------------------------------------------

/// However far saving got and whatever failed, the file holds the new content whole or is
/// the one that it was, and no other file but the one on its way was touched. Where
/// saving ended without a failure, the file holds the new content with the mode asked
/// for, and nothing is left of the one on its way.
pub proof fn file_is_replaced_whole(
    path: Seq<u8>,
    tmp: Seq<u8>,
    sync_dir: bool,
    file: FileState,
    disk: Map<Seq<u8>, FileState>,
    steps: Seq<(Result<(), Seq<char>>, Map<Seq<u8>, FileState>)>,
)
    requires
        path != tmp,
        can_run(unsaved(path, tmp, file.mode, sync_dir), file.content, disk, steps),
    ensures
        ({
            let (end, left) = run_to(unsaved(path, tmp, file.mode, sync_dir), disk, steps);
            let replaced = with_replaced(disk, path, tmp, file);
            &&& left == replaced || left.remove(tmp) == disk.remove(tmp)
            &&& end.phase == SavePhase::Finished && end.error is None ==> left == replaced
        }),
{
    let s = unsaved(path, tmp, file.mode, sync_dir);
    steps_stay_in_phase(s, file, disk, disk, steps);
    let (end, left) = run_to(s, disk, steps);
    if end.phase == SavePhase::Rename {
        assert(left.remove(tmp) =~= disk.remove(tmp));
    }
}

/// A failure to write or to rename leaves the file as it was.
pub proof fn failed_save_changes_nothing(
    path: Seq<u8>,
    tmp: Seq<u8>,
    sync_dir: bool,
    file: FileState,
    disk: Map<Seq<u8>, FileState>,
    steps: Seq<(Result<(), Seq<char>>, Map<Seq<u8>, FileState>)>,
)
    requires
        path != tmp,
        can_run(unsaved(path, tmp, file.mode, sync_dir), file.content, disk, steps),
        steps.len() >= 1,
        steps[0].0 is Err || (steps.len() >= 2 && steps[1].0 is Err),
    ensures
        ({
            let (end, left) = run_to(unsaved(path, tmp, file.mode, sync_dir), disk, steps);
            &&& end.phase == SavePhase::Finished && end.error is Some
            &&& left.remove(tmp) == disk.remove(tmp)
        }),
{
    let s = unsaved(path, tmp, file.mode, sync_dir);
    let rest = steps.drop_first();
    if steps[0].0 is Err {
        nothing_after_the_end(save_step(s, steps[0].0), file.content, steps[0].1, rest);
    } else {
        let renaming = save_step(s, steps[0].0);
        let failed = save_step(renaming, rest[0].0);
        assert(rest[0] == steps[1]);
        assert(can_run(renaming, file.content, steps[0].1, rest));
        assert(rest[0].1.remove(tmp) =~= disk.remove(tmp));
        nothing_after_the_end(failed, file.content, rest[0].1, rest.drop_first());
        assert(run_to(renaming, steps[0].1, rest) == (failed, rest[0].1));
    }
}

proof fn nothing_after_the_end(
    s: SavingView,
    content: Seq<u8>,
    disk: Map<Seq<u8>, FileState>,
    steps: Seq<(Result<(), Seq<char>>, Map<Seq<u8>, FileState>)>,
)
    requires
        s.phase == SavePhase::Finished,
        can_run(s, content, disk, steps),
    ensures
        run_to(s, disk, steps) == (s, disk),
    decreases steps.len(),
{
    if steps.len() > 0 {
        nothing_after_the_end(s, content, steps[0].1, steps.drop_first());
    }
}

/// How many phases are left at most.
pub open spec fn save_phases_left(phase: SavePhase) -> nat {
    match phase {
        SavePhase::Write => 3,
        SavePhase::Rename => 2,
        SavePhase::SyncDir => 1,
        SavePhase::Finished => 0,
    }
}

/// Saving comes to an end.
pub proof fn saving_ends(s: SavingView, outcome: Result<(), Seq<char>>)
    requires
        s.phase != SavePhase::Finished,
    ensures
        save_phases_left(save_step(s, outcome).phase) < save_phases_left(s.phase),
{
}

/// Saving writes the new file, renames it, and flushes the directory just where that is
/// asked for; then it is finished without a failure.
pub proof fn successful_save_takes_its_phases(path: Seq<u8>, tmp: Seq<u8>, mode: u32, sync_dir: bool)
    ensures
        ({
            let s = unsaved(path, tmp, mode, sync_dir);
            let written = save_step(s, Ok(()));
            let renamed = save_step(written, Ok(()));
            let flushed = save_step(renamed, Ok(()));
            &&& s.phase == SavePhase::Write && s.error is None
            &&& s.path == path && s.tmp == tmp && s.mode == mode
            &&& written.phase == SavePhase::Rename && written.error is None
            &&& written.path == path && written.tmp == tmp
            &&& renamed.phase == SavePhase::SyncDir <==> sync_dir
            &&& renamed.phase == SavePhase::Finished <==> !sync_dir
            &&& flushed.phase == SavePhase::Finished && flushed.error is None
        }),
{
}

/// A phase that fails is the last one, and its failure is the one that is reported.
pub proof fn first_failure_is_reported(s: SavingView, why: Seq<char>, later: Result<(), Seq<char>>)
    requires
        s.phase != SavePhase::Finished,
    ensures
        ({
            let failed = save_step(s, Err(why));
            &&& failed.phase == SavePhase::Finished
            &&& failed.error == Some(why)
            &&& save_step(failed, later) == failed
        }),
{
}

} // verus!
