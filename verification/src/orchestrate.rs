//! The run as a whole: what is done in which order, and when it is given up.
//!
//! A run loads the manifest, checks that the file to be written does not
//! exist yet, prepares the directory of block files, has every block
//! acquired, and merges the blocks only if none of them has failed. The
//! blocks are worked on side by side and all of them to the end; what they
//! share is one flag, raised by the first block that fails.
use vstd::prelude::*;
use vstd::string::StringExecFns;
use crate::acquire::BlockOutcome;

verus! {

/// Whether one of `outcomes` is a failure.
pub open spec fn any_failed(outcomes: Seq<BlockOutcome>) -> bool {
    exists|i: int| 0 <= i < outcomes.len() && outcomes[i] == BlockOutcome::FailedExhausted
}

/// The flag after `outcomes` have been noted one after another, starting
/// from `raised`.
pub open spec fn flag_after(raised: bool, outcomes: Seq<BlockOutcome>) -> bool
    decreases outcomes.len(),
{
    if outcomes.len() == 0 {
        raised
    } else {
        flag_after(raised, outcomes.drop_last()) || outcomes.last()
            == BlockOutcome::FailedExhausted
    }
}

/// The flag is raised exactly when one of the outcomes noted is a failure,
/// in whatever order they come.
pub proof fn lemma_flag_tells_failure(raised: bool, outcomes: Seq<BlockOutcome>)
    ensures
        flag_after(raised, outcomes) == (raised || any_failed(outcomes)),
    decreases outcomes.len(),
{
    if outcomes.len() > 0 {
        let front = outcomes.drop_last();
        lemma_flag_tells_failure(raised, front);
        if any_failed(front) {
            let i = choose|i: int| 0 <= i < front.len() && front[i] == BlockOutcome::FailedExhausted;
            assert(outcomes[i] == BlockOutcome::FailedExhausted);
        }
        if outcomes.last() == BlockOutcome::FailedExhausted {
            assert(outcomes[outcomes.len() - 1] == BlockOutcome::FailedExhausted);
        }
        if any_failed(outcomes) {
            let i = choose|i: int|
                0 <= i < outcomes.len() && outcomes[i] == BlockOutcome::FailedExhausted;
            if i < front.len() {
                assert(front[i] == BlockOutcome::FailedExhausted);
            }
        }
    }
}

/// The flag does not depend on the order in which the blocks end: outcomes
/// that are the same but for their order raise it alike.
pub proof fn lemma_flag_ignores_order(first: Seq<BlockOutcome>, second: Seq<BlockOutcome>)
    requires
        first.to_multiset() == second.to_multiset(),
    ensures
        flag_after(false, first) == flag_after(false, second),
{
    lemma_flag_tells_failure(false, first);
    lemma_flag_tells_failure(false, second);
    first.to_multiset_ensures();
    second.to_multiset_ensures();
    if any_failed(first) {
        let i = choose|i: int| 0 <= i < first.len() && first[i] == BlockOutcome::FailedExhausted;
        assert(first.contains(first[i]));
        assert(first.to_multiset().count(BlockOutcome::FailedExhausted) > 0);
        assert(second.to_multiset().count(BlockOutcome::FailedExhausted) > 0);
        assert(second.contains(BlockOutcome::FailedExhausted));
    }
    if any_failed(second) {
        let i = choose|i: int| 0 <= i < second.len() && second[i] == BlockOutcome::FailedExhausted;
        assert(second.contains(second[i]));
        assert(second.to_multiset().count(BlockOutcome::FailedExhausted) > 0);
        assert(first.to_multiset().count(BlockOutcome::FailedExhausted) > 0);
        assert(first.contains(BlockOutcome::FailedExhausted));
    }
}

/// The flag that the blocks of a run share. Its view tells whether it is
/// raised.
pub struct FailureFlag {
    raised: bool,
}

impl View for FailureFlag {
    type V = bool;

    closed spec fn view(&self) -> bool {
        self.raised
    }
}

impl FailureFlag {
    /// A flag that is not raised.
    pub fn new() -> (flag: Self)
        ensures
            !flag@,
    {
        FailureFlag { raised: false }
    }

    /// Notes how the work on one block ended: a failure raises the flag, and
    /// nothing lowers it.
    pub fn note(&mut self, outcome: BlockOutcome)
        ensures
            final(self)@ == (old(self)@ || outcome == BlockOutcome::FailedExhausted),
    {
        if outcome == BlockOutcome::FailedExhausted {
            self.raised = true;
        }
    }

    /// Whether a block has failed.
    pub fn is_raised(&self) -> (raised: bool)
        ensures
            raised == self@,
    {
        self.raised
    }
}

/// Whether one of `outcomes` is a failure.
pub fn failed(outcomes: &Vec<BlockOutcome>) -> (raised: bool)
    ensures
        raised == any_failed(outcomes@),
{
    let mut flag = FailureFlag::new();
    let mut i: usize = 0;
    while i < outcomes.len()
        invariant
            i <= outcomes@.len(),
            flag@ == flag_after(false, outcomes@.take(i as int)),
        decreases outcomes@.len() - i,
    {
        flag.note(outcomes[i]);
        assert(outcomes@.take(i + 1).drop_last() =~= outcomes@.take(i as int));
        i += 1;
    }
    proof {
        assert(outcomes@.take(i as int) =~= outcomes@);
        lemma_flag_tells_failure(false, outcomes@);
    }
    flag.is_raised()
}

/// Why a run was given up.
#[derive(Clone, Copy, Debug, PartialEq, Eq, Structural)]
pub enum RunError {
    /// The manifest could not be fetched or read.
    NoManifest,
    /// The file to be written exists already.
    OutputExists,
    /// A block has failed.
    BlocksFailed,
    /// The file system refused something.
    Io,
}

/// What the user is told when the file to be written exists already.
pub open spec fn conflict_text(filename: Seq<char>) -> Seq<char> {
    "File "@ + filename + " exists, aborted."@
}

/// What the user is told when the file `filename` exists already.
pub fn conflict_message(filename: &str) -> (text: String)
    ensures
        text@ == conflict_text(filename@),
{
    let mut text = "File ".to_owned();
    text.append(filename);
    text.append(" exists, aborted.");
    text
}

/// What the user is told when blocks have failed: to run the program again,
/// which fetches only the blocks that are still missing.
pub fn failure_advice() -> (text: &'static str)
    ensures
        text@
            == "Failed to download some blocks. Please run bdex again to redownload those blocks."@,
{
    "Failed to download some blocks. Please run bdex again to redownload those blocks."
}

/// Where a run stands.
#[derive(Clone, Copy, Debug, PartialEq, Eq, Structural)]
pub enum RunPhase {
    /// Waiting for the manifest.
    LoadingManifest,
    /// Waiting to hear whether the file to be written exists.
    CheckingOutput,
    /// Waiting for the directory of block files.
    PreparingDirectory,
    /// Waiting for the work on all blocks to end.
    Acquiring,
    /// Waiting for the merge.
    Merging,
    /// Waiting for the block files to be removed.
    Cleaning,
    /// Ended: the file is written.
    Succeeded,
    /// Ended: given up.
    Aborted(RunError),
}

/// What the caller found or did.
#[derive(Clone, Copy, Debug, PartialEq, Eq, Structural)]
pub enum RunEvent {
    /// The manifest is at hand.
    ManifestLoaded,
    /// The manifest could not be fetched or read.
    ManifestFailed,
    /// The file to be written exists already.
    OutputExists,
    /// No file is in the way.
    OutputFree,
    /// The directory of block files is there.
    DirectoryReady,
    /// The work on every block has ended; the flag says whether one failed.
    BlocksSettled(bool),
    /// The blocks are merged into the file.
    Merged,
    /// The block files are removed.
    Cleaned,
    /// The file system refused what was asked.
    IoFailed,
}

/// What the caller is to do next.
#[derive(Clone, Copy, Debug, PartialEq, Eq, Structural)]
pub enum RunAction {
    /// Fetch the manifest and read it; answer `ManifestLoaded` or
    /// `ManifestFailed`.
    LoadManifest,
    /// Look whether the file to be written exists; answer `OutputExists` or
    /// `OutputFree`.
    CheckOutput,
    /// Make the directory of block files; answer `DirectoryReady`.
    PrepareDirectory,
    /// Have every block acquired and wait for all; answer `BlocksSettled`.
    AcquireBlocks,
    /// Merge the block files in the order of the manifest; answer `Merged`.
    Merge,
    /// Remove the block files; answer `Cleaned`.
    RemoveBlocks,
    /// Stop: the file is written.
    Succeed,
    /// Stop with this error.
    Abort(RunError),
}

/// A run: whether the block files are to be kept, and where it stands.
#[derive(Clone, Copy, Debug, PartialEq, Eq, Structural)]
pub struct Run {
    pub keep_files: bool,
    pub phase: RunPhase,
}

/// A run that has done nothing yet.
pub open spec fn run_begin(keep_files: bool) -> Run {
    Run { keep_files, phase: RunPhase::LoadingManifest }
}

/// The run that follows `run` when the caller reports `event`. A refusal by
/// the file system ends any run that has not ended; an event that does not
/// answer what was asked changes nothing.
pub open spec fn run_next(run: Run, event: RunEvent) -> Run {
    let phase = match (run.phase, event) {
        (RunPhase::Succeeded, _) => RunPhase::Succeeded,
        (RunPhase::Aborted(error), _) => RunPhase::Aborted(error),
        (_, RunEvent::IoFailed) => RunPhase::Aborted(RunError::Io),
        (RunPhase::LoadingManifest, RunEvent::ManifestLoaded) => RunPhase::CheckingOutput,
        (RunPhase::LoadingManifest, RunEvent::ManifestFailed) => RunPhase::Aborted(
            RunError::NoManifest,
        ),
        (RunPhase::CheckingOutput, RunEvent::OutputExists) => RunPhase::Aborted(
            RunError::OutputExists,
        ),
        (RunPhase::CheckingOutput, RunEvent::OutputFree) => RunPhase::PreparingDirectory,
        (RunPhase::PreparingDirectory, RunEvent::DirectoryReady) => RunPhase::Acquiring,
        (RunPhase::Acquiring, RunEvent::BlocksSettled(raised)) => if raised {
            RunPhase::Aborted(RunError::BlocksFailed)
        } else {
            RunPhase::Merging
        },
        (RunPhase::Merging, RunEvent::Merged) => if run.keep_files {
            RunPhase::Succeeded
        } else {
            RunPhase::Cleaning
        },
        (RunPhase::Cleaning, RunEvent::Cleaned) => RunPhase::Succeeded,
        (phase, _) => phase,
    };
    Run { keep_files: run.keep_files, phase }
}

/// What the caller is to do in `run`.
pub open spec fn run_pending(run: Run) -> RunAction {
    match run.phase {
        RunPhase::LoadingManifest => RunAction::LoadManifest,
        RunPhase::CheckingOutput => RunAction::CheckOutput,
        RunPhase::PreparingDirectory => RunAction::PrepareDirectory,
        RunPhase::Acquiring => RunAction::AcquireBlocks,
        RunPhase::Merging => RunAction::Merge,
        RunPhase::Cleaning => RunAction::RemoveBlocks,
        RunPhase::Succeeded => RunAction::Succeed,
        RunPhase::Aborted(error) => RunAction::Abort(error),
    }
}

/// The run after the caller has reported `events` one after another.
pub open spec fn run_after(run: Run, events: Seq<RunEvent>) -> Run
    decreases events.len(),
{
    if events.len() == 0 {
        run
    } else {
        run_next(run_after(run, events.drop_last()), events.last())
    }
}

/// Whether the run has come to the merge or past it.
pub open spec fn merge_begun(run: Run) -> bool {
    run.phase == RunPhase::Merging || run.phase == RunPhase::Cleaning || run.phase
        == RunPhase::Succeeded
}

/// Whether `events` has a report that all blocks are settled and none failed.
pub open spec fn settled_clean(events: Seq<RunEvent>) -> bool {
    exists|i: int| 0 <= i < events.len() && events[i] == RunEvent::BlocksSettled(false)
}

/// A run comes to the merge only on the report that every block is settled
/// and none has failed.
pub proof fn lemma_merge_needs_clean_blocks(keep_files: bool, events: Seq<RunEvent>)
    ensures
        merge_begun(run_after(run_begin(keep_files), events)) ==> settled_clean(events),
    decreases events.len(),
{
    if events.len() > 0 {
        let front = events.drop_last();
        lemma_merge_needs_clean_blocks(keep_files, front);
        if settled_clean(front) {
            let i = choose|i: int| 0 <= i < front.len() && front[i] == RunEvent::BlocksSettled(false);
            assert(events[i] == RunEvent::BlocksSettled(false));
        }
        if merge_begun(run_after(run_begin(keep_files), events)) && !settled_clean(front) {
            assert(events[events.len() - 1] == RunEvent::BlocksSettled(false));
        }
    }
}

/// If one block of a run has failed, whatever became of the others, the run
/// never comes to the merge: with the flag that these outcomes raise, no
/// report leads there.
pub proof fn lemma_failed_block_bars_merge(
    keep_files: bool,
    outcomes: Seq<BlockOutcome>,
    events: Seq<RunEvent>,
)
    requires
        any_failed(outcomes),
        forall|i: int|
            0 <= i < events.len() ==> (events[i] is BlocksSettled ==> events[i]
                == RunEvent::BlocksSettled(flag_after(false, outcomes))),
    ensures
        !merge_begun(run_after(run_begin(keep_files), events)),
        run_pending(run_after(run_begin(keep_files), events)) != RunAction::Merge,
{
    lemma_flag_tells_failure(false, outcomes);
    lemma_merge_needs_clean_blocks(keep_files, events);
    if settled_clean(events) {
        let i = choose|i: int| 0 <= i < events.len() && events[i] == RunEvent::BlocksSettled(false);
        assert(events[i] is BlocksSettled);
    }
}

/// A run that has ended stays as it is.
pub proof fn lemma_run_end_is_final(run: Run, event: RunEvent)
    requires
        run.phase is Succeeded || run.phase is Aborted,
    ensures
        run_next(run, event) == run,
{
}

impl Run {
    /// A run that has done nothing yet. With `keep_files` the block files
    /// stay after the merge.
    pub fn begin(keep_files: bool) -> (run: Self)
        ensures
            run == run_begin(keep_files),
    {
        Run { keep_files, phase: RunPhase::LoadingManifest }
    }

    /// What the caller is to do now.
    pub fn action(&self) -> (action: RunAction)
        ensures
            action == run_pending(*self),
    {
        match self.phase {
            RunPhase::LoadingManifest => RunAction::LoadManifest,
            RunPhase::CheckingOutput => RunAction::CheckOutput,
            RunPhase::PreparingDirectory => RunAction::PrepareDirectory,
            RunPhase::Acquiring => RunAction::AcquireBlocks,
            RunPhase::Merging => RunAction::Merge,
            RunPhase::Cleaning => RunAction::RemoveBlocks,
            RunPhase::Succeeded => RunAction::Succeed,
            RunPhase::Aborted(error) => RunAction::Abort(error),
        }
    }

    /// Takes what the caller reports and answers with what to do next.
    pub fn step(&mut self, event: RunEvent) -> (action: RunAction)
        ensures
            *final(self) == run_next(*old(self), event),
            action == run_pending(*final(self)),
    {
        let phase = match (self.phase, event) {
            (RunPhase::Succeeded, _) => RunPhase::Succeeded,
            (RunPhase::Aborted(error), _) => RunPhase::Aborted(error),
            (_, RunEvent::IoFailed) => RunPhase::Aborted(RunError::Io),
            (RunPhase::LoadingManifest, RunEvent::ManifestLoaded) => RunPhase::CheckingOutput,
            (RunPhase::LoadingManifest, RunEvent::ManifestFailed) => RunPhase::Aborted(
                RunError::NoManifest,
            ),
            (RunPhase::CheckingOutput, RunEvent::OutputExists) => RunPhase::Aborted(
                RunError::OutputExists,
            ),
            (RunPhase::CheckingOutput, RunEvent::OutputFree) => RunPhase::PreparingDirectory,
            (RunPhase::PreparingDirectory, RunEvent::DirectoryReady) => RunPhase::Acquiring,
            (RunPhase::Acquiring, RunEvent::BlocksSettled(raised)) => if raised {
                RunPhase::Aborted(RunError::BlocksFailed)
            } else {
                RunPhase::Merging
            },
            (RunPhase::Merging, RunEvent::Merged) => if self.keep_files {
                RunPhase::Succeeded
            } else {
                RunPhase::Cleaning
            },
            (RunPhase::Cleaning, RunEvent::Cleaned) => RunPhase::Succeeded,
            (phase, _) => phase,
        };
        self.phase = phase;
        self.action()
    }
}

} // verus!
