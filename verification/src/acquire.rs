//! Acquiring one block: look for it, check it, fetch it, try again.
//!
//! The work on a block goes in attempts. Each attempt first looks at the
//! destination: a file that is already there is kept if hashes are not to be
//! checked, or if its digest is the announced one. Otherwise the block is
//! fetched from the address the mirror policy gives for the attempt. A
//! failed attempt has its partial file removed and uses up one unit of the
//! budget; when the budget is used up the block has failed. What a fetch
//! has brought is taken as it came: only a file found at the destination is
//! held against the announced digest.
//!
//! [`Acquisition`] holds where the work stands. It touches neither the file
//! system nor the network: [`MetadataBlock::download`] is told what was found
//! or done and answers with what to do next.
use vstd::prelude::*;
use crate::digest::sha1_hex;
use crate::digest::sha1_hex_of;
use crate::manifest::MetadataBlock;
use crate::mirror::mirror_url;

verus! {

/// How the work on a block ended.
#[derive(Clone, Copy, Debug, PartialEq, Eq, Structural)]
pub enum BlockOutcome {
    /// The block was fetched and written in full.
    Verified,
    /// A file was there already and was kept unchecked.
    SkippedExisting,
    /// A file was there already and had the announced digest.
    SkippedHashMatch,
    /// Every attempt the budget allowed has failed.
    FailedExhausted,
}

/// Where the work on a block stands.
#[derive(Clone, Copy, Debug, PartialEq, Eq, Structural)]
pub enum Phase {
    /// Waiting to hear whether a file is at the destination.
    Probing,
    /// Waiting for the digest of the file at the destination.
    Hashing,
    /// Waiting for the fetch to end.
    Fetching,
    /// Waiting for the partial file to be removed.
    Discarding,
    /// Ended, with this outcome.
    Done(BlockOutcome),
    /// Never begun: the budget allowed no attempt.
    Idle,
}

/// What the caller found or did.
#[derive(Clone, Debug, PartialEq, Eq)]
pub enum Event {
    /// No file is at the destination.
    Absent,
    /// A file is at the destination.
    Present,
    /// The file at the destination has this hex digest.
    Hashed(String),
    /// The file at the destination could not be read.
    Unreadable,
    /// The block was fetched and written in full.
    Fetched,
    /// Fetching, extracting or writing the block failed.
    Failed,
    /// The file at the destination was removed.
    Discarded,
}

impl Event {
    /// The report that the file at the destination holds `content`: it says
    /// which digest the content has.
    pub fn hashed(content: &[u8]) -> (event: Event)
        ensures
            event matches Event::Hashed(digest) && digest@ == sha1_hex_of(content@),
    {
        Event::Hashed(sha1_hex(content))
    }
}

/// What the caller is to do next.
#[derive(Clone, Debug, PartialEq, Eq)]
pub enum Action {
    /// Look whether a file is at the destination; answer `Absent` or `Present`.
    Probe,
    /// Read the file at the destination; answer `Hashed` or `Unreadable`.
    Hash,
    /// Fetch the image at this address and extract its payload into the
    /// destination; answer `Fetched` or `Failed`.
    Fetch(String),
    /// Remove the file at the destination; answer `Discarded`.
    Discard,
    /// Stop: the work on the block has ended with this outcome.
    Finish(BlockOutcome),
    /// Stop: there is nothing to do and nothing to report.
    Idle,
}

/// An action as plain values.
pub enum ActionView {
    Probe,
    Hash,
    Fetch(Seq<char>),
    Discard,
    Finish(BlockOutcome),
    Idle,
}

impl View for Action {
    type V = ActionView;

    open spec fn view(&self) -> ActionView {
        match self {
            Action::Probe => ActionView::Probe,
            Action::Hash => ActionView::Hash,
            Action::Fetch(url) => ActionView::Fetch(url@),
            Action::Discard => ActionView::Discard,
            Action::Finish(outcome) => ActionView::Finish(*outcome),
            Action::Idle => ActionView::Idle,
        }
    }
}

/// The state of an acquisition as plain values.
pub struct AcquisitionView {
    /// The number of attempts allowed in all.
    pub budget: nat,
    /// The number of attempts that may still fail.
    pub left: nat,
    /// Whether a file found at the destination is kept unchecked.
    pub skip_hash: bool,
    /// Where the work stands.
    pub phase: Phase,
}

/// The state before anything was done.
pub open spec fn initial(budget: nat, skip_hash: bool) -> AcquisitionView {
    AcquisitionView {
        budget,
        left: budget,
        skip_hash,
        phase: if budget == 0 {
            Phase::Idle
        } else {
            Phase::Probing
        },
    }
}

/// The states that the work on a block can be in.
pub open spec fn valid(state: AcquisitionView) -> bool {
    &&& state.left <= state.budget
    &&& match state.phase {
        Phase::Probing | Phase::Hashing | Phase::Fetching => state.left > 0,
        Phase::Discarding => state.left < state.budget,
        Phase::Done(outcome) => state.budget > 0 && (outcome == BlockOutcome::FailedExhausted
            ==> state.left == 0),
        Phase::Idle => state.budget == 0,
    }
}

/// The number of the attempt that `state` is in, counted from 0: the number
/// of attempts that have failed.
pub open spec fn attempt_of(state: AcquisitionView) -> nat {
    (state.budget - state.left) as nat
}

/// The state after a failed attempt: one unit of the budget is gone and the
/// partial file is to be removed.
pub open spec fn after_failure(state: AcquisitionView) -> AcquisitionView {
    AcquisitionView { left: (state.left - 1) as nat, phase: Phase::Discarding, ..state }
}

/// The state that follows `state` when the caller reports `event`, for a
/// block whose announced digest is `declared`. An event that does not answer
/// what was asked changes nothing.
pub open spec fn advance(state: AcquisitionView, declared: Seq<char>, event: Event)
    -> AcquisitionView {
    match (state.phase, event) {
        (Phase::Probing, Event::Absent) => AcquisitionView { phase: Phase::Fetching, ..state },
        (Phase::Probing, Event::Present) => if state.skip_hash {
            AcquisitionView { phase: Phase::Done(BlockOutcome::SkippedExisting), ..state }
        } else {
            AcquisitionView { phase: Phase::Hashing, ..state }
        },
        (Phase::Hashing, Event::Hashed(digest)) => if digest@ == declared {
            AcquisitionView { phase: Phase::Done(BlockOutcome::SkippedHashMatch), ..state }
        } else {
            AcquisitionView { phase: Phase::Fetching, ..state }
        },
        (Phase::Hashing, Event::Unreadable) => after_failure(state),
        (Phase::Fetching, Event::Fetched) => AcquisitionView {
            phase: Phase::Done(BlockOutcome::Verified),
            ..state
        },
        (Phase::Fetching, Event::Failed) => after_failure(state),
        (Phase::Discarding, Event::Discarded) => if state.left > 0 {
            AcquisitionView { phase: Phase::Probing, ..state }
        } else {
            AcquisitionView { phase: Phase::Done(BlockOutcome::FailedExhausted), ..state }
        },
        _ => state,
    }
}

/// What the caller is to do in `state`, for a block announced under `base`.
pub open spec fn pending(state: AcquisitionView, base: Seq<char>) -> ActionView {
    match state.phase {
        Phase::Probing => ActionView::Probe,
        Phase::Hashing => ActionView::Hash,
        Phase::Fetching => ActionView::Fetch(mirror_url(base, attempt_of(state))),
        Phase::Discarding => ActionView::Discard,
        Phase::Done(outcome) => ActionView::Finish(outcome),
        Phase::Idle => ActionView::Idle,
    }
}

/// The state after the caller has reported `events` one after another.
pub open spec fn run(state: AcquisitionView, declared: Seq<char>, events: Seq<Event>)
    -> AcquisitionView
    decreases events.len(),
{
    if events.len() == 0 {
        state
    } else {
        advance(run(state, declared, events.drop_last()), declared, events.last())
    }
}

/// How many fetches the caller is asked for while it reports `events`.
pub open spec fn fetches(state: AcquisitionView, declared: Seq<char>, events: Seq<Event>) -> nat
    decreases events.len(),
{
    if events.len() == 0 {
        0
    } else {
        let before = run(state, declared, events.drop_last());
        let after = advance(before, declared, events.last());
        let asked: nat = if after.phase == Phase::Fetching && before.phase != Phase::Fetching {
            1
        } else {
            0
        };
        fetches(state, declared, events.drop_last()) + asked
    }
}

/// How many more fetches `state` can lead to.
pub open spec fn allowance(state: AcquisitionView) -> nat {
    match state.phase {
        Phase::Probing | Phase::Hashing | Phase::Discarding => state.left,
        Phase::Fetching => (state.left - 1) as nat,
        Phase::Done(_) | Phase::Idle => 0,
    }
}

/// Whatever the caller reports, the work stays in a state it can be in.
pub proof fn lemma_advance_valid(state: AcquisitionView, declared: Seq<char>, event: Event)
    requires
        valid(state),
    ensures
        valid(advance(state, declared, event)),
        advance(state, declared, event).budget == state.budget,
        advance(state, declared, event).skip_hash == state.skip_hash,
        advance(state, declared, event).left <= state.left,
{
}

/// Work that has ended stays ended: no event leads out of `Done` or `Idle`.
pub proof fn lemma_ended_stays_ended(state: AcquisitionView, declared: Seq<char>, event: Event)
    requires
        state.phase is Done || state.phase is Idle,
    ensures
        advance(state, declared, event) == state,
{
}

/// A file that is at the destination and has the announced digest is kept:
/// whenever an attempt finds it, the work ends with `SkippedHashMatch` and no
/// fetch is asked for, however often the work is begun anew.
pub proof fn lemma_matching_file_is_kept(
    state: AcquisitionView,
    declared: Seq<char>,
    digest: String,
)
    requires
        state.phase == Phase::Probing,
        !state.skip_hash,
        digest@ == declared,
    ensures
        advance(state, declared, Event::Present).phase == Phase::Hashing,
        run(state, declared, seq![Event::Present, Event::Hashed(digest)]).phase == Phase::Done(
            BlockOutcome::SkippedHashMatch,
        ),
        fetches(state, declared, seq![Event::Present, Event::Hashed(digest)]) == 0,
{
    let events = seq![Event::Present, Event::Hashed(digest)];
    assert(run(state, declared, events.drop_last().drop_last()) == state);
    assert(run(state, declared, events.drop_last()) == advance(state, declared, Event::Present));
    assert(fetches(state, declared, events.drop_last().drop_last()) == 0);
    assert(fetches(state, declared, events.drop_last()) == 0);
}

/// Where hashes are not checked, a file that is at the destination is kept
/// as it is: the work ends with `SkippedExisting` and no fetch is asked for.
pub proof fn lemma_existing_file_is_trusted(state: AcquisitionView, declared: Seq<char>)
    requires
        state.phase == Phase::Probing,
        state.skip_hash,
    ensures
        run(state, declared, seq![Event::Present]).phase == Phase::Done(
            BlockOutcome::SkippedExisting,
        ),
        fetches(state, declared, seq![Event::Present]) == 0,
{
    let events = seq![Event::Present];
    assert(run(state, declared, events.drop_last()) == state);
    assert(fetches(state, declared, events.drop_last()) == 0);
}

/// The state reached by any events from a state the work can be in is again
/// one, and the fetches asked for on the way are covered by what the budget
/// had left.
pub proof fn lemma_fetches_within_allowance(
    state: AcquisitionView,
    declared: Seq<char>,
    events: Seq<Event>,
)
    requires
        valid(state),
    ensures
        valid(run(state, declared, events)),
        run(state, declared, events).budget == state.budget,
        fetches(state, declared, events) + allowance(run(state, declared, events)) <= allowance(
            state,
        ),
    decreases events.len(),
{
    if events.len() > 0 {
        lemma_fetches_within_allowance(state, declared, events.drop_last());
        lemma_advance_valid(run(state, declared, events.drop_last()), declared, events.last());
    }
}

/// Whatever happens, a block is fetched at most as often as its budget says,
/// and it has failed only when the whole budget is used up.
pub proof fn lemma_budget_bounds_fetches(
    budget: nat,
    skip_hash: bool,
    declared: Seq<char>,
    events: Seq<Event>,
)
    ensures
        fetches(initial(budget, skip_hash), declared, events) <= budget,
        run(initial(budget, skip_hash), declared, events).phase == Phase::Done(
            BlockOutcome::FailedExhausted,
        ) ==> run(initial(budget, skip_hash), declared, events).left == 0,
{
    lemma_fetches_within_allowance(initial(budget, skip_hash), declared, events);
}

/// The work on one block: its budget and where it stands. Every value of
/// this type is in a state that [`valid`] admits, and each of its functions
/// says so of the value it is given or leaves behind.
pub struct Acquisition {
    budget: u32,
    left: u32,
    skip_hash: bool,
    phase: Phase,
}

impl View for Acquisition {
    type V = AcquisitionView;

    closed spec fn view(&self) -> AcquisitionView {
        AcquisitionView {
            budget: self.budget as nat,
            left: self.left as nat,
            skip_hash: self.skip_hash,
            phase: self.phase,
        }
    }
}

impl Acquisition {
    #[verifier::type_invariant]
    spec fn inv(&self) -> bool {
        valid(self@)
    }

    /// Work that may fail `budget` times before the block has failed. With
    /// `skip_hash`, a file found at the destination is kept unchecked. With
    /// a budget of 0 there is nothing to do.
    pub fn start(budget: u32, skip_hash: bool) -> (task: Self)
        ensures
            task@ == initial(budget as nat, skip_hash),
            valid(task@),
    {
        let phase = if budget == 0 {
            Phase::Idle
        } else {
            Phase::Probing
        };
        Acquisition { budget, left: budget, skip_hash, phase }
    }

    /// The number of attempts allowed in all.
    pub fn budget(&self) -> (budget: u32)
        ensures
            budget == self@.budget,
            valid(self@),
    {
        proof {
            use_type_invariant(self);
        }
        self.budget
    }

    /// The number of attempts that have failed.
    pub fn failures(&self) -> (failures: u32)
        ensures
            failures == attempt_of(self@),
            valid(self@),
    {
        proof {
            use_type_invariant(self);
        }
        self.budget - self.left
    }

    /// Where the work stands.
    pub fn phase(&self) -> (phase: Phase)
        ensures
            phase == self@.phase,
            valid(self@),
    {
        proof {
            use_type_invariant(self);
        }
        self.phase
    }

    /// How the work ended, if it has ended with something to report.
    pub fn outcome(&self) -> (outcome: Option<BlockOutcome>)
        ensures
            outcome == match self@.phase {
                Phase::Done(ended) => Some(ended),
                _ => None,
            },
            valid(self@),
    {
        proof {
            use_type_invariant(self);
        }
        match self.phase {
            Phase::Done(ended) => Some(ended),
            _ => None,
        }
    }

    /// What the caller is to do now for `block`.
    pub fn action(&self, block: &MetadataBlock) -> (action: Action)
        ensures
            action@ == pending(self@, block@.url),
            valid(self@),
    {
        proof {
            use_type_invariant(self);
        }
        match self.phase {
            Phase::Probing => Action::Probe,
            Phase::Hashing => Action::Hash,
            Phase::Fetching => Action::Fetch(block.candidate_url(self.budget - self.left)),
            Phase::Discarding => Action::Discard,
            Phase::Done(outcome) => Action::Finish(outcome),
            Phase::Idle => Action::Idle,
        }
    }
}

impl MetadataBlock {
    /// Takes what the caller reports on the work `task` for this block and
    /// answers with what to do next.
    pub fn download(&self, task: &mut Acquisition, event: Event) -> (action: Action)
        ensures
            final(task)@ == advance(old(task)@, self@.sha1, event),
            action@ == pending(final(task)@, self@.url),
            valid(old(task)@),
            valid(final(task)@),
    {
        proof {
            use_type_invariant(&*task);
            lemma_advance_valid(task@, self@.sha1, event);
        }
        let left: u32 = task.left;
        let (left, phase): (u32, Phase) = match (task.phase, event) {
            (Phase::Probing, Event::Absent) => (left, Phase::Fetching),
            (Phase::Probing, Event::Present) => if task.skip_hash {
                (left, Phase::Done(BlockOutcome::SkippedExisting))
            } else {
                (left, Phase::Hashing)
            },
            (Phase::Hashing, Event::Hashed(digest)) => if self.has_digest(digest.as_str()) {
                (left, Phase::Done(BlockOutcome::SkippedHashMatch))
            } else {
                (left, Phase::Fetching)
            },
            (Phase::Hashing, Event::Unreadable) | (Phase::Fetching, Event::Failed) => (
                left - 1,
                Phase::Discarding,
            ),
            (Phase::Fetching, Event::Fetched) => (left, Phase::Done(BlockOutcome::Verified)),
            (Phase::Discarding, Event::Discarded) => if left > 0 {
                (left, Phase::Probing)
            } else {
                (left, Phase::Done(BlockOutcome::FailedExhausted))
            },
            (phase, _) => (left, phase),
        };
        *task = Acquisition { budget: task.budget, left, skip_hash: task.skip_hash, phase };
        task.action(self)
    }
}

} // verus!
