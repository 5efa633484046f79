//! Checkpoint stages of the active compaction window.
//!
//! A stage covers a prefix of the history and holds the summary of the part of that prefix which
//! was recorded after the stage before it. Each stage is attempted at most once per window. When
//! the history is rewritten underneath a stage, that stage and the later ones no longer count.

use std::sync::Arc;

use tokio_util::task::AbortOnDropHandle;
use vstd::prelude::*;

use crate::items;
use crate::items::{is_prefix, ResponseItemEnvelope};

verus! {

/// A completed checkpoint stage: the history prefix it covers and the summary of the part of
/// that prefix recorded after the previous stage.
#[derive(Debug, PartialEq)]
pub struct CompactionCheckpoint {
    /// Exact history items covered so far, oldest first, those of earlier stages among them.
    pub prefix: Arc<Vec<ResponseItemEnvelope>>,
    /// What the model said about this stage's span.
    pub summary: String,
}

/// What a `CompactionCheckpoint` holds.
pub struct CheckpointModel {
    pub prefix: Seq<items::EnvelopeModel>,
    pub summary: Seq<char>,
}

impl View for CompactionCheckpoint {
    type V = CheckpointModel;

    open spec fn view(&self) -> CheckpointModel {
        CheckpointModel { prefix: items::item_models(self.prefix@), summary: self.summary@ }
    }
}

impl Clone for CompactionCheckpoint {
    fn clone(&self) -> (copy: CompactionCheckpoint)
        ensures
            copy == *self,
    {
        CompactionCheckpoint { prefix: self.prefix.clone(), summary: self.summary.clone() }
    }
}

/// A handle to a task that is aborted when the handle is dropped. Nothing is known of it but
/// that it is there.
#[verifier::external_type_specification]
#[verifier::external_body]
#[verifier::reject_recursive_types(T)]
pub struct ExAbortOnDropHandle<T>(tokio_util::task::AbortOnDropHandle<T>);

/// Why a task ended without a result. Nothing is known of it.
#[verifier::external_type_specification]
#[verifier::external_body]
pub struct ExJoinError(tokio::task::JoinError);

/// What a list of checkpoints holds.
pub open spec fn checkpoint_models(list: Seq<CompactionCheckpoint>) -> Seq<CheckpointModel> {
    Seq::new(list.len(), |i: int| list[i]@)
}

/// How many items the stages cover: those that the last one covers.
pub open spec fn covered(stages: Seq<CheckpointModel>) -> nat {
    if stages.len() == 0 {
        0
    } else {
        stages.last().prefix.len()
    }
}

/// Whether `checkpoint` still describes what `history` starts with.
pub open spec fn fresh(checkpoint: CheckpointModel, history: Seq<items::EnvelopeModel>) -> bool {
    items::starts_with(history, checkpoint.prefix)
}

/// How many stages, from the first one on, still describe what `history` starts with.
pub open spec fn fresh_count(
    stages: Seq<CheckpointModel>,
    history: Seq<items::EnvelopeModel>,
) -> nat
    decreases stages.len(),
{
    if stages.len() > 0 && fresh(stages[0], history) {
        1 + fresh_count(stages.skip(1), history)
    } else {
        0
    }
}

/// The stages up to the first stale one.
pub open spec fn fresh_stages(
    stages: Seq<CheckpointModel>,
    history: Seq<items::EnvelopeModel>,
) -> Seq<CheckpointModel> {
    stages.take(fresh_count(stages, history) as int)
}

/// The bookkeeping of one window.
pub struct CheckpointLog {
    /// The window that the rest is about.
    pub window: Option<u64>,
    /// The highest stage attempted in this window.
    pub attempted: Option<usize>,
    /// The capture in flight, if there is one.
    pub running: Option<AbortOnDropHandle<()>>,
    /// The completed stages, oldest first.
    pub completed: Seq<CheckpointModel>,
}

impl CheckpointLog {
    /// The log before any window.
    pub open spec fn fresh_start() -> CheckpointLog {
        CheckpointLog { window: None, attempted: None, running: None, completed: Seq::empty() }
    }

    /// The log for `window`: this one if it is about that window, else one that starts over.
    pub open spec fn for_window(self, window: u64) -> CheckpointLog {
        if self.window == Some(window) {
            self
        } else {
            CheckpointLog { window: Some(window), ..CheckpointLog::fresh_start() }
        }
    }

    /// Whether `stage` may be attempted in `window`: no capture is in flight there, and neither
    /// this stage nor a later one has been attempted.
    pub open spec fn admits(self, window: u64, stage: usize) -> bool {
        let log = self.for_window(window);
        log.running is None && match log.attempted {
            Some(last) => last < stage,
            None => true,
        }
    }

    /// The log after a request to attempt `stage` in `window`.
    pub open spec fn after_reserve(self, window: u64, stage: usize) -> CheckpointLog {
        let log = self.for_window(window);
        if self.admits(window, stage) {
            CheckpointLog { attempted: Some(stage), ..log }
        } else {
            log
        }
    }

    /// The log once the capture behind `handle` is in flight.
    pub open spec fn after_begin(self, handle: AbortOnDropHandle<()>) -> CheckpointLog {
        CheckpointLog { running: Some(handle), ..self }
    }

    /// The log once a capture has ended, with the stage it completed if it did.
    pub open spec fn after_finish(self, stage: Option<CheckpointModel>) -> CheckpointLog {
        CheckpointLog {
            running: None,
            completed: match stage {
                Some(done) => self.completed.push(done),
                None => self.completed,
            },
            ..self
        }
    }

    /// The completed stages that still describe what `history` starts with.
    pub open spec fn ready(
        self,
        window: u64,
        history: Seq<items::EnvelopeModel>,
    ) -> Seq<CheckpointModel> {
        if self.window == Some(window) {
            fresh_stages(self.completed, history)
        } else {
            Seq::empty()
        }
    }
}

/// Per-session checkpoint bookkeeping for the active auto-compact window.
pub struct CompactionCheckpointState {
    window_number: Option<u64>,
    /// Highest stage attempted in this window; each stage runs at most once.
    attempted_stage: Option<usize>,
    /// In-flight capture; dropping the handle aborts it.
    running: Option<AbortOnDropHandle<()>>,
    /// Completed stages, oldest first.
    completed: Vec<CompactionCheckpoint>,
}

impl View for CompactionCheckpointState {
    type V = CheckpointLog;

    closed spec fn view(&self) -> CheckpointLog {
        CheckpointLog {
            window: self.window_number,
            attempted: self.attempted_stage,
            running: self.running,
            completed: checkpoint_models(self.completed@),
        }
    }
}

impl Default for CompactionCheckpointState {
    fn default() -> (state: CompactionCheckpointState)
        ensures
            state@ == CheckpointLog::fresh_start(),
    {
        let state = CompactionCheckpointState {
            window_number: None,
            attempted_stage: None,
            running: None,
            completed: Vec::new(),
        };
        assert(state@.completed =~= Seq::empty());
        state
    }
}

/// Copies the first `count` checkpoints; the history items are shared, not copied.
fn copy_checkpoints(list: &Vec<CompactionCheckpoint>, count: usize) -> (copy: Vec<
    CompactionCheckpoint,
>)
    requires
        count <= list@.len(),
    ensures
        copy@ == list@.take(count as int),
{
    let mut copy: Vec<CompactionCheckpoint> = Vec::new();
    let mut i: usize = 0;
    while i < count
        invariant
            i <= count <= list@.len(),
            copy@ == list@.take(i as int),
        decreases count - i,
    {
        copy.push(list[i].clone());
        i += 1;
        assert(copy@ =~= list@.take(i as int));
    }
    copy
}

/// Where the stages stop being fresh.
pub proof fn lemma_fresh_count(
    stages: Seq<CheckpointModel>,
    history: Seq<items::EnvelopeModel>,
    n: int,
)
    requires
        0 <= n <= stages.len(),
        forall|i: int| 0 <= i < n ==> fresh(#[trigger] stages[i], history),
        n < stages.len() ==> !fresh(stages[n], history),
    ensures
        fresh_count(stages, history) == n,
    decreases stages.len(),
{
    if n > 0 {
        assert(fresh(stages[0], history));
        let tail = stages.skip(1);
        assert forall|i: int| 0 <= i < n - 1 implies fresh(#[trigger] tail[i], history) by {
            assert(tail[i] == stages[i + 1]);
        }
        lemma_fresh_count(tail, history, n - 1);
    }
}

/// How many items the stages cover: those that the last one covers.
pub fn count_covered(stages: &[CompactionCheckpoint]) -> (count: usize)
    ensures
        count == covered(checkpoint_models(stages@)),
{
    if stages.len() == 0 {
        return 0;
    }
    let last = &stages[stages.len() - 1];
    assert(checkpoint_models(stages@).last() == last@);
    last.prefix.len()
}

impl CompactionCheckpointState {
    /// The handle of the capture in flight, if there is one.
    pub closed spec fn in_flight(&self) -> Option<AbortOnDropHandle<()>> {
        self.running
    }

    /// Reserves `stage` for this window and returns the completed stages it builds on, or
    /// `None` when the stage was already attempted or another capture is in flight. A new window
    /// starts over.
    pub fn reserve(&mut self, window_number: u64, stage: usize) -> (prior: Option<
        Vec<CompactionCheckpoint>,
    >)
        ensures
            final(self)@ == old(self)@.after_reserve(window_number, stage),
            final(self).in_flight() == final(self)@.running,
            prior is Some <==> old(self)@.admits(window_number, stage),
            prior matches Some(stages) ==> checkpoint_models(stages@) == final(self)@.completed,
    {
        let current = match self.window_number {
            Some(number) => number == window_number,
            None => false,
        };
        if !current {
            self.reset();
            self.window_number = Some(window_number);
        }
        assert(self@ == old(self)@.for_window(window_number));
        let attempted = match self.attempted_stage {
            Some(last) => last >= stage,
            None => false,
        };
        if self.running.is_some() || attempted {
            return None;
        }
        self.attempted_stage = Some(stage);
        let prior = copy_checkpoints(&self.completed, self.completed.len());
        assert(prior@ =~= self.completed@);
        Some(prior)
    }

    /// Stores the in-flight capture so dropping the state aborts it. A capture that was in flight
    /// before is replaced.
    pub fn begin(&mut self, handle: AbortOnDropHandle<()>)
        ensures
            final(self)@ == old(self)@.after_begin(handle),
            final(self).in_flight() == Some(handle),
    {
        self.running = Some(handle);
    }

    /// Ends the capture and records the stage it completed, if it did.
    pub fn finish(&mut self, checkpoint: Option<CompactionCheckpoint>)
        ensures
            final(self)@ == old(self)@.after_finish(
                match checkpoint {
                    Some(done) => Some(done@),
                    None => None,
                },
            ),
            final(self).in_flight() is None,
    {
        self.running = None;
        if let Some(checkpoint) = checkpoint {
            let ghost before = checkpoint_models(self.completed@);
            let ghost added = checkpoint@;
            self.completed.push(checkpoint);
            assert(checkpoint_models(self.completed@) =~= before.push(added));
        }
    }

    /// Returns the completed stages that still describe a prefix of `history`, oldest first.
    pub fn ready_for(&self, window_number: u64, history: &[ResponseItemEnvelope]) -> (stages: Vec<
        CompactionCheckpoint,
    >)
        ensures
            checkpoint_models(stages@) == self@.ready(
                window_number,
                items::item_models(history@),
            ),
    {
        let current = match self.window_number {
            Some(number) => number == window_number,
            None => false,
        };
        if !current {
            let none: Vec<CompactionCheckpoint> = Vec::new();
            assert(checkpoint_models(none@) =~= Seq::empty());
            return none;
        }
        let ghost h = items::item_models(history@);
        let ghost all = checkpoint_models(self.completed@);
        let mut n: usize = 0;
        while n < self.completed.len() && is_prefix(self.completed[n].prefix.as_slice(), history)
            invariant
                h == items::item_models(history@),
                all == checkpoint_models(self.completed@),
                n <= self.completed@.len(),
                forall|i: int| 0 <= i < n ==> fresh(#[trigger] all[i], h),
            decreases self.completed@.len() - n,
        {
            assert(all[n as int] == self.completed@[n as int]@);
            n += 1;
        }
        proof {
            if n < self.completed@.len() {
                assert(all[n as int] == self.completed@[n as int]@);
            }
            lemma_fresh_count(all, h, n as int);
        }
        let stages = copy_checkpoints(&self.completed, n);
        assert(checkpoint_models(stages@) =~= all.take(n as int));
        stages
    }

    /// Whether a stage has been completed in this window.
    pub fn has_completed(&self) -> (yes: bool)
        ensures
            yes == (self@.completed.len() > 0),
    {
        !self.completed.is_empty()
    }

    /// Forgets the window and everything in it; a capture in flight is aborted.
    pub fn reset(&mut self)
        ensures
            final(self)@ == CheckpointLog::fresh_start(),
            final(self).in_flight() is None,
    {
        *self = CompactionCheckpointState::default();
    }
}

} // verus!
