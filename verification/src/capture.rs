//! Capturing a checkpoint: what is asked of the model, and what becomes of the answer.
//!
//! A capture is a sequence of events from the outside (a stage is reached, the history is read,
//! the model answers or fails) and of decisions taken here. Nothing is recorded into the live
//! context; a failed stage is skipped and its span is covered by the next one or by the final
//! compaction.

use std::sync::Arc;

use vstd::prelude::*;
use vstd::string::*;

use crate::checkpoint;
use crate::checkpoint::{count_covered, CompactionCheckpoint, CompactionCheckpointState};
use crate::config;
use crate::config::Config;
use crate::items;
use crate::items::{ResponseItem, ResponseItemEnvelope};
use crate::merge_laws;
use crate::summaries;
use crate::summaries::concatenate_summaries;
use crate::text;
use crate::text::{numeral, trim};
use crate::text_laws;

verus! {

/// Upper bound for one checkpoint capture in seconds, including retries.
pub const CHECKPOINT_TIMEOUT_SECS: u64 = 1200;

/// The instructions for compaction: those of the settings, else the usual ones.
pub open spec fn instructions_of(config: config::ConfigModel, usual: Seq<char>) -> Seq<char> {
    match config.compact_prompt {
        Some(prompt) => prompt,
        None => usual,
    }
}

/// The instructions used for every local compaction request. `usual` are those for settings
/// without instructions of their own.
pub fn compaction_instructions(config: &Config, usual: &str) -> (out: String)
    ensures
        out@ == instructions_of(config@, usual@),
{
    match &config.compact_prompt {
        Some(prompt) => prompt.clone(),
        None => usual.to_owned(),
    }
}

/// What comes before the earlier summaries in the instructions for one slice.
pub const SLICE_FRAMING: &'static str =
    "You are summarizing ONE SLICE of this conversation. Checkpoint summaries of the earlier part of this conversation were already produced by previous compaction passes and are included below for reference only. They will be placed verbatim before your output in the handover, so do not repeat or restate them. Apply the instructions that follow them to the conversation items above this message, which are the portion recorded after the last checkpoint, and describe only what is new.\n\n";

/// The instructions for summarizing one slice.
pub open spec fn delta_instructions(
    prior_summary: Seq<char>,
    instructions: Seq<char>,
) -> Seq<char> {
    SLICE_FRAMING@ + "<earlier_slices>\n"@ + prior_summary + "\n</earlier_slices>"@ + "\n\n"@
        + instructions
}

/// Instructions for summarizing only the portion of history recorded after the checkpoints
/// whose combined summary is `prior_summary`.
pub fn delta_compaction_instructions(prior_summary: &str, instructions: &str) -> (out: String)
    ensures
        out@ == delta_instructions(prior_summary@, instructions@),
{
    let mut out = SLICE_FRAMING.to_owned();
    out.append("<earlier_slices>\n");
    out.append(prior_summary);
    out.append("\n</earlier_slices>");
    out.append("\n\n");
    out.append(instructions);
    out
}

/// The instructions for one slice embed the earlier summaries between their marks and end with
/// the instructions proper.
pub proof fn law_delta_instructions_embed_their_parts(
    prior_summary: Seq<char>,
    instructions: Seq<char>,
)
    ensures
        ({
            let out = delta_instructions(prior_summary, instructions);
            let marked = "<earlier_slices>\n"@ + prior_summary + "\n</earlier_slices>"@;
            &&& text::stands_at(SLICE_FRAMING@, out, 0)
            &&& text::stands_at(marked, out, SLICE_FRAMING@.len() as int)
            &&& text::stands_at(instructions, out, out.len() - instructions.len())
        }),
{
    let out = delta_instructions(prior_summary, instructions);
    let marked = "<earlier_slices>\n"@ + prior_summary + "\n</earlier_slices>"@;
    let f = SLICE_FRAMING@.len() as int;
    assert(out.subrange(0, f) =~= SLICE_FRAMING@);
    assert(out.subrange(f, f + marked.len()) =~= marked);
    assert(out.subrange(out.len() - instructions.len(), out.len() as int) =~= instructions);
}

/// The summaries of stages.
pub open spec fn stage_summaries(stages: Seq<checkpoint::CheckpointModel>) -> Seq<Seq<char>> {
    Seq::new(stages.len(), |i: int| stages[i].summary)
}

/// The combined summary of completed stages, in order.
pub open spec fn combined_summary(stages: Seq<checkpoint::CheckpointModel>) -> Seq<char> {
    summaries::concatenated(stage_summaries(stages))
}

/// The combined summary of completed stages, in order.
pub fn checkpoint_summary(checkpoints: &[CompactionCheckpoint]) -> (out: String)
    ensures
        out@ == combined_summary(checkpoint::checkpoint_models(checkpoints@)),
{
    let mut list: Vec<&str> = Vec::new();
    let ghost all = stage_summaries(checkpoint::checkpoint_models(checkpoints@));
    let mut i: usize = 0;
    while i < checkpoints.len()
        invariant
            all == stage_summaries(checkpoint::checkpoint_models(checkpoints@)),
            i <= checkpoints@.len(),
            list@.len() == i,
            forall|k: int| 0 <= k < i ==> (#[trigger] list@[k])@ == all[k],
        decreases checkpoints@.len() - i,
    {
        list.push(checkpoints[i].summary.as_str());
        i += 1;
    }
    assert(summaries::strs(list@) =~= all);
    concatenate_summaries(list.as_slice())
}

/// The handover is built up stage by stage: the combined summary of some stages followed by the
/// later ones is the combined summary of all.
pub proof fn law_combined_summaries_build_up(
    earlier: Seq<checkpoint::CheckpointModel>,
    later: Seq<checkpoint::CheckpointModel>,
)
    ensures
        combined_summary(earlier + later) == summaries::concatenated(
            seq![combined_summary(earlier), combined_summary(later)],
        ),
{
    assert(stage_summaries(earlier + later) =~= stage_summaries(earlier) + stage_summaries(later));
    summaries::law_concatenation_regroups(stage_summaries(earlier), stage_summaries(later));
}

/// Every completed stage stands in the combined summary with what its model said.
pub proof fn law_combined_summary_holds_each_stage(
    stages: Seq<checkpoint::CheckpointModel>,
    i: int,
)
    requires
        0 <= i < stages.len(),
    ensures
        text::occurs_in(text::trimmed(stages[i].summary), combined_summary(stages)),
{
    summaries::law_concatenation_holds_each_summary(stage_summaries(stages), i);
}

/// What a user puts in.
#[derive(Debug, PartialEq)]
pub enum UserInput {
    Text { text: String, text_elements: Vec<String> },
}

/// What the history of a compaction request is made from: items of the conversation, and the
/// instructions as the user's last word.
#[derive(Debug, PartialEq)]
pub struct CompactionHistory {
    pub items: Vec<ResponseItemEnvelope>,
    pub input: UserInput,
}

impl CompactionHistory {
    /// Whether the history holds exactly `items` and then `instructions`.
    pub open spec fn holds(
        self,
        items: Seq<items::EnvelopeModel>,
        instructions: Seq<char>,
    ) -> bool {
        &&& items::item_models(self.items@) == items
        &&& self.input matches UserInput::Text { text, text_elements }
        &&& text@ == instructions
        &&& text_elements@.len() == 0
    }
}

/// Builds a history containing only `items` plus the compaction instructions.
pub fn history_for_items(items: &[ResponseItemEnvelope], instructions: String) -> (history:
    CompactionHistory)
    ensures
        history.holds(items::item_models(items@), instructions@),
{
    let mut copy: Vec<ResponseItemEnvelope> = Vec::new();
    let ghost all = items::item_models(items@);
    let mut i: usize = 0;
    while i < items.len()
        invariant
            all == items::item_models(items@),
            i <= items@.len(),
            copy@.len() == i,
            forall|k: int| 0 <= k < i ==> (#[trigger] copy@[k]).deep_view() == all[k],
        decreases items@.len() - i,
    {
        copy.push(items[i].clone());
        i += 1;
    }
    assert(items::item_models(copy@) =~= all);
    CompactionHistory {
        items: copy,
        input: UserInput::Text { text: instructions, text_elements: Vec::new() },
    }
}

/// Whether the backend can compact on its own.
#[derive(Clone, Copy, Debug, PartialEq, Eq, Structural)]
pub enum RemoteCompactionSupport {
    Unsupported,
    Supported,
}

/// Whether checkpoints are of use: compaction runs on a provider of its own or locally. Remote
/// compaction never consumes them.
pub open spec fn checkpoints_apply(
    config: config::ConfigModel,
    remote: RemoteCompactionSupport,
) -> bool {
    config.compact_provider is Some || remote == RemoteCompactionSupport::Unsupported
}

/// Whether checkpoints are of use.
pub fn are_checkpoints_of_use(config: &Config, remote: RemoteCompactionSupport) -> (yes: bool)
    ensures
        yes == checkpoints_apply(config@, remote),
{
    config.compact_model_provider.is_some() || remote == RemoteCompactionSupport::Unsupported
}

/// A stage has been reached: reserves it unless it already ran in this window, another capture
/// is in flight, or checkpoints are of no use. Returns the stages to build on.
pub fn maybe_start_compaction_checkpoint(
    state: &mut CompactionCheckpointState,
    config: &Config,
    remote: RemoteCompactionSupport,
    window_number: u64,
    stage: usize,
) -> (prior: Option<Vec<CompactionCheckpoint>>)
    ensures
        prior is Some <==> checkpoints_apply(config@, remote) && old(state)@.admits(
            window_number,
            stage,
        ),
        checkpoints_apply(config@, remote) ==> final(state)@ == old(state)@.after_reserve(
            window_number,
            stage,
        ),
        !checkpoints_apply(config@, remote) ==> *final(state) == *old(state),
        prior matches Some(stages) ==> checkpoint::checkpoint_models(stages@)
            == final(state)@.completed,
{
    if !are_checkpoints_of_use(config, remote) {
        return None;
    }
    state.reserve(window_number, stage)
}

/// A capture that is worth making: the history it covers, how much of it earlier stages cover,
/// and what is asked of the model.
#[derive(Debug)]
pub struct CapturePlan {
    pub prefix: Arc<Vec<ResponseItemEnvelope>>,
    pub covered: usize,
    pub history: CompactionHistory,
}

/// The instructions for the capture of a stage that builds on `prior`.
pub open spec fn capture_instructions(
    config: config::ConfigModel,
    usual: Seq<char>,
    prior: Seq<checkpoint::CheckpointModel>,
) -> Seq<char> {
    let instructions = instructions_of(config, usual);
    if prior.len() == 0 {
        instructions
    } else {
        delta_instructions(combined_summary(prior), instructions)
    }
}

/// The history has been read: plans the capture of what was recorded after the stages in
/// `prior`, if anything was.
pub fn plan_capture(
    config: &Config,
    usual: &str,
    prior: &[CompactionCheckpoint],
    prefix: Arc<Vec<ResponseItemEnvelope>>,
) -> (plan: Option<CapturePlan>)
    ensures
        ({
            let stages = checkpoint::checkpoint_models(prior@);
            let items = items::item_models(prefix@);
            let covered = checkpoint::covered(stages);
            &&& plan is Some <==> covered < items.len()
            &&& plan matches Some(plan) ==> {
                &&& plan.prefix == prefix
                &&& plan.covered == covered
                &&& plan.history.holds(
                    items.skip(covered as int),
                    capture_instructions(config@, usual@, stages),
                )
            }
        }),
{
    let covered: usize = count_covered(prior);
    if prefix.len() <= covered {
        return None;
    }
    let mut instructions = compaction_instructions(config, usual);
    if prior.len() > 0 {
        let prior_summary = checkpoint_summary(prior);
        instructions = delta_compaction_instructions(
            prior_summary.as_str(),
            instructions.as_str(),
        );
    }
    let items = vstd::slice::slice_subrange(prefix.as_slice(), covered, prefix.len());
    let ghost all = items::item_models(prefix@);
    assert(items::item_models(items@) =~= all.skip(covered as int));
    let history = history_for_items(items, instructions);
    Some(CapturePlan { prefix, covered, history })
}

/// Whether a failed request is made again after `retries` retries.
pub open spec fn may_retry(retries: nat, max_retries: nat) -> bool {
    retries < max_retries
}

/// What to do after one request.
#[derive(Debug, PartialEq)]
pub enum AttemptStep<E> {
    Done { summary: String },
    /// Wait a while, then ask again; this is how many retries that makes.
    Retry { retries: u64 },
    Fail { error: E },
}

/// One request has been answered: a failed one is retried up to `max_retries` times.
pub fn after_attempt<E>(retries: u64, max_retries: u64, reply: Result<String, E>) -> (step:
    AttemptStep<E>)
    ensures
        step == match reply {
            Ok(summary) => AttemptStep::Done { summary },
            Err(error) => if may_retry(retries as nat, max_retries as nat) {
                AttemptStep::Retry { retries: (retries + 1) as u64 }
            } else {
                AttemptStep::Fail { error }
            },
        },
{
    match reply {
        Ok(summary) => AttemptStep::Done { summary },
        Err(error) => if retries < max_retries {
            AttemptStep::Retry { retries: retries + 1 }
        } else {
            AttemptStep::Fail { error }
        },
    }
}

/// How many requests are made, from `retries` retries on, if request after request ends as
/// `answered` says; no more than there are answers.
pub open spec fn requests_made(retries: nat, max_retries: nat, answered: Seq<bool>) -> nat
    decreases answered.len(),
{
    if answered.len() == 0 {
        0
    } else if answered[0] || !may_retry(retries, max_retries) {
        1
    } else {
        1 + requests_made(retries + 1, max_retries, answered.skip(1))
    }
}

/// How many requests fail before the first one is answered; all of them if none is.
pub open spec fn leading_failures(answered: Seq<bool>) -> nat
    decreases answered.len(),
{
    if answered.len() == 0 || answered[0] {
        0
    } else {
        1 + leading_failures(answered.skip(1))
    }
}

/// A capture makes requests up to and including the first that is answered, but at most one more
/// than it may retry.
pub proof fn law_retries_are_bounded(retries: nat, max_retries: nat, answered: Seq<bool>)
    requires
        retries <= max_retries,
    ensures
        ({
            let allowed = max_retries - retries + 1;
            let wanted = if leading_failures(answered) < answered.len() {
                leading_failures(answered) + 1
            } else {
                answered.len()
            };
            requests_made(retries, max_retries, answered) == if wanted < allowed {
                wanted as int
            } else {
                allowed
            }
        }),
        forall|i: int|
            0 <= i < requests_made(retries, max_retries, answered) - 1 ==> !#[trigger] answered[i],
    decreases answered.len(),
{
    if answered.len() > 0 && !answered[0] {
        let tail = answered.skip(1);
        if may_retry(retries, max_retries) {
            law_retries_are_bounded(retries + 1, max_retries, tail);
            assert forall|i: int|
                0 <= i < requests_made(
                    retries,
                    max_retries,
                    answered,
                ) - 1 implies !#[trigger] answered[i] by {
                if i > 0 {
                    assert(tail[i - 1] == answered[i]);
                }
            }
        }
    }
}

/// The model has answered: the checkpoint that its summary makes, or why there is none.
pub fn checkpoint_from_summary(prefix: Arc<Vec<ResponseItemEnvelope>>, summary: String) -> (result:
    Result<CompactionCheckpoint, String>)
    ensures
        match result {
            Ok(checkpoint) => text::trimmed(summary@).len() > 0 && checkpoint.prefix == prefix
                && checkpoint.summary == summary,
            Err(error) => text::trimmed(summary@).len() == 0 && error@
                == "compaction checkpoint completed without an assistant summary"@,
        },
{
    if trim(summary.as_str()).as_str().is_empty() {
        return Err("compaction checkpoint completed without an assistant summary".to_owned());
    }
    Ok(CompactionCheckpoint { prefix, summary })
}

/// What a capture that ran out of time failed with.
pub fn timeout_error() -> (error: String)
    ensures
        error@ == "compaction checkpoint timed out after "@ + text::decimal(
            CHECKPOINT_TIMEOUT_SECS as nat,
        ) + "s"@,
{
    let mut error = "compaction checkpoint timed out after ".to_owned();
    error.append(numeral(CHECKPOINT_TIMEOUT_SECS).as_str());
    error.append("s");
    error
}

/// What a user is told of a failed capture.
pub open spec fn failure_warning(stage: nat, error: Seq<char>) -> Seq<char> {
    "Compaction checkpoint "@ + text::decimal(stage + 1) + " failed ("@ + error
        + "); its span will be summarized later."@
}

/// What comes of a capture: the stage to record, if it was completed, and what to tell the user,
/// if it was not.
#[derive(Debug, PartialEq)]
pub struct Conclusion {
    pub checkpoint: Option<CompactionCheckpoint>,
    pub warning: Option<String>,
}

/// The capture of `stage` has ended. The error of a failed one is given in words.
pub fn conclude_checkpoint(stage: usize, result: Result<CompactionCheckpoint, String>) -> (end:
    Conclusion)
    requires
        result is Err ==> stage < usize::MAX,
    ensures
        match result {
            Ok(checkpoint) => end == (Conclusion { checkpoint: Some(checkpoint), warning: None }),
            Err(error) => end.checkpoint is None && end.warning.deep_view() == Some(
                failure_warning(stage as nat, error@),
            ),
        },
{
    match result {
        Ok(checkpoint) => Conclusion { checkpoint: Some(checkpoint), warning: None },
        Err(error) => {
            let number: usize = stage + 1;
            let mut warning = "Compaction checkpoint ".to_owned();
            warning.append(numeral(number as u64).as_str());
            warning.append(" failed (");
            warning.append(error.as_str());
            warning.append("); its span will be summarized later.");
            Conclusion { checkpoint: None, warning: Some(warning) }
        },
    }
}

/// Something that arrives while a summary streams in.
#[derive(Debug, PartialEq)]
pub enum StreamEvent<E> {
    OutputItemDone { item: ResponseItem },
    Completed,
    /// Any other event.
    Other,
    Failed { error: E },
    /// The stream has ended.
    Closed,
}

/// What to do after an event.
#[derive(Debug, PartialEq)]
pub enum StreamStep<E> {
    Continue,
    /// The response is complete; the summary is the last thing that the assistant said in it.
    Done { output: Vec<ResponseItem> },
    /// The stream ended too early.
    Broken { reason: String },
    Failed { error: E },
}

/// What a list of items holds.
pub open spec fn output_models(items: Seq<ResponseItem>) -> Seq<items::ItemModel> {
    Seq::new(items.len(), |i: int| items[i].deep_view())
}

/// The items of a response so far.
#[derive(Debug)]
pub struct SummaryStream {
    pub output: Vec<ResponseItem>,
}

impl View for SummaryStream {
    type V = Seq<items::ItemModel>;

    open spec fn view(&self) -> Seq<items::ItemModel> {
        output_models(self.output@)
    }
}

impl SummaryStream {
    /// Before any event.
    pub fn new() -> (stream: SummaryStream)
        ensures
            stream@ == Seq::<items::ItemModel>::empty(),
    {
        let stream = SummaryStream { output: Vec::new() };
        assert(stream@ =~= Seq::empty());
        stream
    }

    /// Takes an event: collects finished items, and stops on completion, failure or the end of
    /// the stream.
    pub fn on_event<E>(&mut self, event: StreamEvent<E>) -> (step: StreamStep<E>)
        ensures
            match event {
                StreamEvent::OutputItemDone { item } => step == StreamStep::<E>::Continue
                    && final(self)@ == old(self)@.push(item.deep_view()),
                StreamEvent::Completed => {
                    &&& step matches StreamStep::Done { output }
                    &&& output_models(output@) == old(self)@
                    &&& final(self)@ == Seq::<items::ItemModel>::empty()
                },
                StreamEvent::Other => step == StreamStep::<E>::Continue && *final(self) == *old(
                    self,
                ),
                StreamEvent::Failed { error } => step == (StreamStep::Failed { error })
                    && *final(self) == *old(self),
                StreamEvent::Closed => {
                    &&& step matches StreamStep::Broken { reason }
                    &&& reason@ == "stream closed before response.completed"@
                    &&& *final(self) == *old(self)
                },
            },
    {
        match event {
            StreamEvent::OutputItemDone { item } => {
                let ghost before = self@;
                let ghost added = item.deep_view();
                self.output.push(item);
                assert(self@ =~= before.push(added));
                StreamStep::Continue
            },
            StreamEvent::Completed => {
                let mut output: Vec<ResponseItem> = Vec::new();
                output.append(&mut self.output);
                assert(output_models(output@) =~= old(self)@);
                assert(self@ =~= Seq::empty());
                StreamStep::Done { output }
            },
            StreamEvent::Other => StreamStep::Continue,
            StreamEvent::Failed { error } => StreamStep::Failed { error },
            StreamEvent::Closed => StreamStep::Broken {
                reason: "stream closed before response.completed".to_owned(),
            },
        }
    }
}

/// The summary in a complete response: what the assistant said last, or nothing.
pub fn summary_or_default(last_message: Option<String>) -> (summary: String)
    ensures
        last_message matches Some(message) ==> summary == message,
        last_message is None ==> summary@ == Seq::<char>::empty(),
{
    match last_message {
        Some(message) => message,
        None => String::new(),
    }
}

/// The combined summary of stages is made of what the stages say that is not blank, trimmed, in
/// order, with a blank line between each two neighbours.
pub proof fn law_combined_summary_joins_what_the_stages_say(
    stages: Seq<checkpoint::CheckpointModel>,
) -> (picks: Seq<int>)
    ensures
        text_laws::picks_out(
            picks,
            stages.len(),
            |i: int| text::trimmed(stages[i].summary).len() > 0,
        ),
        combined_summary(stages) == text::join(
            Seq::new(picks.len(), |p: int| text::trimmed(stages[picks[p]].summary)),
            seq!['\n', '\n'],
        ),
{
    let list = stage_summaries(stages);
    let picks = merge_laws::law_concatenation_joins_what_is_not_blank(list);
    let given = |i: int| text::trimmed(list[i]).len() > 0;
    let wanted = |i: int| text::trimmed(stages[i].summary).len() > 0;
    assert forall|p: int| 0 <= p < picks.len() implies 0 <= #[trigger] picks[p] < stages.len()
        && wanted(picks[p]) by {
        assert(given(picks[p]));
        assert(list[picks[p]] == stages[picks[p]].summary);
    }
    assert forall|i: int| 0 <= i < stages.len() && #[trigger] wanted(i) implies picks.contains(
        i,
    ) by {
        assert(list[i] == stages[i].summary);
        assert(given(i));
    }
    assert(Seq::new(picks.len(), |p: int| text::trimmed(list[picks[p]])) =~= Seq::new(
        picks.len(),
        |p: int| text::trimmed(stages[picks[p]].summary),
    ));
    picks
}

/// The first stage is captured with the configured instructions alone, or the usual ones where
/// none are configured.
pub proof fn law_the_first_stage_has_the_configured_instructions(
    config: config::ConfigModel,
    usual: Seq<char>,
)
    ensures
        config.compact_prompt matches Some(prompt) ==> capture_instructions(
            config,
            usual,
            Seq::empty(),
        ) == prompt && instructions_of(config, usual) == prompt,
        config.compact_prompt is None ==> capture_instructions(config, usual, Seq::empty())
            == usual && instructions_of(config, usual) == usual,
{
}

/// However many stages there are before it, a later stage is captured with the framing for one
/// slice, then what all of them say, in order and between the marks, and then the configured
/// instructions, or the usual ones where none are configured.
pub proof fn law_later_stages_are_told_of_the_earlier_ones(
    config: config::ConfigModel,
    usual: Seq<char>,
    prior: Seq<checkpoint::CheckpointModel>,
) -> (picks: Seq<int>)
    requires
        prior.len() > 0,
    ensures
        text_laws::picks_out(
            picks,
            prior.len(),
            |i: int| text::trimmed(prior[i].summary).len() > 0,
        ),
        capture_instructions(config, usual, prior) == SLICE_FRAMING@ + "<earlier_slices>\n"@
            + text::join(
            Seq::new(picks.len(), |p: int| text::trimmed(prior[picks[p]].summary)),
            seq!['\n', '\n'],
        ) + "\n</earlier_slices>"@ + "\n\n"@ + match config.compact_prompt {
            Some(prompt) => prompt,
            None => usual,
        },
{
    law_combined_summary_joins_what_the_stages_say(prior)
}

/// A compaction request holds the items it was made from, one for one and in order, then the
/// instructions, and nothing else.
pub proof fn law_a_request_holds_its_items_and_instructions(
    history: CompactionHistory,
    items: Seq<items::EnvelopeModel>,
    instructions: Seq<char>,
)
    requires
        history.holds(items, instructions),
    ensures
        history.items@.len() == items.len(),
        forall|k: int|
            0 <= k < items.len() ==> (#[trigger] history.items@[k]).deep_view() == items[k],
        history.input matches UserInput::Text { text, text_elements } && text@ == instructions
            && text_elements@.len() == 0,
{
    assert forall|k: int| 0 <= k < items.len() implies (
    #[trigger] history.items@[k]).deep_view() == items[k] by {
        assert(items::item_models(history.items@)[k] == history.items@[k].deep_view());
    }
}

/// Checkpoints are of use exactly if compaction has a provider of its own or the backend cannot
/// compact.
pub proof fn law_only_remote_compaction_needs_no_checkpoints(
    config: config::ConfigModel,
    remote: RemoteCompactionSupport,
)
    ensures
        !checkpoints_apply(config, remote) <==> config.compact_provider is None && remote
            == RemoteCompactionSupport::Supported,
{
}

/// A failed request is made again exactly while fewer retries were made than are allowed.
pub proof fn law_retries_stop_at_the_limit(retries: nat, max_retries: nat)
    ensures
        may_retry(retries, max_retries) <==> retries < max_retries,
{
}

/// A warning names the stage, counted from one, and holds the error in full.
pub proof fn law_warnings_name_the_stage_and_the_error(stage: nat, error: Seq<char>)
    ensures
        ({
            let out = failure_warning(stage, error);
            let opening = "Compaction checkpoint "@ + text::decimal(stage + 1) + " failed ("@;
            let closing = "); its span will be summarized later."@;
            &&& out.len() == opening.len() + error.len() + closing.len()
            &&& text::stands_at(opening, out, 0)
            &&& text::stands_at(error, out, opening.len() as int)
            &&& text::stands_at(closing, out, (opening.len() + error.len()) as int)
        }),
{
    let out = failure_warning(stage, error);
    let opening = "Compaction checkpoint "@ + text::decimal(stage + 1) + " failed ("@;
    let closing = "); its span will be summarized later."@;
    let n = opening.len() as int;
    let m = n + error.len();
    assert(out.subrange(0, n) =~= opening);
    assert(out.subrange(n, m) =~= error);
    assert(out.subrange(m, m + closing.len()) =~= closing);
}

/// What a response consists of is told item by item.
pub proof fn law_responses_hold_their_items(list: Seq<ResponseItem>)
    ensures
        output_models(list).len() == list.len(),
        forall|i: int|
            0 <= i < list.len() ==> #[trigger] output_models(list)[i] == list[i].deep_view(),
{
}

/// What a response has given so far is told by the items it has given.
pub proof fn law_streams_hold_what_arrived(stream: SummaryStream)
    ensures
        stream@.len() == stream.output@.len(),
        forall|i: int|
            0 <= i < stream.output@.len() ==> #[trigger] stream@[i]
                == stream.output@[i].deep_view(),
{
}

} // verus!
