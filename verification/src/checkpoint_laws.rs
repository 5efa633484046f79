//! What holds of the checkpoint bookkeeping over whole runs.

use tokio_util::task::AbortOnDropHandle;
use vstd::prelude::*;

use crate::checkpoint;
use crate::checkpoint::{CheckpointLog, CheckpointModel};
use crate::items;

verus! {

/// One thing that happens to the bookkeeping. A reset forgets what happened before it, so a run
/// of happenings lies between two resets.
pub enum Happening {
    Reserve { window: u64, stage: usize },
    Begin { handle: AbortOnDropHandle<()> },
    Finish { outcome: Option<CheckpointModel> },
}

/// The log after one thing has happened.
pub open spec fn after(log: CheckpointLog, happening: Happening) -> CheckpointLog {
    match happening {
        Happening::Reserve { window, stage } => log.after_reserve(window, stage),
        Happening::Begin { handle } => log.after_begin(handle),
        Happening::Finish { outcome } => log.after_finish(outcome),
    }
}

/// The log after a run.
pub open spec fn after_all(log: CheckpointLog, run: Seq<Happening>) -> CheckpointLog
    decreases run.len(),
{
    if run.len() == 0 {
        log
    } else {
        after(after_all(log, run.drop_last()), run.last())
    }
}

/// The stages that a run was allowed to attempt, in order.
pub open spec fn attempts(log: CheckpointLog, run: Seq<Happening>) -> Seq<usize>
    decreases run.len(),
{
    if run.len() == 0 {
        Seq::empty()
    } else {
        let rest = attempts(log, run.drop_last());
        match run.last() {
            Happening::Reserve { window, stage } => if after_all(log, run.drop_last()).admits(
                window,
                stage,
            ) {
                rest.push(stage)
            } else {
                rest
            },
            _ => rest,
        }
    }
}

/// Whether a run stays in one window.
pub open spec fn within(run: Seq<Happening>, window: u64) -> bool {
    forall|i: int|
        0 <= i < run.len() ==> match #[trigger] run[i] {
            Happening::Reserve { window: w, stage: _ } => w == window,
            _ => true,
        }
}

/// Within one window the attempted stages strictly ascend, so each stage is attempted at most
/// once, whatever became of the earlier attempts. Stages attempted in this window before the run
/// count too.
pub proof fn law_stages_are_attempted_once_in_ascending_order(
    log: CheckpointLog,
    run: Seq<Happening>,
    window: u64,
)
    requires
        within(run, window),
    ensures
        forall|i: int, j: int|
            0 <= i < j < attempts(log, run).len() ==> #[trigger] attempts(log, run)[i]
                < #[trigger] attempts(log, run)[j],
        attempts(log, run).len() > 0 ==> {
            &&& after_all(log, run).window == Some(window)
            &&& after_all(log, run).attempted == Some(attempts(log, run).last())
        },
        log.window == Some(window) ==> {
            &&& after_all(log, run).window == Some(window)
            &&& attempts(log, run).len() == 0 ==> after_all(log, run).attempted == log.attempted
            &&& log.attempted is Some ==> forall|i: int|
                0 <= i < attempts(log, run).len() ==> log.attempted->0 < #[trigger] attempts(
                    log,
                    run,
                )[i]
        },
    decreases run.len(),
{
    if run.len() > 0 {
        let front = run.drop_last();
        assert forall|i: int| 0 <= i < front.len() implies match #[trigger] front[i] {
            Happening::Reserve { window: w, stage: _ } => w == window,
            _ => true,
        } by {
            assert(front[i] == run[i]);
        }
        law_stages_are_attempted_once_in_ascending_order(log, front, window);
        assert(run.last() == run[run.len() - 1]);
        let rest = attempts(log, front);
        match run.last() {
            Happening::Reserve { window: w, stage } => {
                if after_all(log, front).admits(w, stage) {
                    let all = attempts(log, run);
                    assert forall|i: int, j: int| 0 <= i < j < all.len() implies #[trigger] all[i]
                        < #[trigger] all[j] by {
                        if j == all.len() - 1 && i < rest.len() - 1 {
                            assert(rest[i] < rest[rest.len() - 1]);
                        }
                    }
                }
            },
            _ => {},
        }
    }
}

/// While a capture is in flight no other stage of the window may start.
pub proof fn law_one_capture_at_a_time(log: CheckpointLog, window: u64, stage: usize)
    requires
        log.window == Some(window),
        log.running is Some,
    ensures
        !log.admits(window, stage),
        log.after_reserve(window, stage) == log,
{
}

/// A stage whose capture failed is not tried again in its window, nor is an earlier one; every
/// later one still may be, and what was completed before is kept.
pub proof fn law_a_failed_stage_is_skipped(
    log: CheckpointLog,
    window: u64,
    stage: usize,
    handle: AbortOnDropHandle<()>,
)
    requires
        log.admits(window, stage),
    ensures
        ({
            let failed = log.after_reserve(window, stage).after_begin(handle).after_finish(None);
            &&& forall|s: usize| failed.admits(window, s) <==> stage < s
            &&& failed.completed == log.for_window(window).completed
        }),
{
}

/// A new window starts over: every stage may be attempted, nothing counts as completed, and a
/// capture of the old window is no longer awaited.
pub proof fn law_a_new_window_starts_over(log: CheckpointLog, window: u64, stage: usize)
    requires
        log.window != Some(window),
    ensures
        log.admits(window, stage),
        log.after_reserve(window, stage).completed.len() == 0,
        log.after_reserve(window, stage).running is None,
{
}

/// The ready stages are the completed ones up to the first that the history no longer starts
/// with.
pub proof fn law_ready_stages_are_the_fresh_ones(
    log: CheckpointLog,
    window: u64,
    history: Seq<items::EnvelopeModel>,
)
    requires
        log.window == Some(window),
    ensures
        ({
            let ready = log.ready(window, history);
            &&& ready.len() <= log.completed.len()
            &&& forall|i: int|
                0 <= i < ready.len() ==> #[trigger] ready[i] == log.completed[i]
                    && checkpoint::fresh(ready[i], history)
            &&& ready.len() < log.completed.len() ==> !checkpoint::fresh(
                log.completed[ready.len() as int],
                history,
            )
        }),
{
    lemma_fresh_count_bounds(log.completed, history);
}

proof fn lemma_fresh_count_bounds(
    stages: Seq<CheckpointModel>,
    history: Seq<items::EnvelopeModel>,
)
    ensures
        checkpoint::fresh_count(stages, history) <= stages.len(),
        forall|i: int|
            0 <= i < checkpoint::fresh_count(stages, history) ==> checkpoint::fresh(
                #[trigger] stages[i],
                history,
            ),
        checkpoint::fresh_count(stages, history) < stages.len() ==> !checkpoint::fresh(
            stages[checkpoint::fresh_count(stages, history) as int],
            history,
        ),
    decreases stages.len(),
{
    if stages.len() > 0 && checkpoint::fresh(stages[0], history) {
        let tail = stages.skip(1);
        lemma_fresh_count_bounds(tail, history);
        let n = checkpoint::fresh_count(tail, history);
        assert forall|i: int| 0 <= i < n + 1 implies checkpoint::fresh(
            #[trigger] stages[i],
            history,
        ) by {
            if i > 0 {
                assert(tail[i - 1] == stages[i]);
            }
        }
        if n < tail.len() {
            assert(tail[n as int] == stages[n as int + 1]);
        }
    }
}

/// Recording more history makes no stage stale: what was ready stays ready.
pub proof fn law_growing_history_keeps_ready_stages(
    log: CheckpointLog,
    window: u64,
    history: Seq<items::EnvelopeModel>,
    added: Seq<items::EnvelopeModel>,
)
    ensures
        log.ready(window, history).len() <= log.ready(window, history + added).len(),
        log.ready(window, history) == log.ready(window, history + added).take(
            log.ready(window, history).len() as int,
        ),
{
    if log.window == Some(window) {
        let all = log.completed;
        lemma_fresh_count_bounds(all, history);
        lemma_fresh_count_bounds(all, history + added);
        let n = checkpoint::fresh_count(all, history) as int;
        let m = checkpoint::fresh_count(all, history + added) as int;
        assert forall|i: int| 0 <= i < n implies checkpoint::fresh(
            #[trigger] all[i],
            history + added,
        ) by {
            let p = all[i].prefix;
            assert((history + added).take(p.len() as int) =~= history.take(p.len() as int));
        }
        if m < n {
            assert(checkpoint::fresh(all[m], history + added));
        }
        assert(all.take(n) =~= all.take(m).take(n));
    } else {
        assert(log.ready(window, history) =~= log.ready(window, history + added).take(0));
    }
}

/// When the history is rewritten underneath the first stage, no stage is ready and compaction
/// covers the whole history.
pub proof fn law_rewritten_history_readies_no_stage(
    log: CheckpointLog,
    window: u64,
    history: Seq<items::EnvelopeModel>,
)
    requires
        log.completed.len() > 0,
        !checkpoint::fresh(log.completed[0], history),
    ensures
        log.ready(window, history).len() == 0,
        checkpoint::covered(log.ready(window, history)) == 0,
{
}

/// Whether each stage covers more items than the one before it.
pub open spec fn growing(stages: Seq<CheckpointModel>) -> bool {
    forall|i: int, j: int|
        0 <= i < j < stages.len() ==> (#[trigger] stages[i]).prefix.len() < (
        #[trigger] stages[j]).prefix.len()
}

/// The items that each stage summarizes, one stage after the other.
pub open spec fn summarized(stages: Seq<CheckpointModel>) -> Seq<items::EnvelopeModel>
    decreases stages.len(),
{
    if stages.len() == 0 {
        Seq::empty()
    } else {
        let front = stages.drop_last();
        summarized(front) + stages.last().prefix.skip(checkpoint::covered(front) as int)
    }
}

/// Stages keep growing from capture to capture, in the old window or a new one: a capture is
/// made only of more items than the stages that it builds on cover.
pub proof fn law_captures_keep_stages_growing(
    log: CheckpointLog,
    window: u64,
    stage: usize,
    handle: AbortOnDropHandle<()>,
    done: CheckpointModel,
)
    requires
        growing(log.completed),
        log.admits(window, stage),
        checkpoint::covered(log.after_reserve(window, stage).completed) < done.prefix.len(),
    ensures
        growing(
            log.after_reserve(window, stage).after_begin(handle).after_finish(
                Some(done),
            ).completed,
        ),
{
    let prior = log.after_reserve(window, stage).completed;
    let all = prior.push(done);
    assert forall|i: int, j: int| 0 <= i < j < all.len() implies (#[trigger] all[i]).prefix.len()
        < (#[trigger] all[j]).prefix.len() by {
        if j == all.len() - 1 && i < prior.len() - 1 {
            assert(prior[i].prefix.len() < prior[prior.len() - 1].prefix.len());
        }
    }
}

/// Of the ready stages each prefix extends the previous one.
pub proof fn law_ready_prefixes_extend_one_another(
    log: CheckpointLog,
    window: u64,
    history: Seq<items::EnvelopeModel>,
    i: int,
    j: int,
)
    requires
        growing(log.completed),
        0 <= i < j < log.ready(window, history).len(),
    ensures
        items::starts_with(
            log.ready(window, history)[j].prefix,
            log.ready(window, history)[i].prefix,
        ),
{
    lemma_fresh_count_bounds(log.completed, history);
    let p = log.completed[i].prefix;
    let q = log.completed[j].prefix;
    assert(checkpoint::fresh(log.completed[i], history));
    assert(checkpoint::fresh(log.completed[j], history));
    assert(p.len() < q.len());
    assert(q.take(p.len() as int) =~= history.take(p.len() as int));
}

/// Every item of the history is summarized exactly once, in order: by the ready stages up to
/// the last of them, and by the final compaction after it.
pub proof fn law_stages_and_delta_cover_the_history_once(
    log: CheckpointLog,
    window: u64,
    history: Seq<items::EnvelopeModel>,
)
    requires
        growing(log.completed),
    ensures
        ({
            let ready = log.ready(window, history);
            summarized(ready) + history.skip(checkpoint::covered(ready) as int) == history
        }),
{
    let ready = log.ready(window, history);
    lemma_fresh_count_bounds(log.completed, history);
    assert forall|i: int| 0 <= i < ready.len() implies checkpoint::fresh(
        #[trigger] ready[i],
        history,
    ) by {
        assert(ready[i] == log.completed[i]);
    }
    assert(growing(ready)) by {
        assert forall|i: int, j: int| 0 <= i < j < ready.len() implies (
        #[trigger] ready[i]).prefix.len() < (#[trigger] ready[j]).prefix.len() by {
            assert(log.completed[i].prefix.len() < log.completed[j].prefix.len());
        }
    }
    lemma_summarized(ready, history);
    let n = checkpoint::covered(ready) as int;
    assert(history.take(n) + history.skip(n) =~= history);
}

proof fn lemma_summarized(stages: Seq<CheckpointModel>, history: Seq<items::EnvelopeModel>)
    requires
        growing(stages),
        forall|i: int| 0 <= i < stages.len() ==> checkpoint::fresh(#[trigger] stages[i], history),
    ensures
        checkpoint::covered(stages) <= history.len(),
        summarized(stages) == history.take(checkpoint::covered(stages) as int),
    decreases stages.len(),
{
    if stages.len() == 0 {
        assert(summarized(stages) =~= history.take(0));
    } else {
        let front = stages.drop_last();
        assert forall|i: int| 0 <= i < front.len() implies checkpoint::fresh(
            #[trigger] front[i],
            history,
        ) by {
            assert(front[i] == stages[i]);
        }
        assert(growing(front)) by {
            assert forall|i: int, j: int| 0 <= i < j < front.len() implies (
            #[trigger] front[i]).prefix.len() < (#[trigger] front[j]).prefix.len() by {
                assert(stages[i].prefix.len() < stages[j].prefix.len());
            }
        }
        lemma_summarized(front, history);
        let last = stages[stages.len() - 1];
        assert(checkpoint::fresh(last, history));
        if front.len() > 0 {
            assert(stages[front.len() - 1].prefix.len() < last.prefix.len());
        }
        assert(summarized(stages) =~= history.take(last.prefix.len() as int));
    }
}

/// Whether `history` starts with `prefix`, item for item.
pub open spec fn begins_with(
    history: Seq<items::EnvelopeModel>,
    prefix: Seq<items::EnvelopeModel>,
) -> bool {
    prefix.len() <= history.len() && forall|k: int|
        0 <= k < prefix.len() ==> #[trigger] history[k] == prefix[k]
}

proof fn lemma_fresh_is_item_for_item(stage: CheckpointModel, history: Seq<items::EnvelopeModel>)
    ensures
        checkpoint::fresh(stage, history) == begins_with(history, stage.prefix),
{
    law_starting_with_is_item_for_item(history, stage.prefix);
}

/// The ready stages are the completed ones, from the first on, whose prefix is item for item what
/// the history starts with. The first that is not ready has a longer prefix than the history, or
/// differs from it in some item. In another window none is ready.
pub proof fn law_ready_stages_match_the_history_item_for_item(
    log: CheckpointLog,
    window: u64,
    history: Seq<items::EnvelopeModel>,
)
    ensures
        log.window != Some(window) ==> log.ready(window, history).len() == 0,
        log.window == Some(window) ==> {
            let n = log.ready(window, history).len() as int;
            &&& n <= log.completed.len()
            &&& log.ready(window, history) == log.completed.take(n)
            &&& forall|i: int|
                0 <= i < n ==> (#[trigger] log.completed[i]).prefix.len() <= history.len()
                    && forall|k: int|
                    0 <= k < log.completed[i].prefix.len() ==> #[trigger] history[k]
                        == log.completed[i].prefix[k]
            &&& n < log.completed.len() ==> log.completed[n].prefix.len() > history.len()
                || exists|k: int|
                0 <= k < log.completed[n].prefix.len() && #[trigger] history[k]
                    != log.completed[n].prefix[k]
        },
{
    if log.window == Some(window) {
        lemma_fresh_count_bounds(log.completed, history);
        let n = checkpoint::fresh_count(log.completed, history) as int;
        assert forall|i: int| 0 <= i < n implies begins_with(
            history,
            (#[trigger] log.completed[i]).prefix,
        ) by {
            assert(checkpoint::fresh(log.completed[i], history));
            lemma_fresh_is_item_for_item(log.completed[i], history);
        }
        if n < log.completed.len() {
            lemma_fresh_is_item_for_item(log.completed[n], history);
        }
    }
}

/// If the history starts, item for item, with the prefix of every completed stage, all of them
/// are ready.
pub proof fn law_stages_under_an_unchanged_history_are_all_ready(
    log: CheckpointLog,
    window: u64,
    history: Seq<items::EnvelopeModel>,
)
    requires
        log.window == Some(window),
        forall|i: int|
            0 <= i < log.completed.len() ==> (#[trigger] log.completed[i]).prefix.len()
                <= history.len() && forall|k: int|
                0 <= k < log.completed[i].prefix.len() ==> #[trigger] history[k]
                    == log.completed[i].prefix[k],
    ensures
        log.ready(window, history) == log.completed,
{
    law_ready_stages_match_the_history_item_for_item(log, window, history);
    assert(log.completed.take(log.completed.len() as int) =~= log.completed);
}

/// A stage may be attempted in a window that is not the current one, and in the current one
/// exactly if no capture is in flight and every attempted stage is a lower one.
pub proof fn law_when_a_stage_may_be_attempted(log: CheckpointLog, window: u64, stage: usize)
    ensures
        log.admits(window, stage) <==> log.window != Some(window) || (log.running is None && (
        log.attempted is None || log.attempted->0 < stage)),
{
}

/// Asking for a stage in the current window changes nothing but, where it may be attempted, which
/// stage was attempted last.
pub proof fn law_asking_for_a_stage_keeps_the_window(
    log: CheckpointLog,
    window: u64,
    stage: usize,
)
    requires
        log.window == Some(window),
    ensures
        ({
            let after = log.after_reserve(window, stage);
            &&& after.window == log.window
            &&& after.running == log.running
            &&& after.completed == log.completed
            &&& log.admits(window, stage) ==> after.attempted == Some(stage)
            &&& !log.admits(window, stage) ==> after.attempted == log.attempted
        }),
{
}

/// Asking for a stage in a new window leaves nothing of the old one: the window is the new one,
/// the stage is the one attempted, nothing runs and nothing is completed.
pub proof fn law_asking_in_a_new_window_leaves_nothing_of_the_old(
    log: CheckpointLog,
    window: u64,
    stage: usize,
)
    requires
        log.window != Some(window),
    ensures
        ({
            let after = log.after_reserve(window, stage);
            &&& after.window == Some(window)
            &&& after.attempted == Some(stage)
            &&& after.running is None
            &&& after.completed.len() == 0
        }),
{
}

/// Starting and ending a capture touch only what they are about: which capture is in flight, and
/// the completed stages, which gain the one that was completed at their end.
pub proof fn law_captures_touch_nothing_else(
    log: CheckpointLog,
    handle: AbortOnDropHandle<()>,
    done: CheckpointModel,
)
    ensures
        log.after_begin(handle).running == Some(handle),
        log.after_begin(handle).window == log.window,
        log.after_begin(handle).attempted == log.attempted,
        log.after_begin(handle).completed == log.completed,
        log.after_finish(None).running is None,
        log.after_finish(None).window == log.window,
        log.after_finish(None).attempted == log.attempted,
        log.after_finish(None).completed == log.completed,
        log.after_finish(Some(done)).running is None,
        log.after_finish(Some(done)).window == log.window,
        log.after_finish(Some(done)).attempted == log.attempted,
        log.after_finish(Some(done)).completed.len() == log.completed.len() + 1,
        log.after_finish(Some(done)).completed.last() == done,
        log.after_finish(Some(done)).completed.drop_last() == log.completed,
        CheckpointLog::fresh_start().window is None,
        CheckpointLog::fresh_start().attempted is None,
        CheckpointLog::fresh_start().running is None,
        CheckpointLog::fresh_start().completed.len() == 0,
{
    assert(log.completed.push(done).drop_last() =~= log.completed);
}

/// The stages cover what the last of them covers.
pub proof fn law_the_last_stage_says_what_is_covered(
    stages: Seq<CheckpointModel>,
    last: CheckpointModel,
)
    ensures
        checkpoint::covered(Seq::empty()) == 0,
        checkpoint::covered(stages.push(last)) == last.prefix.len(),
{
}

/// A checkpoint is told by its items, one for one, and its summary.
pub proof fn law_checkpoints_hold_their_items(stage: checkpoint::CompactionCheckpoint)
    ensures
        stage@.prefix.len() == stage.prefix@.len(),
        forall|k: int|
            0 <= k < stage.prefix@.len() ==> #[trigger] stage@.prefix[k]
                == stage.prefix@[k].deep_view(),
        stage@.summary == stage.summary@,
{
}

/// Lists of checkpoints and of items are told by their members, one for one.
pub proof fn law_lists_hold_their_members(
    stages: Seq<checkpoint::CompactionCheckpoint>,
    list: Seq<items::ResponseItemEnvelope>,
)
    ensures
        checkpoint::checkpoint_models(stages).len() == stages.len(),
        forall|i: int|
            0 <= i < stages.len() ==> #[trigger] checkpoint::checkpoint_models(stages)[i]
                == stages[i]@,
        items::item_models(list).len() == list.len(),
        forall|i: int|
            0 <= i < list.len() ==> #[trigger] items::item_models(list)[i] == list[i].deep_view(),
{
}

/// Two items count as the same exactly if they are of one kind and agree in every part, the note
/// beside them among these.
pub proof fn law_items_are_told_by_every_part(
    a: items::ResponseItemEnvelope,
    b: items::ResponseItemEnvelope,
)
    ensures
        a.deep_view() == b.deep_view() <==> a.annotation.deep_view() == b.annotation.deep_view()
            && same_parts(a.item, b.item),
{
    match (a.item, b.item) {
        (
            items::ResponseItem::Message { content: x, .. },
            items::ResponseItem::Message { content: y, .. },
        ) => {
            if same_pieces(x@, y@) {
                assert(x.deep_view() =~= y.deep_view()) by {
                    assert forall|k: int| 0 <= k < x@.len() implies #[trigger] x.deep_view()[k]
                        == y.deep_view()[k] by {
                        assert(same_piece(x@[k], y@[k]));
                    }
                }
            }
            if x.deep_view() == y.deep_view() {
                assert(x.deep_view().len() == x@.len());
                assert(y.deep_view().len() == y@.len());
                assert forall|k: int| 0 <= k < x@.len() implies #[trigger] same_piece(
                    x@[k],
                    y@[k],
                ) by {
                    assert(x.deep_view()[k] == x@[k].deep_view());
                    assert(y.deep_view()[k] == y@[k].deep_view());
                }
            }
        },
        _ => {},
    }
}

/// Whether two pieces of a message are of one kind and hold the same text.
pub open spec fn same_piece(a: items::ContentItem, b: items::ContentItem) -> bool {
    match (a, b) {
        (items::ContentItem::InputText { text: x }, items::ContentItem::InputText { text: y }) =>
            x@ == y@,
        (items::ContentItem::OutputText { text: x }, items::ContentItem::OutputText { text: y }) =>
            x@ == y@,
        (items::ContentItem::Stored { text: x }, items::ContentItem::Stored { text: y }) => x@
            == y@,
        _ => false,
    }
}

/// Whether two lists of pieces agree piece by piece.
pub open spec fn same_pieces(a: Seq<items::ContentItem>, b: Seq<items::ContentItem>) -> bool {
    a.len() == b.len() && forall|k: int| 0 <= k < a.len() ==> #[trigger] same_piece(a[k], b[k])
}

/// Whether two items are of one kind and agree in every part.
pub open spec fn same_parts(a: items::ResponseItem, b: items::ResponseItem) -> bool {
    match (a, b) {
        (
            items::ResponseItem::Message {
                id: id1,
                role: role1,
                content: content1,
                phase: phase1,
                internal_chat_message_metadata_passthrough: pass1,
            },
            items::ResponseItem::Message {
                id: id2,
                role: role2,
                content: content2,
                phase: phase2,
                internal_chat_message_metadata_passthrough: pass2,
            },
        ) => {
            &&& id1.deep_view() == id2.deep_view()
            &&& role1@ == role2@
            &&& same_pieces(content1@, content2@)
            &&& phase1.deep_view() == phase2.deep_view()
            &&& pass1.deep_view() == pass2.deep_view()
        },
        (items::ResponseItem::Stored { text: x }, items::ResponseItem::Stored { text: y }) => x@
            == y@,
        _ => false,
    }
}

/// One history starts with another exactly if it does so item for item.
pub proof fn law_starting_with_is_item_for_item(
    history: Seq<items::EnvelopeModel>,
    prefix: Seq<items::EnvelopeModel>,
)
    ensures
        items::starts_with(history, prefix) <==> prefix.len() <= history.len() && forall|k: int|
            0 <= k < prefix.len() ==> #[trigger] history[k] == prefix[k],
{
    if prefix.len() <= history.len() {
        let start = history.take(prefix.len() as int);
        if start == prefix {
            assert forall|k: int| 0 <= k < prefix.len() implies #[trigger] history[k]
                == prefix[k] by {
                assert(start[k] == history[k]);
            }
        }
        if forall|k: int| 0 <= k < prefix.len() ==> #[trigger] history[k] == prefix[k] {
            assert(start =~= prefix);
        }
    }
}

} // verus!
