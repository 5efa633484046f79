use std::sync::Arc;

use compaction::capture::{
    after_attempt, checkpoint_from_summary, checkpoint_summary, compaction_instructions,
    conclude_checkpoint, history_for_items, maybe_start_compaction_checkpoint, plan_capture,
    summary_or_default, timeout_error, AttemptStep, RemoteCompactionSupport, StreamEvent,
    StreamStep, SummaryStream, UserInput,
};
use compaction::checkpoint::{count_covered, CompactionCheckpoint, CompactionCheckpointState};
use compaction::config::{Config, ModelProviderInfo};
use compaction::items::{is_prefix, ContentItem, ResponseItem, ResponseItemEnvelope};
use compaction::summaries::concatenate_summaries;
use tokio_util::task::AbortOnDropHandle;

fn message(role: &str, text: &str) -> ResponseItemEnvelope {
    ResponseItemEnvelope::new(ResponseItem::Message {
        id: None,
        role: role.to_string(),
        content: vec![ContentItem::InputText {
            text: text.to_string(),
        }],
        phase: None,
        internal_chat_message_metadata_passthrough: None,
    })
}

fn runtime() -> tokio::runtime::Runtime {
    tokio::runtime::Builder::new_current_thread().build().unwrap()
}

fn idle_handle(runtime: &tokio::runtime::Runtime) -> AbortOnDropHandle<()> {
    AbortOnDropHandle::new(runtime.spawn(std::future::pending()))
}

fn checkpoint(prefix: Vec<ResponseItemEnvelope>, summary: &str) -> CompactionCheckpoint {
    CompactionCheckpoint {
        prefix: Arc::new(prefix),
        summary: summary.to_string(),
    }
}

fn config(provider: Option<&str>, prompt: Option<&str>) -> Config {
    let info = |name: &str| ModelProviderInfo {
        name: name.to_string(),
        base_url: None,
    };
    Config {
        model_providers: Vec::new(),
        model_provider_id: "session".to_string(),
        model_provider: info("Session"),
        compact_model_provider: provider.map(info),
        compact_model: None,
        compact_prompt: prompt.map(|prompt| prompt.to_string()),
        compact_checkpoint_percents: vec![50],
        compact_trigger_percent: 80,
        realtime_voice: None,
    }
}

#[test]
fn stages_run_once_each_in_ascending_order() {
    let runtime = runtime();
    let mut state = CompactionCheckpointState::default();
    assert_eq!(state.reserve(1, 0), Some(Vec::new()));
    state.begin(idle_handle(&runtime));
    assert_eq!(state.reserve(1, 1), None, "one capture at a time");
    state.finish(None);
    assert_eq!(state.reserve(1, 0), None, "a failed stage is not retried");
    assert!(state.reserve(1, 1).is_some(), "the next stage still runs");
    state.finish(None);
    assert_eq!(state.reserve(2, 0), Some(Vec::new()), "a new window starts over");
}

#[test]
fn later_stage_builds_on_completed_stages() {
    let runtime = runtime();
    let first = vec![message("user", "one"), message("assistant", "two")];
    let mut state = CompactionCheckpointState::default();
    state.reserve(3, 0);
    state.begin(idle_handle(&runtime));
    state.finish(Some(checkpoint(first, "first")));
    let prior = state.reserve(3, 1).expect("stage 1 reserved");
    assert_eq!(prior.len(), 1);
    assert_eq!(prior[0].summary, "first");
}

#[test]
fn ready_stages_require_matching_window_and_prefixes() {
    let first = vec![message("user", "one"), message("assistant", "two")];
    let mut second = first.clone();
    second.push(message("user", "three"));
    let mut state = CompactionCheckpointState::default();
    state.reserve(3, 0);
    state.finish(Some(checkpoint(first.clone(), "first")));
    state.reserve(3, 1);
    state.finish(Some(checkpoint(second.clone(), "second")));

    let mut history = second.clone();
    history.push(message("assistant", "four"));
    let summaries = |stages: Vec<CompactionCheckpoint>| {
        stages
            .into_iter()
            .map(|stage| stage.summary)
            .collect::<Vec<_>>()
    };
    assert_eq!(summaries(state.ready_for(3, &history)), vec!["first", "second"]);
    assert!(state.ready_for(4, &history).is_empty(), "other window");
    assert_eq!(
        summaries(state.ready_for(3, &first)),
        vec!["first"],
        "history shorter than the second prefix keeps only the first stage"
    );
    let mut rewritten = history.clone();
    rewritten[0] = message("user", "edited");
    assert!(state.ready_for(3, &rewritten).is_empty(), "rewritten prefix");
}

#[test]
fn a_new_window_aborts_the_capture_in_flight() {
    let runtime = runtime();
    let task = runtime.spawn(std::future::pending::<()>());
    let watch = task.abort_handle();
    let mut state = CompactionCheckpointState::default();
    state.reserve(1, 0);
    state.begin(AbortOnDropHandle::new(task));
    assert!(state.reserve(2, 0).is_some());
    runtime.block_on(async {
        for _ in 0..5 {
            tokio::task::yield_now().await;
        }
    });
    assert!(watch.is_finished());
}

#[test]
fn reset_forgets_completed_stages() {
    let mut state = CompactionCheckpointState::default();
    assert!(!state.has_completed());
    state.reserve(1, 0);
    state.finish(Some(checkpoint(vec![message("user", "one")], "first")));
    assert!(state.has_completed());
    state.reset();
    assert!(!state.has_completed());
    assert_eq!(state.reserve(1, 0), Some(Vec::new()));
}

#[test]
fn growing_history_keeps_ready_stages() {
    let mut state = CompactionCheckpointState::default();
    let mut history = vec![message("user", "one")];
    state.reserve(1, 0);
    state.finish(Some(checkpoint(history.clone(), "first")));
    assert_eq!(state.ready_for(1, &history).len(), 1);
    history.push(message("assistant", "two"));
    assert_eq!(state.ready_for(1, &history).len(), 1);
    assert_eq!(count_covered(&state.ready_for(1, &history)), 1);
}

#[test]
fn stages_and_the_rest_cover_the_history_once() {
    let history = (0..6)
        .map(|n| message("user", &format!("item {n}")))
        .collect::<Vec<_>>();
    let settings = config(None, None);
    let mut state = CompactionCheckpointState::default();
    let mut summarized = Vec::new();
    for (stage, len) in [(0, 2), (1, 3), (2, 5)] {
        let prior = state.reserve(1, stage).unwrap();
        let prefix = Arc::new(history[..len].to_vec());
        let plan = plan_capture(&settings, "usual", &prior, prefix).unwrap();
        summarized.extend(plan.history.items);
        state.finish(Some(checkpoint_from_summary(plan.prefix, "sum".to_string()).unwrap()));
    }
    let ready = state.ready_for(1, &history);
    assert_eq!(ready.len(), 3);
    assert!(is_prefix(&ready[0].prefix, &ready[1].prefix));
    assert!(is_prefix(&ready[1].prefix, &ready[2].prefix));
    summarized.extend(history[count_covered(&ready)..].to_vec());
    assert_eq!(summarized, history);
}

#[test]
fn combined_summaries_build_up() {
    let stages = ["a ", "\n", " b", "c"]
        .iter()
        .map(|summary| checkpoint(Vec::new(), summary))
        .collect::<Vec<_>>();
    let earlier = checkpoint_summary(&stages[..2]);
    let later = checkpoint_summary(&stages[2..]);
    assert_eq!(
        concatenate_summaries(&[&earlier, &later]),
        checkpoint_summary(&stages)
    );
    assert_eq!(checkpoint_summary(&stages), "a\n\nb\n\nc");
}

#[test]
fn envelopes_differ_in_any_part() {
    let plain = message("user", "one");
    assert!(plain.same(&plain.clone()));
    assert!(!plain.same(&message("assistant", "one")));
    assert!(!plain.same(&message("user", "two")));
    let mut noted = plain.clone();
    noted.annotation = Some("note".to_string());
    assert!(!plain.same(&noted));
    let stored = ResponseItemEnvelope::new(ResponseItem::Stored {
        text: "call".to_string(),
    });
    assert!(!plain.same(&stored));
    assert!(is_prefix(&[], &[]));
    assert!(!is_prefix(&[plain.clone()], &[]));
    assert!(is_prefix(&[plain.clone()], &[plain, stored]));
}

#[test]
fn remote_compaction_starts_no_checkpoint() {
    let remote = RemoteCompactionSupport::Supported;
    let local = RemoteCompactionSupport::Unsupported;
    let session = config(None, None);
    let own = config(Some("Other"), None);
    let mut state = CompactionCheckpointState::default();
    assert_eq!(
        maybe_start_compaction_checkpoint(&mut state, &session, remote, 1, 0),
        None
    );
    assert_eq!(
        maybe_start_compaction_checkpoint(&mut state, &own, remote, 1, 0),
        Some(Vec::new())
    );
    assert_eq!(
        maybe_start_compaction_checkpoint(&mut state, &session, local, 1, 0),
        None,
        "already attempted"
    );
    assert_eq!(
        maybe_start_compaction_checkpoint(&mut state, &session, local, 1, 1),
        Some(Vec::new())
    );
}

#[test]
fn captures_ask_only_for_what_is_new() {
    let history = vec![message("user", "one"), message("assistant", "two")];
    let settings = config(None, Some("DO THIS"));
    let plan = plan_capture(&settings, "usual", &[], Arc::new(history.clone())).unwrap();
    assert_eq!(plan.covered, 0);
    assert_eq!(plan.history.items, history);
    assert_eq!(
        plan.history.input,
        UserInput::Text {
            text: "DO THIS".to_string(),
            text_elements: Vec::new()
        }
    );

    let prior = vec![checkpoint(vec![history[0].clone()], "PRIOR")];
    let plan = plan_capture(&settings, "usual", &prior, Arc::new(history.clone())).unwrap();
    assert_eq!(plan.covered, 1);
    assert_eq!(plan.history.items, vec![history[1].clone()]);
    let UserInput::Text { text, .. } = plan.history.input;
    assert!(text.contains("<earlier_slices>\nPRIOR\n</earlier_slices>"));
    assert!(text.ends_with("DO THIS"));

    let all = vec![checkpoint(history.clone(), "PRIOR")];
    assert!(plan_capture(&settings, "usual", &all, Arc::new(history)).is_none());
}

#[test]
fn instructions_come_from_the_settings_or_are_the_usual_ones() {
    assert_eq!(compaction_instructions(&config(None, Some("own")), "usual"), "own");
    assert_eq!(compaction_instructions(&config(None, None), "usual"), "usual");
}

#[test]
fn histories_hold_the_items_and_the_instructions() {
    let items = vec![message("user", "one")];
    let history = history_for_items(&items, "sum up".to_string());
    assert_eq!(history.items, items);
    assert_eq!(
        history.input,
        UserInput::Text {
            text: "sum up".to_string(),
            text_elements: Vec::new()
        }
    );
}

#[test]
fn checkpoint_summaries_are_combined_in_order() {
    let stages = vec![
        checkpoint(Vec::new(), " first\n"),
        checkpoint(Vec::new(), " \n"),
        checkpoint(Vec::new(), "third"),
    ];
    assert_eq!(checkpoint_summary(&stages), "first\n\nthird");
    assert_eq!(checkpoint_summary(&[]), "");
}

#[test]
fn failed_requests_are_retried_as_often_as_allowed() {
    assert_eq!(
        after_attempt::<&str>(0, 2, Ok("sum".to_string())),
        AttemptStep::Done {
            summary: "sum".to_string()
        }
    );
    assert_eq!(after_attempt(0, 2, Err("down")), AttemptStep::Retry { retries: 1 });
    assert_eq!(after_attempt(1, 2, Err("down")), AttemptStep::Retry { retries: 2 });
    assert_eq!(after_attempt(2, 2, Err("down")), AttemptStep::Fail { error: "down" });
}

#[test]
fn blank_summaries_make_no_checkpoint() {
    let prefix = Arc::new(vec![message("user", "one")]);
    assert_eq!(
        checkpoint_from_summary(prefix.clone(), " \n\t".to_string()),
        Err("compaction checkpoint completed without an assistant summary".to_string())
    );
    let done = checkpoint_from_summary(prefix.clone(), " sum ".to_string()).unwrap();
    assert_eq!(done.summary, " sum ");
    assert_eq!(done.prefix, prefix);
}

#[test]
fn failed_captures_warn_and_are_skipped() {
    let mut state = CompactionCheckpointState::default();
    state.reserve(1, 0);
    assert_eq!(timeout_error(), "compaction checkpoint timed out after 1200s");
    let end = conclude_checkpoint(0, Err("no answer".to_string()));
    assert_eq!(
        end.warning.as_deref(),
        Some("Compaction checkpoint 1 failed (no answer); its span will be summarized later.")
    );
    assert_eq!(end.checkpoint, None);
    state.finish(end.checkpoint);
    assert!(!state.has_completed());
    assert_eq!(state.reserve(1, 0), None);
    assert!(state.reserve(1, 1).is_some());
    let done = checkpoint(vec![message("user", "one")], "sum");
    let end = conclude_checkpoint(1, Ok(done.clone()));
    assert_eq!(end.warning, None);
    assert_eq!(end.checkpoint, Some(done));
    state.finish(end.checkpoint);
    assert!(state.has_completed());
}

#[test]
fn streams_collect_items_until_they_end() {
    let item = |text: &str| ResponseItem::Stored {
        text: text.to_string(),
    };
    let mut stream = SummaryStream::new();
    assert_eq!(
        stream.on_event::<&str>(StreamEvent::OutputItemDone { item: item("a") }),
        StreamStep::Continue
    );
    assert_eq!(stream.on_event::<&str>(StreamEvent::Other), StreamStep::Continue);
    assert_eq!(
        stream.on_event::<&str>(StreamEvent::OutputItemDone { item: item("b") }),
        StreamStep::Continue
    );
    assert_eq!(
        stream.on_event(StreamEvent::Failed { error: "cut" }),
        StreamStep::Failed { error: "cut" }
    );
    assert_eq!(
        stream.on_event::<&str>(StreamEvent::Closed),
        StreamStep::Broken {
            reason: "stream closed before response.completed".to_string()
        }
    );
    assert_eq!(
        stream.on_event::<&str>(StreamEvent::Completed),
        StreamStep::Done {
            output: vec![item("a"), item("b")]
        }
    );
    assert_eq!(summary_or_default(Some("said".to_string())), "said");
    assert_eq!(summary_or_default(None), "");
}
