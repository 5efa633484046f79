use std::time::{Duration, Instant};

use compaction::cadence_view::AppEvent;
use compaction::chat_widget::{
    describe_provider, earliest_start, ActiveCompaction, ChatWidget, Effect, COMPACTION_DETAILS,
    COMPACTION_HEADER,
};
use compaction::config::{Config, ModelProviderInfo, ProviderEntry};
use compaction::provider_picker::FooterHint;

fn info(name: &str, base_url: Option<&str>) -> ModelProviderInfo {
    ModelProviderInfo {
        name: name.to_string(),
        base_url: base_url.map(|url| url.to_string()),
    }
}

fn widget(keys: &[&str]) -> ChatWidget {
    ChatWidget {
        compaction: None,
        config: Config {
            model_providers: keys
                .iter()
                .map(|key| ProviderEntry {
                    key: key.to_string(),
                    info: info(&key.to_uppercase(), Some(&format!("http://{key}"))),
                })
                .collect(),
            model_provider_id: "openai".to_string(),
            model_provider: info("OpenAI", None),
            compact_model_provider: None,
            compact_model: None,
            compact_prompt: None,
            compact_checkpoint_percents: vec![50],
            compact_trigger_percent: 80,
            realtime_voice: None,
        },
    }
}

fn selected(effect: Effect) -> Option<String> {
    match effect {
        Effect::Send {
            event: AppEvent::PersistCompactionProviderSelection { provider_id },
        } => provider_id,
        other => panic!("unexpected effect: {other:?}"),
    }
}

fn refused(effect: Effect) -> String {
    match effect {
        Effect::AddErrorMessage { error } => error,
        other => panic!("unexpected effect: {other:?}"),
    }
}

#[test]
fn choices_leave_out_the_session_provider() {
    let widget = widget(&["openai", "dgx3", "b", "dgx30"]);
    assert_eq!(widget.compaction_provider_choices(), vec!["b", "dgx3", "dgx30"]);
}

#[test]
fn selections_follow_keys_and_unique_parts() {
    let widget = widget(&["openai", "spark-dgx3", "spark-dgx30", "local"]);
    assert_eq!(selected(widget.select_compaction_provider(" OFF ")), None);
    assert_eq!(selected(widget.select_compaction_provider("none")), None);
    assert_eq!(selected(widget.select_compaction_provider("Session")), None);
    assert_eq!(selected(widget.select_compaction_provider("openai")), None);
    assert_eq!(
        selected(widget.select_compaction_provider("spark-dgx3")),
        Some("spark-dgx3".to_string())
    );
    assert_eq!(
        selected(widget.select_compaction_provider("loc")),
        Some("local".to_string())
    );
    assert_eq!(
        refused(widget.select_compaction_provider("dgx3")),
        "`dgx3` matches several providers: spark-dgx3, spark-dgx30"
    );
    assert_eq!(
        refused(widget.select_compaction_provider("gpu")),
        "Unknown model provider `gpu`. Available: local, spark-dgx3, spark-dgx30"
    );
}

#[test]
fn nothing_is_available_without_other_providers() {
    assert_eq!(
        refused(widget(&["openai"]).select_compaction_provider("gpu")),
        "Unknown model provider `gpu`. Available: (none)"
    );
}

#[test]
fn providers_are_described_by_name_and_address() {
    assert_eq!(describe_provider(&info("A", None)), "A");
    assert_eq!(describe_provider(&info("A", Some("http://a"))), "A (http://a)");
}

#[test]
fn saved_providers_are_applied_and_reported() {
    let mut widget = widget(&["openai", "local"]);
    assert_eq!(
        widget.compaction_provider_summary(),
        "Compaction runs on the session provider, OpenAI."
    );
    let effects = widget.on_compaction_provider_saved(Some("local".to_string()));
    assert_eq!(
        widget.compaction_provider_summary(),
        "Compaction runs on LOCAL (http://local)."
    );
    match effects.as_slice() {
        [Effect::AddInfoMessage { message, hint }] => {
            assert_eq!(message, "Compaction runs on LOCAL (http://local).");
            assert_eq!(
                hint.as_deref(),
                Some("Applies to the next compaction checkpoint or compaction.")
            );
        }
        other => panic!("unexpected effects: {other:?}"),
    }
    widget.on_compaction_provider_saved(Some("gone".to_string()));
    assert_eq!(widget.config.compact_model_provider, None);
}

#[test]
fn the_menu_offers_the_session_and_every_choice() {
    let mut widget = widget(&["openai", "local", "a"]);
    let menu = widget.show_compaction_provider();
    assert_eq!(menu.title.as_deref(), Some("Where should compaction run?"));
    assert_eq!(
        menu.subtitle.as_deref(),
        Some("Compaction runs on the session provider, OpenAI.")
    );
    assert_eq!(menu.footer_hint, Some(FooterHint::StandardPopup));
    assert_eq!(menu.initial_selected_idx, Some(0));
    assert!(!menu.is_searchable);
    assert_eq!(menu.search_placeholder.as_deref(), Some("Type to filter providers"));
    let names = menu.items.iter().map(|item| item.name.as_str()).collect::<Vec<_>>();
    assert_eq!(names, vec!["Session provider (openai)", "a", "local"]);
    assert_eq!(
        menu.items[0].description.as_deref(),
        Some("Compact on the same server as the conversation: OpenAI")
    );
    assert_eq!(menu.items[0].search_value.as_deref(), Some("off session openai"));
    assert_eq!(menu.items[2].search_value.as_deref(), Some("local http://local"));
    assert_eq!(
        menu.items[2].action,
        AppEvent::PersistCompactionProviderSelection {
            provider_id: Some("local".to_string())
        }
    );
    assert!(menu.items[2].dismiss_on_select);

    widget.on_compaction_provider_saved(Some("local".to_string()));
    let menu = widget.show_compaction_provider();
    assert_eq!(menu.initial_selected_idx, Some(2));
    assert!(!menu.items[0].is_current);
    widget.on_compaction_provider_saved(Some("openai".to_string()));
    assert_eq!(widget.show_compaction_provider().initial_selected_idx, None);
}

#[test]
fn long_menus_are_searchable() {
    assert!(widget(&["a", "b", "c", "d"]).show_compaction_provider().is_searchable);
    assert!(!widget(&["a", "b", "c"]).show_compaction_provider().is_searchable);
}

#[test]
fn compactions_start_once() {
    let mut widget = widget(&[]);
    let before = Instant::now();
    let effects = widget.on_context_compaction_started("c1".to_string(), Duration::ZERO);
    let started = widget.compaction.as_ref().unwrap().started_at;
    assert!(before <= started && started <= Instant::now());
    match effects.as_slice() {
        [Effect::FlushAnswerStream, Effect::SetStatusTimerOrigin {
            started_at: Some(origin),
        }, Effect::EnsureStatusIndicator, Effect::SetStatusHeader { header }] => {
            assert_eq!(*origin, started);
            assert_eq!(header, COMPACTION_HEADER);
        }
        other => panic!("unexpected effects: {other:?}"),
    }
    assert_eq!(COMPACTION_HEADER, "Compacting context");
    assert_eq!(COMPACTION_DETAILS, "Making room to continue.");
    assert!(widget
        .on_context_compaction_started("c1".to_string(), Duration::ZERO)
        .is_empty());
    assert_eq!(widget.compaction.as_ref().unwrap().started_at, started);
    assert_eq!(
        widget
            .on_context_compaction_started("c2".to_string(), Duration::from_secs(2))
            .len(),
        4
    );
    assert!(widget.runs("c2"));
}

#[test]
fn starts_lie_in_the_past_where_the_clock_allows() {
    let now = Instant::now();
    let later = now + Duration::from_secs(5);
    assert_eq!(earliest_start(later, Some(now)), now);
    assert_eq!(earliest_start(now, None), now);
}

#[test]
fn only_a_matching_live_completion_reports_a_duration() {
    let message = |effects: &[Effect]| match effects.last() {
        Some(Effect::AddInfoMessage { message, hint: None }) => message.clone(),
        other => panic!("unexpected effect: {other:?}"),
    };
    let running = || {
        let mut widget = widget(&[]);
        widget.compaction = Some(ActiveCompaction {
            id: "c1".to_string(),
            started_at: Instant::now(),
        });
        widget
    };
    let mut other = running();
    assert_eq!(other.compaction_seconds("c2", false), None);
    let effects = other.on_context_compaction_completed("c2", false, "5s");
    assert_eq!(effects.len(), 1);
    assert_eq!(message(&effects), "Context compacted");
    assert!(other.runs("c1"));

    let mut replayed = running();
    assert_eq!(replayed.compaction_seconds("c1", true), None);
    let effects = replayed.on_context_compaction_completed("c1", true, "5s");
    assert_eq!(effects.len(), 3);
    assert_eq!(message(&effects), "Context compacted");
    assert!(replayed.compaction.is_none());

    let mut live = running();
    assert!(live.compaction_seconds("c1", false).unwrap() < 60);
    let effects = live.on_context_compaction_completed("c1", false, "5s");
    assert_eq!(message(&effects), "Context compacted · 5s");
    match &effects[..2] {
        [Effect::SetStatusTimerOrigin { started_at: None }, Effect::SetStatusHeader { header }] => {
            assert_eq!(header, "Working");
        }
        other => panic!("unexpected effects: {other:?}"),
    }
    assert!(live.clear_context_compaction().is_empty());
}
