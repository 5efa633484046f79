//! Live compaction status and the choice of the provider that compaction runs on.
//!
//! The wall clock of a compaction is separate from the turn's running time, and only a matching
//! live completion contributes a duration to the transcript.

use std::time::{Duration, Instant};

use vstd::prelude::*;
use vstd::string::*;

use crate::cadence_view;
use crate::cadence_view::AppEvent;
use crate::config;
use crate::config::{contains_key, list_choices, Config, ModelProviderInfo};
use crate::text;
use crate::text::{contains_text, join_texts, lowercase, same_text, trim};

verus! {

/// `std::time::Instant`: a reading of a clock that never goes back. Nothing is known of a
/// reading but that it is one.
#[verifier::external_type_specification]
#[verifier::external_body]
pub struct ExInstant(std::time::Instant);

/// `Instant::now` reads the clock; nothing is claimed of the reading.
pub assume_specification[ std::time::Instant::now ]() -> Instant
;

/// `Instant::checked_sub` goes back by a duration where the clock can express the result;
/// whether it can, and what the result is, depends on the machine, so nothing is claimed.
pub assume_specification[ std::time::Instant::checked_sub ](
    instant: &Instant,
    duration: Duration,
) -> Option<Instant>
;

/// `Instant::elapsed` reads the clock; nothing is claimed of the time that has passed.
pub assume_specification[ std::time::Instant::elapsed ](instant: &Instant) -> Duration
;

/// `Duration::as_secs` gives the whole seconds of a duration that nothing is known of, so
/// nothing is claimed.
pub assume_specification[ std::time::Duration::as_secs ](duration: &Duration) -> u64
;

/// The status header while a compaction runs.
pub const COMPACTION_HEADER: &'static str = "Compacting context";

/// What is said below the status header while a compaction runs.
pub const COMPACTION_DETAILS: &'static str = "Making room to continue.";

/// A compaction that is running.
#[derive(Debug)]
pub struct ActiveCompaction {
    pub id: String,
    pub started_at: Instant,
}

/// What an `ActiveCompaction` holds.
pub struct ActiveModel {
    pub id: Seq<char>,
    pub started_at: Instant,
}

impl DeepView for ActiveCompaction {
    type V = ActiveModel;

    open spec fn deep_view(&self) -> ActiveModel {
        ActiveModel { id: self.id@, started_at: self.started_at }
    }
}

/// One thing that the widget has its surroundings do.
#[derive(Debug)]
pub enum Effect {
    /// Finish the answer that is streaming in, with a separator behind it.
    FlushAnswerStream,
    SetStatusTimerOrigin { started_at: Option<Instant> },
    EnsureStatusIndicator,
    SetStatusHeader { header: String },
    AddInfoMessage { message: String, hint: Option<String> },
    AddErrorMessage { error: String },
    Send { event: AppEvent },
}

/// What an `Effect` holds.
pub enum EffectModel {
    FlushAnswerStream,
    SetStatusTimerOrigin { started_at: Option<Instant> },
    EnsureStatusIndicator,
    SetStatusHeader { header: Seq<char> },
    AddInfoMessage { message: Seq<char>, hint: Option<Seq<char>> },
    AddErrorMessage { error: Seq<char> },
    Send { event: cadence_view::AppEventModel },
}

impl DeepView for Effect {
    type V = EffectModel;

    open spec fn deep_view(&self) -> EffectModel {
        match self {
            Effect::FlushAnswerStream => EffectModel::FlushAnswerStream,
            Effect::SetStatusTimerOrigin { started_at } => EffectModel::SetStatusTimerOrigin {
                started_at: *started_at,
            },
            Effect::EnsureStatusIndicator => EffectModel::EnsureStatusIndicator,
            Effect::SetStatusHeader { header } => EffectModel::SetStatusHeader { header: header@ },
            Effect::AddInfoMessage { message, hint } => EffectModel::AddInfoMessage {
                message: message@,
                hint: hint.deep_view(),
            },
            Effect::AddErrorMessage { error } => EffectModel::AddErrorMessage { error: error@ },
            Effect::Send { event } => EffectModel::Send { event: event@ },
        }
    }
}

/// The state of the widget.
#[verifier::ext_equal]
pub struct WidgetModel {
    pub compaction: Option<ActiveModel>,
    pub config: config::ConfigModel,
}

/// What happens when a compaction starts.
pub open spec fn start_effects(started_at: Instant) -> Seq<EffectModel> {
    seq![
        EffectModel::FlushAnswerStream,
        EffectModel::SetStatusTimerOrigin { started_at: Some(started_at) },
        EffectModel::EnsureStatusIndicator,
        EffectModel::SetStatusHeader { header: COMPACTION_HEADER@ },
    ]
}

/// What happens when the status of a compaction is taken down.
pub open spec fn clear_effects() -> Seq<EffectModel> {
    seq![
        EffectModel::SetStatusTimerOrigin { started_at: None },
        EffectModel::SetStatusHeader { header: "Working"@ },
    ]
}

/// A provider by name, and by address where that is known.
pub open spec fn description(provider: config::ProviderModel) -> Seq<char> {
    match provider.base_url {
        Some(base_url) => provider.name + " ("@ + base_url + ")"@,
        None => provider.name,
    }
}

/// Those of `keys` that hold `part`.
pub open spec fn holding(keys: Seq<Seq<char>>, part: Seq<char>) -> Seq<Seq<char>>
    decreases keys.len(),
{
    if keys.len() == 0 {
        Seq::empty()
    } else {
        let rest = holding(keys.drop_last(), part);
        if text::occurs_in(part, keys.last()) {
            rest.push(keys.last())
        } else {
            rest
        }
    }
}

/// Whether a trimmed argument asks for the session's provider.
pub open spec fn means_session(arg: Seq<char>) -> bool {
    let word = text::lowered(arg);
    word == "off"@ || word == "none"@ || word == "session"@
}

impl WidgetModel {
    /// Whether the compaction `id` is the one that is running.
    pub open spec fn runs(self, id: Seq<char>) -> bool {
        self.compaction matches Some(active) && active.id == id
    }

    /// The widget once the compaction `id` has started; nothing happens if it already runs.
    pub open spec fn after_start(self, id: Seq<char>, started_at: Instant) -> WidgetModel {
        if self.runs(id) {
            self
        } else {
            WidgetModel { compaction: Some(ActiveModel { id, started_at }), ..self }
        }
    }

    /// The widget without a running compaction.
    pub open spec fn after_clear(self) -> WidgetModel {
        WidgetModel { compaction: None, ..self }
    }

    /// What taking down the status does: nothing if no compaction runs.
    pub open spec fn clearing(self) -> Seq<EffectModel> {
        if self.compaction is Some {
            clear_effects()
        } else {
            Seq::empty()
        }
    }

    /// What the transcript says of a completed compaction: with its duration if it is the one
    /// that is running and was completed live.
    pub open spec fn completion_message(
        self,
        id: Seq<char>,
        from_replay: bool,
        elapsed: Seq<char>,
    ) -> Seq<char> {
        if self.runs(id) && !from_replay {
            "Context compacted · "@ + elapsed
        } else {
            "Context compacted"@
        }
    }

    /// The widget once the compaction `id` has been completed.
    pub open spec fn after_completion(self, id: Seq<char>) -> WidgetModel {
        if self.runs(id) {
            self.after_clear()
        } else {
            self
        }
    }

    /// What happens when the compaction `id` is completed.
    pub open spec fn completion_effects(
        self,
        id: Seq<char>,
        from_replay: bool,
        elapsed: Seq<char>,
    ) -> Seq<EffectModel> {
        (if self.runs(id) {
            clear_effects()
        } else {
            Seq::empty()
        }).push(
            EffectModel::AddInfoMessage {
                message: self.completion_message(id, from_replay, elapsed),
                hint: None,
            },
        )
    }

    /// The keys that a user may pick for compaction.
    pub open spec fn choices(self) -> Seq<Seq<char>> {
        config::choices(self.config.providers, self.config.session_key)
    }

    /// Where compaction runs, in a sentence.
    pub open spec fn summary(self) -> Seq<char> {
        match self.config.compact_provider {
            Some(provider) => "Compaction runs on "@ + description(provider) + "."@,
            None => "Compaction runs on the session provider, "@ + description(
                self.config.session_provider,
            ) + "."@,
        }
    }

    /// The key that a trimmed argument stands for: itself if it is configured, else the only
    /// choice that holds it.
    pub open spec fn matched(self, arg: Seq<char>) -> Option<Seq<char>> {
        let candidates = holding(self.choices(), arg);
        if config::has_key(self.config.providers, arg) {
            Some(arg)
        } else if candidates.len() == 1 {
            Some(candidates[0])
        } else {
            None
        }
    }

    /// The selection of the provider under `key`; none for the session's own.
    pub open spec fn selection(self, key: Seq<char>) -> EffectModel {
        EffectModel::Send {
            event: cadence_view::AppEventModel::PersistCompactionProviderSelection {
                provider_id: if key == self.config.session_key {
                    None
                } else {
                    Some(key)
                },
            },
        }
    }

    /// What the argument of `/squisher` leads to.
    pub open spec fn selecting(self, argument: Seq<char>) -> EffectModel {
        let arg = text::trimmed(argument);
        if means_session(arg) {
            EffectModel::Send {
                event: cadence_view::AppEventModel::PersistCompactionProviderSelection {
                    provider_id: None,
                },
            }
        } else {
            match self.matched(arg) {
                Some(key) => self.selection(key),
                None => if holding(self.choices(), arg).len() > 1 {
                    EffectModel::AddErrorMessage {
                        error: "`"@ + arg + "` matches several providers: "@ + text::join(
                            holding(self.choices(), arg),
                            ", "@,
                        ),
                    }
                } else {
                    EffectModel::AddErrorMessage {
                        error: "Unknown model provider `"@ + arg + "`. Available: "@
                            + if self.choices().len() == 0 {
                            "(none)"@
                        } else {
                            text::join(self.choices(), ", "@)
                        },
                    }
                },
            }
        }
    }
}

/// The chat widget, as far as compaction goes.
#[derive(Debug)]
pub struct ChatWidget {
    pub compaction: Option<ActiveCompaction>,
    pub config: Config,
}

impl View for ChatWidget {
    type V = WidgetModel;

    open spec fn view(&self) -> WidgetModel {
        WidgetModel { compaction: self.compaction.deep_view(), config: self.config@ }
    }
}

/// A provider by name, and by address where that is known.
pub fn describe_provider(provider: &ModelProviderInfo) -> (out: String)
    ensures
        out@ == description(provider.deep_view()),
{
    match &provider.base_url {
        Some(base_url) => {
            let mut out = provider.name.clone();
            out.append(" (");
            out.append(base_url.as_str());
            out.append(")");
            out
        },
        None => provider.name.clone(),
    }
}

fn keys_holding(keys: &Vec<String>, part: &str) -> (out: Vec<String>)
    ensures
        text::texts(out@) == holding(text::texts(keys@), part@),
{
    let ghost all = text::texts(keys@);
    let mut out: Vec<String> = Vec::new();
    let mut i: usize = 0;
    assert(text::texts(out@) =~= holding(all.take(0), part@));
    while i < keys.len()
        invariant
            all == text::texts(keys@),
            i <= keys@.len(),
            text::texts(out@) == holding(all.take(i as int), part@),
        decreases keys@.len() - i,
    {
        assert(all.take(i + 1).drop_last() =~= all.take(i as int));
        assert(all.take(i + 1).last() == keys@[i as int]@);
        if contains_text(keys[i].as_str(), part) {
            let key = keys[i].clone();
            let ghost before = text::texts(out@);
            let ghost added = key@;
            out.push(key);
            assert(text::texts(out@) =~= before.push(added));
        }
        i += 1;
    }
    assert(all.take(i as int) =~= all);
    out
}

fn no_effects() -> (effects: Vec<Effect>)
    ensures
        effects.deep_view() == Seq::<EffectModel>::empty(),
{
    let effects: Vec<Effect> = Vec::new();
    assert(effects.deep_view() =~= Seq::empty());
    effects
}

impl ChatWidget {
    /// Shows the compaction `id` as running since `started_at`, if it is not shown already.
    pub fn start_context_compaction(&mut self, id: String, started_at: Instant) -> (effects: Vec<
        Effect,
    >)
        ensures
            final(self)@ == old(self)@.after_start(id@, started_at),
            effects.deep_view() == if old(self)@.runs(id@) {
                Seq::empty()
            } else {
                start_effects(started_at)
            },
    {
        if self.runs(id.as_str()) {
            return no_effects();
        }
        self.compaction = Some(ActiveCompaction { id, started_at });
        let effects = vec![
            Effect::FlushAnswerStream,
            Effect::SetStatusTimerOrigin { started_at: Some(started_at) },
            Effect::EnsureStatusIndicator,
            Effect::SetStatusHeader { header: COMPACTION_HEADER.to_owned() },
        ];
        assert(effects.deep_view() =~= start_effects(started_at));
        effects
    }

    /// Shows the compaction `id`, which has been running for `elapsed`, if it is not shown
    /// already. It counts as started at what `Instant::checked_sub` gives for a reading of the
    /// clock and `elapsed`, or at that reading where the clock cannot go back so far; the reading
    /// itself depends on the clock.
    pub fn on_context_compaction_started(&mut self, id: String, elapsed: Duration) -> (effects: Vec<
        Effect,
    >)
        ensures
            old(self)@.runs(id@) ==> *final(self) == *old(self) && effects.deep_view()
                == Seq::<EffectModel>::empty(),
            !old(self)@.runs(id@) ==> final(self)@.compaction is Some && final(self)@
                == old(self)@.after_start(id@, final(self)@.compaction->0.started_at)
                && effects.deep_view() == start_effects(final(self)@.compaction->0.started_at),
            !old(self)@.runs(id@) ==> exists|now: Instant, earlier: Option<Instant>|
                call_ensures(Instant::now, (), now) && #[trigger] call_ensures(
                    Instant::checked_sub,
                    (&now, elapsed),
                    earlier,
                ) && final(self)@.compaction->0.started_at == (match earlier {
                    Some(instant) => instant,
                    None => now,
                }),
    {
        if self.runs(id.as_str()) {
            return no_effects();
        }
        let now = Instant::now();
        let started_at = earliest_start(now, now.checked_sub(elapsed));
        self.start_context_compaction(id, started_at)
    }

    /// Whether the compaction `id` is the one that is running.
    pub fn runs(&self, id: &str) -> (yes: bool)
        ensures
            yes == self@.runs(id@),
    {
        match &self.compaction {
            Some(active) => same_text(active.id.as_str(), id),
            None => false,
        }
    }

    /// Takes down the status of the running compaction, if there is one.
    pub fn clear_context_compaction(&mut self) -> (effects: Vec<Effect>)
        ensures
            final(self)@ == old(self)@.after_clear(),
            effects.deep_view() == old(self)@.clearing(),
    {
        if self.compaction.take().is_some() {
            let effects = vec![
                Effect::SetStatusTimerOrigin { started_at: None },
                Effect::SetStatusHeader { header: "Working".to_owned() },
            ];
            assert(effects.deep_view() =~= clear_effects());
            effects
        } else {
            no_effects()
        }
    }

    /// For how many whole seconds the compaction `id` has been running, if a live completion of
    /// it would be reported with its duration. They are the whole seconds of what
    /// `Instant::elapsed` gives for its start; the number itself depends on the clock.
    pub fn compaction_seconds(&self, id: &str, from_replay: bool) -> (seconds: Option<u64>)
        ensures
            seconds is Some <==> self@.runs(id@) && !from_replay,
            seconds matches Some(whole) ==> self@.compaction matches Some(active) && exists|
                passed: Duration,
            | #[trigger]
                call_ensures(Instant::elapsed, (&active.started_at,), passed) && call_ensures(
                    Duration::as_secs,
                    (&passed,),
                    whole,
                ),
    {
        match &self.compaction {
            Some(active) => if !from_replay && same_text(active.id.as_str(), id) {
                let passed = active.started_at.elapsed();
                let whole: u64 = passed.as_secs();
                assert(call_ensures(Instant::elapsed, (&active.started_at,), passed));
                assert(call_ensures(Duration::as_secs, (&passed,), whole));
                assert(self@.compaction->0.started_at == active.started_at);
                Some(whole)
            } else {
                None
            },
            None => None,
        }
    }

    /// Reports the completion of the compaction `id`. `elapsed` is how long it ran, in words;
    /// it is reported only if that compaction is the one that is running and was completed
    /// live.
    pub fn on_context_compaction_completed(
        &mut self,
        id: &str,
        from_replay: bool,
        elapsed: &str,
    ) -> (effects: Vec<Effect>)
        ensures
            final(self)@ == old(self)@.after_completion(id@),
            effects.deep_view() == old(self)@.completion_effects(id@, from_replay, elapsed@),
    {
        let mut message = "Context compacted".to_owned();
        let mut effects = no_effects();
        if self.runs(id) {
            if !from_replay {
                message = "Context compacted · ".to_owned();
                message.append(elapsed);
            }
            effects = self.clear_context_compaction();
        }
        let ghost before = effects.deep_view();
        let info = Effect::AddInfoMessage { message, hint: None };
        let ghost added = info.deep_view();
        effects.push(info);
        assert(effects.deep_view() =~= before.push(added));
        effects
    }

    /// Provider keys a user may pick for compaction, excluding the session provider itself
    /// (selecting that is spelled `off`), in ascending order.
    pub fn compaction_provider_choices(&self) -> (keys: Vec<String>)
        ensures
            text::texts(keys@) == self@.choices(),
    {
        list_choices(&self.config.model_providers, self.config.model_provider_id.as_str())
    }

    /// Where compaction runs, in a sentence.
    pub fn compaction_provider_summary(&self) -> (out: String)
        ensures
            out@ == self@.summary(),
    {
        let mut out = match &self.config.compact_model_provider {
            Some(provider) => {
                let mut out = "Compaction runs on ".to_owned();
                out.append(describe_provider(provider).as_str());
                out
            },
            None => {
                let mut out = "Compaction runs on the session provider, ".to_owned();
                out.append(describe_provider(&self.config.model_provider).as_str());
                out
            },
        };
        out.append(".");
        out
    }

    /// Applies a persisted compaction provider to the widget's settings and reports it.
    pub fn on_compaction_provider_saved(&mut self, provider_id: Option<String>) -> (effects: Vec<
        Effect,
    >)
        ensures
            final(self)@ == (WidgetModel {
                config: old(self)@.config.with_compact_provider(provider_id.deep_view()),
                ..old(self)@
            }),
            effects.deep_view() == seq![
                EffectModel::AddInfoMessage {
                    message: final(self)@.summary(),
                    hint: Some("Applies to the next compaction checkpoint or compaction."@),
                },
            ],
    {
        self.config.set_compact_provider(&provider_id);
        let effects = vec![
            Effect::AddInfoMessage {
                message: self.compaction_provider_summary(),
                hint: Some(
                    "Applies to the next compaction checkpoint or compaction.".to_owned(),
                ),
            },
        ];
        assert(effects.deep_view() =~= seq![
            EffectModel::AddInfoMessage {
                message: self@.summary(),
                hint: Some("Applies to the next compaction checkpoint or compaction."@),
            },
        ]);
        effects
    }

    /// `/squisher <provider|off>`: selects the compaction provider that the argument stands
    /// for, a key or a part that a single choice holds, or says why there is none.
    pub fn select_compaction_provider(&self, arg: &str) -> (effect: Effect)
        ensures
            effect.deep_view() == self@.selecting(arg@),
    {
        let arg = trim(arg);
        let word = lowercase(arg.as_str());
        if same_text(word.as_str(), "off") || same_text(word.as_str(), "none") || same_text(
            word.as_str(),
            "session",
        ) {
            return Effect::Send {
                event: AppEvent::PersistCompactionProviderSelection { provider_id: None },
            };
        }
        if contains_key(&self.config.model_providers, arg.as_str()) {
            return self.select_key(arg);
        }
        let choices = self.compaction_provider_choices();
        let candidates = keys_holding(&choices, arg.as_str());
        assert(candidates@.len() == text::texts(candidates@).len());
        assert(choices@.len() == text::texts(choices@).len());
        if candidates.len() == 1 {
            assert(text::texts(candidates@)[0] == candidates@[0]@);
            return self.select_key(candidates[0].clone());
        }
        let mut error = String::new();
        if candidates.len() > 1 {
            error.append("`");
            error.append(arg.as_str());
            error.append("` matches several providers: ");
            error.append(join_texts(&candidates, ", ").as_str());
            assert(error@ =~= "`"@ + arg@ + "` matches several providers: "@ + text::join(
                text::texts(candidates@),
                ", "@,
            ));
        } else {
            error.append("Unknown model provider `");
            error.append(arg.as_str());
            error.append("`. Available: ");
            let available = if choices.is_empty() {
                "(none)".to_owned()
            } else {
                join_texts(&choices, ", ")
            };
            error.append(available.as_str());
            assert(error@ =~= "Unknown model provider `"@ + arg@ + "`. Available: "@ + available@);
        }
        Effect::AddErrorMessage { error }
    }

    fn select_key(&self, key: String) -> (effect: Effect)
        ensures
            effect.deep_view() == self@.selection(key@),
    {
        if same_text(key.as_str(), self.config.model_provider_id.as_str()) {
            Effect::Send { event: AppEvent::PersistCompactionProviderSelection { provider_id: None } }
        } else {
            Effect::Send {
                event: AppEvent::PersistCompactionProviderSelection { provider_id: Some(key) },
            }
        }
    }
}

/// When a compaction counts as started: `earlier` where the clock could go back, else `now`.
pub fn earliest_start(now: Instant, earlier: Option<Instant>) -> (started_at: Instant)
    ensures
        started_at == match earlier {
            Some(instant) => instant,
            None => now,
        },
{
    match earlier {
        Some(instant) => instant,
        None => now,
    }
}

proof fn lemma_holding(keys: Seq<Seq<char>>, part: Seq<char>, key: Seq<char>)
    ensures
        holding(keys, part).contains(key) <==> keys.contains(key) && text::occurs_in(part, key),
    decreases keys.len(),
{
    if keys.len() > 0 {
        let front = keys.drop_last();
        let rest = holding(front, part);
        let out = holding(keys, part);
        lemma_holding(front, part, key);
        if front.contains(key) {
            let i = choose|i: int| 0 <= i < front.len() && front[i] == key;
            assert(keys[i] == key);
        }
        if keys.contains(key) && keys.last() != key {
            let i = choose|i: int| 0 <= i < keys.len() && keys[i] == key;
            assert(front[i] == key);
        }
        if keys.last() == key {
            assert(keys[keys.len() - 1] == key);
            if text::occurs_in(part, key) {
                assert(out[out.len() - 1] == key);
            }
        }
        if rest.contains(key) {
            let i = choose|i: int| 0 <= i < rest.len() && rest[i] == key;
            assert(out[i] == key);
        }
        if out.contains(key) {
            let i = choose|i: int| 0 <= i < out.len() && out[i] == key;
            if i < rest.len() {
                assert(rest[i] == key);
            }
        }
    }
}

/// Whatever the argument, a selection is the session's provider or one of the choices.
pub proof fn law_selections_are_choices(widget: WidgetModel, argument: Seq<char>)
    ensures
        match widget.selecting(argument) {
            EffectModel::Send { event } => event matches
                cadence_view::AppEventModel::PersistCompactionProviderSelection { provider_id }
                && (provider_id matches Some(key) ==> widget.choices().contains(key)),
            EffectModel::AddErrorMessage { error: _ } => true,
            _ => false,
        },
{
    let arg = text::trimmed(argument);
    let candidates = holding(widget.choices(), arg);
    if let Some(key) = widget.matched(arg) {
        if config::has_key(widget.config.providers, arg) {
            config::law_choices_are_the_other_keys(
                widget.config.providers,
                widget.config.session_key,
                arg,
            );
        } else {
            assert(candidates.contains(candidates[0]));
            lemma_holding(widget.choices(), arg, candidates[0]);
        }
    }
}

/// A configured key is selected as it is, even where other keys hold it; the key of the
/// session's provider selects that.
pub proof fn law_exact_keys_are_selected(widget: WidgetModel, argument: Seq<char>)
    requires
        config::has_key(widget.config.providers, text::trimmed(argument)),
        !means_session(text::trimmed(argument)),
    ensures
        widget.selecting(argument) == widget.selection(text::trimmed(argument)),
{
}

/// A part of a key that exactly one choice holds selects that choice.
pub proof fn law_unique_parts_are_selected(
    widget: WidgetModel,
    argument: Seq<char>,
    key: Seq<char>,
)
    requires
        !means_session(text::trimmed(argument)),
        !config::has_key(widget.config.providers, text::trimmed(argument)),
        holding(widget.choices(), text::trimmed(argument)) == seq![key],
    ensures
        widget.selecting(argument) == (EffectModel::Send {
            event: cadence_view::AppEventModel::PersistCompactionProviderSelection {
                provider_id: Some(key),
            },
        }),
{
    let arg = text::trimmed(argument);
    assert(seq![key].contains(seq![key][0]));
    lemma_holding(widget.choices(), arg, key);
    config::law_choices_are_the_other_keys(
        widget.config.providers,
        widget.config.session_key,
        key,
    );
}

/// Only a matching live completion has a duration in the transcript: otherwise the report does
/// not depend on it.
pub proof fn law_only_a_matching_live_completion_has_a_duration(
    widget: WidgetModel,
    id: Seq<char>,
    from_replay: bool,
    elapsed: Seq<char>,
    other: Seq<char>,
)
    ensures
        widget.runs(id) && !from_replay ==> widget.completion_message(id, from_replay, elapsed)
            == "Context compacted · "@ + elapsed,
        !(widget.runs(id) && !from_replay) ==> widget.completion_message(
            id,
            from_replay,
            elapsed,
        ) == widget.completion_message(id, from_replay, other),
{
}

/// A compaction that is started again keeps its first start.
pub proof fn law_starting_twice_is_starting_once(
    widget: WidgetModel,
    id: Seq<char>,
    first: Instant,
    second: Instant,
)
    ensures
        widget.after_start(id, first).after_start(id, second) == widget.after_start(id, first),
{
}

/// Completing the running compaction takes its status down; completing another leaves it up.
/// Neither touches the settings.
pub proof fn law_completion_ends_its_own_compaction(
    widget: WidgetModel,
    id: Seq<char>,
    started_at: Instant,
    other: Seq<char>,
)
    requires
        other != id,
    ensures
        widget.after_start(id, started_at).after_completion(id) == widget.after_clear(),
        widget.after_start(id, started_at).after_completion(other) == widget.after_start(
            id,
            started_at,
        ),
{
}

} // verus!
