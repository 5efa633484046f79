//! What holds of the chat widget, its provider menu and the voice settings, stated over arguments,
//! providers and messages.

use std::time::Instant;

use vstd::prelude::*;
use vstd::string::*;

use crate::cadence_view::AppEventModel;
use crate::chat_widget;
use crate::chat_widget::{ChatWidget, Effect, EffectModel, WidgetModel};
use crate::config;
use crate::provider_picker;
use crate::provider_picker::{FooterHint, ItemModel, SelectionItem, SelectionViewParams};
use crate::settings;
use crate::settings::{SettingsEffect, SettingsEffectModel, WriteResponse, WriteStatus};
use crate::text;
use crate::text_laws;
use crate::voice;
use crate::voice::VoiceEntryModel;

verus! {

/// A compaction that starts is the one that runs, from its start on and in place of any other,
/// unless it runs already; then nothing changes.
pub proof fn law_a_started_compaction_runs(
    widget: WidgetModel,
    id: Seq<char>,
    started_at: Instant,
)
    ensures
        widget.runs(id) <==> widget.compaction is Some && widget.compaction->0.id == id,
        widget.runs(id) ==> widget.after_start(id, started_at) == widget,
        !widget.runs(id) ==> {
            let after = widget.after_start(id, started_at);
            &&& after.compaction is Some
            &&& after.compaction->0.id == id
            &&& after.compaction->0.started_at == started_at
            &&& after.config == widget.config
        },
{
}

/// A start is shown in four steps: the answer is finished, the timer starts, the indicator comes
/// up, and the header says what is going on.
pub proof fn law_starts_are_shown_in_order(started_at: Instant)
    ensures
        ({
            let effects = chat_widget::start_effects(started_at);
            &&& effects.len() == 4
            &&& effects[0] == EffectModel::FlushAnswerStream
            &&& effects[1] == (EffectModel::SetStatusTimerOrigin { started_at: Some(started_at) })
            &&& effects[2] == EffectModel::EnsureStatusIndicator
            &&& effects[3] == (EffectModel::SetStatusHeader {
                header: chat_widget::COMPACTION_HEADER@,
            })
        }),
{
}

/// Taking the status down stops the timer and brings back the usual header, where there was a
/// status; it leaves no compaction running and the settings alone.
pub proof fn law_a_cleared_compaction_is_gone(widget: WidgetModel)
    ensures
        widget.after_clear().compaction is None,
        widget.after_clear().config == widget.config,
        widget.compaction is None ==> widget.clearing().len() == 0,
        widget.compaction is Some ==> widget.clearing() == seq![
            EffectModel::SetStatusTimerOrigin { started_at: None },
            EffectModel::SetStatusHeader { header: "Working"@ },
        ],
{
}

/// Every completion is reported, with its duration if it is that of the running compaction and
/// live; before that the status of the running one is taken down, and no other.
pub proof fn law_every_completion_is_reported(
    widget: WidgetModel,
    id: Seq<char>,
    from_replay: bool,
    elapsed: Seq<char>,
)
    ensures
        ({
            let effects = widget.completion_effects(id, from_replay, elapsed);
            let after = widget.after_completion(id);
            &&& effects.last() == (EffectModel::AddInfoMessage {
                message: if widget.compaction is Some && widget.compaction->0.id == id
                    && !from_replay {
                    "Context compacted · "@ + elapsed
                } else {
                    "Context compacted"@
                },
                hint: None,
            })
            &&& widget.compaction is Some && widget.compaction->0.id == id ==> {
                &&& effects.drop_last() == widget.clearing()
                &&& after.compaction is None
                &&& after.config == widget.config
            }
            &&& !(widget.compaction is Some && widget.compaction->0.id == id) ==> {
                &&& effects.len() == 1
                &&& after == widget
            }
        }),
{
    let effects = widget.completion_effects(id, from_replay, elapsed);
    assert(effects.drop_last() =~= if widget.runs(id) {
        chat_widget::clear_effects()
    } else {
        Seq::empty()
    });
}

/// A provider is described by its name, and by its address in brackets where it has one.
pub proof fn law_descriptions_hold_name_and_address(provider: config::ProviderModel)
    ensures
        provider.base_url is None ==> chat_widget::description(provider) == provider.name,
        provider.base_url matches Some(url) ==> {
            let out = chat_widget::description(provider);
            let n = provider.name.len() as int;
            &&& out.len() == n + url.len() + 3
            &&& text::stands_at(provider.name, out, 0)
            &&& text::stands_at(seq![' ', '('], out, n)
            &&& text::stands_at(url, out, n + 2)
            &&& text::stands_at(seq![')'], out, n + 2 + url.len())
        },
{
    reveal_strlit(" (");
    reveal_strlit(")");
    if let Some(url) = provider.base_url {
        let out = chat_widget::description(provider);
        let n = provider.name.len() as int;
        assert(" ("@ =~= seq![' ', '(']);
        assert(")"@ =~= seq![')']);
        assert(out.subrange(0, n) =~= provider.name);
        assert(out.subrange(n, n + 2) =~= seq![' ', '(']);
        assert(out.subrange(n + 2, n + 2 + url.len()) =~= url);
        assert(out.subrange(n + 2 + url.len(), n + 3 + url.len()) =~= seq![')']);
    }
}

/// Where compaction runs is told by the description of its provider, or of the session's where it
/// has none.
pub proof fn law_the_summary_tells_where_compaction_runs(widget: WidgetModel)
    ensures
        widget.config.compact_provider matches Some(provider) ==> widget.summary()
            == "Compaction runs on "@ + chat_widget::description(provider) + "."@,
        widget.config.compact_provider is None ==> widget.summary()
            == "Compaction runs on the session provider, "@ + chat_widget::description(
            widget.config.session_provider,
        ) + "."@,
{
}

/// The words for the session's provider are `off`, `none` and `session`, with or without
/// capitals, and no others.
pub proof fn law_three_words_mean_the_session(arg: Seq<char>)
    ensures
        chat_widget::means_session(arg) <==> text::lowered(arg) == seq!['o', 'f', 'f']
            || text::lowered(arg) == seq!['n', 'o', 'n', 'e'] || text::lowered(arg) == seq![
            's',
            'e',
            's',
            's',
            'i',
            'o',
            'n',
        ],
{
    reveal_strlit("off");
    reveal_strlit("none");
    reveal_strlit("session");
    assert("off"@ =~= seq!['o', 'f', 'f']);
    assert("none"@ =~= seq!['n', 'o', 'n', 'e']);
    assert("session"@ =~= seq!['s', 'e', 's', 's', 'i', 'o', 'n']);
}

proof fn lemma_holding_picks(
    keys: Seq<Seq<char>>,
    part: Seq<char>,
    n: nat,
    wanted: spec_fn(int) -> bool,
)
    requires
        n <= keys.len(),
        wanted == (|i: int| text::occurs_in(part, keys[i])),
    ensures
        chat_widget::holding(keys.take(n as int), part) == text_laws::picked(n, wanted).map_values(
            |i: int| keys[i],
        ),
    decreases n,
{
    let f = |i: int| keys[i];
    if n > 0 {
        lemma_holding_picks(keys, part, (n - 1) as nat, wanted);
        let rest = text_laws::picked((n - 1) as nat, wanted);
        assert(keys.take(n as int).drop_last() =~= keys.take(n - 1));
        assert(keys.take(n as int).last() == keys[n - 1]);
        if wanted(n - 1) {
            assert(rest.push(n - 1).map_values(f) =~= rest.map_values(f).push(f(n - 1)));
        }
    } else {
        assert(text_laws::picked(0, wanted).map_values(f) =~= Seq::empty());
    }
}

/// The selection of a provider by its key, or of the session's.
pub open spec fn selects(provider_id: Option<Seq<char>>) -> EffectModel {
    EffectModel::Send { event: AppEventModel::PersistCompactionProviderSelection { provider_id } }
}

/// What an argument leads to, whatever it is, once the white space around it is gone: a word for
/// the session selects that; a configured key selects its provider, or the session's if it is the
/// session's key; a part of exactly one choice selects that choice; a part of several is refused
/// with all of them named, and any other argument with all choices named.
pub proof fn law_what_an_argument_leads_to(widget: WidgetModel, argument: Seq<char>) -> (picks: Seq<
    int,
>)
    ensures
        ({
            let arg = text::trimmed(argument);
            let keys = widget.choices();
            let out = widget.selecting(argument);
            let session = chat_widget::means_session(arg);
            let configured = exists|i: int|
                0 <= i < widget.config.providers.len() && (
                #[trigger] widget.config.providers[i]).key == arg;
            &&& text_laws::picks_out(
                picks,
                keys.len(),
                |i: int| text::occurs_in(arg, keys[i]),
            )
            &&& session ==> out == selects(None)
            &&& !session && configured && arg == widget.config.session_key ==> out == selects(None)
            &&& !session && configured && arg != widget.config.session_key ==> out == selects(
                Some(arg),
            )
            &&& !session && !configured && picks.len() == 1 ==> out == selects(
                Some(keys[picks[0]]),
            )
            &&& !session && !configured && picks.len() > 1 ==> out == (
            EffectModel::AddErrorMessage {
                error: "`"@ + arg + "` matches several providers: "@ + text::join(
                    Seq::new(picks.len(), |p: int| keys[picks[p]]),
                    ", "@,
                ),
            })
            &&& !session && !configured && picks.len() == 0 && keys.len() == 0 ==> out == (
            EffectModel::AddErrorMessage {
                error: "Unknown model provider `"@ + arg + "`. Available: "@ + "(none)"@,
            })
            &&& !session && !configured && picks.len() == 0 && keys.len() > 0 ==> out == (
            EffectModel::AddErrorMessage {
                error: "Unknown model provider `"@ + arg + "`. Available: "@ + text::join(
                    keys,
                    ", "@,
                ),
            })
        }),
{
    let arg = text::trimmed(argument);
    let keys = widget.choices();
    let wanted = |i: int| text::occurs_in(arg, keys[i]);
    let picks = text_laws::picked(keys.len(), wanted);
    text_laws::lemma_picked(keys.len(), wanted);
    lemma_holding_picks(keys, arg, keys.len(), wanted);
    assert(keys.take(keys.len() as int) =~= keys);
    let held = chat_widget::holding(keys, arg);
    assert(held =~= Seq::new(picks.len(), |p: int| keys[picks[p]]));
    if picks.len() == 1 {
        let key = keys[picks[0]];
        assert(wanted(picks[0]));
        assert(held[0] == key);
        assert(keys.contains(key));
        config::law_choices_are_the_other_keys(
            widget.config.providers,
            widget.config.session_key,
            key,
        );
    }
    picks
}

/// Each effect is told by everything in it.
pub proof fn law_effects_are_told_by_their_parts(effect: Effect)
    ensures
        effect matches Effect::SetStatusTimerOrigin { started_at } ==> effect.deep_view() == (
        EffectModel::SetStatusTimerOrigin { started_at }),
        effect matches Effect::SetStatusHeader { header } ==> effect.deep_view() == (
        EffectModel::SetStatusHeader { header: header@ }),
        effect matches Effect::AddInfoMessage { message, hint } ==> effect.deep_view() == (
        EffectModel::AddInfoMessage {
            message: message@,
            hint: match hint {
                Some(hint) => Some(hint@),
                None => None,
            },
        }),
        effect matches Effect::AddErrorMessage { error } ==> effect.deep_view() == (
        EffectModel::AddErrorMessage { error: error@ }),
        effect matches Effect::Send { event } ==> effect.deep_view() == (EffectModel::Send {
            event: event@,
        }),
        effect == Effect::FlushAnswerStream ==> effect.deep_view()
            == EffectModel::FlushAnswerStream,
        effect == Effect::EnsureStatusIndicator ==> effect.deep_view()
            == EffectModel::EnsureStatusIndicator,
{
}

/// The widget is told by its running compaction and its settings.
pub proof fn law_the_widget_is_told_by_its_parts(widget: ChatWidget)
    ensures
        widget@.config == widget.config@,
        widget.compaction is None <==> widget@.compaction is None,
        widget.compaction matches Some(active) ==> widget@.compaction is Some
            && widget@.compaction->0.id == active.id@ && widget@.compaction->0.started_at
            == active.started_at,
{
}

/// The first entry of the menu is for the session's provider: it is named by the session's key,
/// told by the session's provider, found under `off`, `session` and the key, and current exactly
/// if compaction has no configured provider of its own.
pub proof fn law_the_first_entry_is_the_session(widget: WidgetModel)
    ensures
        ({
            let item = provider_picker::menu_items(widget)[0];
            let key = widget.config.session_key;
            &&& item.name == "Session provider ("@ + key + ")"@
            &&& item.description == Some(
                "Compact on the same server as the conversation: "@ + chat_widget::description(
                    widget.config.session_provider,
                ),
            )
            &&& (item.is_current <==> match widget.config.compact_provider {
                Some(info) => config::key_of(widget.config.providers, info) is None,
                None => true,
            })
            &&& item.action == (AppEventModel::PersistCompactionProviderSelection {
                provider_id: None,
            })
            &&& item.dismiss_on_select
            &&& item.search_value == Some("off session "@ + key)
        }),
{
}

/// Every other entry is for one choice, in the order of the choices: it is named by its key, told
/// by the provider under that key, found by key and address, current exactly if the compaction
/// provider is configured under that key, and picking it selects it.
pub proof fn law_every_other_entry_is_a_choice(widget: WidgetModel, i: int)
    requires
        0 <= i < widget.choices().len(),
    ensures
        ({
            let item = provider_picker::menu_items(widget)[i + 1];
            let key = widget.choices()[i];
            let info = config::lookup(widget.config.providers, key);
            &&& provider_picker::menu_items(widget).len() == widget.choices().len() + 1
            &&& info is Some
            &&& item.name == key
            &&& item.description == Some(chat_widget::description(info->0))
            &&& (item.is_current <==> match widget.config.compact_provider {
                Some(current) => config::key_of(widget.config.providers, current) == Some(key),
                None => false,
            })
            &&& item.action == (AppEventModel::PersistCompactionProviderSelection {
                provider_id: Some(key),
            })
            &&& item.dismiss_on_select
            &&& item.search_value == Some(
                key + " "@ + match info->0.base_url {
                    Some(url) => url,
                    None => Seq::empty(),
                },
            )
        }),
{
    provider_picker::lemma_menu_entry(widget, i);
    assert(widget.choices().contains(widget.choices()[i]));
    config::law_choices_are_the_other_keys(
        widget.config.providers,
        widget.config.session_key,
        widget.choices()[i],
    );
    config::law_keys_have_providers(widget.config.providers, widget.choices()[i]);
}

/// The first current entry is current and none before it is; there is none exactly if no entry is
/// current.
pub proof fn law_the_first_current_entry(items: Seq<ItemModel>)
    ensures
        provider_picker::first_current(items) matches Some(i) ==> 0 <= i < items.len()
            && items[i].is_current && forall|j: int|
            0 <= j < i ==> !(#[trigger] items[j]).is_current,
        provider_picker::first_current(items) is None <==> forall|j: int|
            0 <= j < items.len() ==> !(#[trigger] items[j]).is_current,
    decreases items.len(),
{
    if items.len() > 0 {
        let front = items.drop_last();
        law_the_first_current_entry(front);
        match provider_picker::first_current(front) {
            Some(i) => {
                assert(front[i] == items[i]);
                assert forall|j: int| 0 <= j < i implies !(#[trigger] items[j]).is_current by {
                    assert(front[j] == items[j]);
                }
            },
            None => {
                assert forall|j: int| 0 <= j < front.len() implies !(
                #[trigger] items[j]).is_current by {
                    assert(front[j] == items[j]);
                }
                assert(items.last() == items[items.len() - 1]);
            },
        }
    }
}

/// The menu asks where compaction should run, says where it does, opens on the first current
/// entry, can be searched if it has more than four entries, and has the standard hint below it.
pub proof fn law_what_the_menu_consists_of(menu: SelectionViewParams, widget: WidgetModel)
    requires
        provider_picker::is_menu(menu, widget),
    ensures
        menu.title is Some && menu.title->0@ == "Where should compaction run?"@,
        menu.subtitle is Some && menu.subtitle->0@ == widget.summary(),
        menu.search_placeholder is Some && menu.search_placeholder->0@
            == "Type to filter providers"@,
        menu.footer_hint == Some(FooterHint::StandardPopup),
        menu.is_searchable <==> menu.items@.len() > 4,
        menu.items@.len() == provider_picker::menu_items(widget).len(),
        forall|i: int|
            0 <= i < menu.items@.len() ==> (#[trigger] menu.items@[i]).deep_view()
                == provider_picker::menu_items(widget)[i],
        menu.initial_selected_idx matches Some(i) ==> i < menu.items@.len()
            && menu.items@[i as int].is_current && forall|j: int|
            0 <= j < i ==> !(#[trigger] menu.items@[j]).is_current,
        menu.initial_selected_idx is None ==> forall|j: int|
            0 <= j < menu.items@.len() ==> !(#[trigger] menu.items@[j]).is_current,
{
    let items = menu.items.deep_view();
    law_the_first_current_entry(items);
    assert(items.len() == menu.items@.len());
    assert forall|i: int| 0 <= i < menu.items@.len() implies (
    #[trigger] menu.items@[i]).deep_view() == items[i] by {}
    assert forall|i: int| 0 <= i < menu.items@.len() implies (
    #[trigger] menu.items@[i]).is_current == items[i].is_current by {
        assert(items[i] == menu.items@[i].deep_view());
    }
}

/// An entry of the menu is told by everything in it.
pub proof fn law_entries_are_told_by_their_parts(item: SelectionItem)
    ensures
        item.deep_view().name == item.name@,
        item.deep_view().description == (match item.description {
            Some(text) => Some(text@),
            None => None,
        }),
        item.deep_view().is_current == item.is_current,
        item.deep_view().action == item.action@,
        item.deep_view().dismiss_on_select == item.dismiss_on_select,
        item.deep_view().search_value == (match item.search_value {
            Some(text) => Some(text@),
            None => None,
        }),
{
}

/// What a value in the settings says of the voice: nothing if it is not there or null, a text if
/// it starts with a quotation mark, and else something that is neither.
pub proof fn law_what_a_value_says_of_the_voice(json: Seq<char>)
    ensures
        voice::entry_of(None) == VoiceEntryModel::Unset,
        json == seq!['n', 'u', 'l', 'l'] ==> voice::entry_of(Some(json)) == VoiceEntryModel::Unset,
        json.len() > 0 && json[0] == '"' ==> voice::entry_of(Some(json)) == (
        VoiceEntryModel::Text { json }),
        json != seq!['n', 'u', 'l', 'l'] && !(json.len() > 0 && json[0] == '"') ==> voice::entry_of(
            Some(json),
        ) == (VoiceEntryModel::Other { json }),
{
    reveal_strlit("null");
    assert("null"@ =~= seq!['n', 'u', 'l', 'l']);
}

/// A value that is neither a text nor unset gives the voice that it names, or the error that came
/// of reading it.
pub proof fn law_other_values_must_name_a_voice<E>(
    json: Seq<char>,
    parsed: Result<config::RealtimeVoice, E>,
    default_voice: config::RealtimeVoice,
)
    ensures
        ({
            let voice = voice::voice_of(VoiceEntryModel::Other { json }, parsed, default_voice);
            &&& parsed matches Ok(known) ==> voice == Ok::<Option<config::RealtimeVoice>, E>(
                Some(known),
            )
            &&& parsed matches Err(error) ==> voice == Err::<Option<config::RealtimeVoice>, E>(
                error,
            )
        }),
{
}

/// Once a voice was saved, the voice that the server reads back is in effect, whatever was saved;
/// where it reads none back the saved one is, unless another source overrides it. What is in
/// effect is in the settings and shown, and then reported as saved if it is the saved one, or else
/// as not applied.
pub proof fn law_the_voice_read_back_is_in_effect(
    config: config::ConfigModel,
    voice: Seq<char>,
    response: WriteResponse,
    configured: Option<Seq<char>>,
)
    ensures
        ({
            let (after, effects) = voice::saved_voice(
                config,
                voice,
                response,
                Ok(Some(configured)),
            );
            &&& after == (config::ConfigModel { voice: configured, ..config })
            &&& effects.len() == 2
            &&& effects[0] == (SettingsEffectModel::SetRealtimeVoice { effective: configured })
            &&& configured == Some(voice) ==> effects[1] == (
            SettingsEffectModel::RealtimeVoiceSaved { voice })
            &&& configured != Some(voice) ==> effects[1] == (SettingsEffectModel::AddErrorMessage {
                error: "Voice preference was saved but not applied: "@ + response.overridden_by@,
            })
        }),
        response.status == WriteStatus::Written ==> {
            let (after, effects) = voice::saved_voice(config, voice, response, Ok(None));
            &&& after == (config::ConfigModel { voice: Some(voice), ..config })
            &&& effects == seq![
                SettingsEffectModel::SetRealtimeVoice { effective: Some(voice) },
                SettingsEffectModel::RealtimeVoiceSaved { voice },
            ]
        },
{
}

/// Where the settings cannot be read back, nothing changes and the reason is reported; so it is
/// where the saved voice is overridden and the server cannot say by what.
pub proof fn law_unread_settings_change_nothing(
    config: config::ConfigModel,
    voice: Seq<char>,
    response: WriteResponse,
    error: Seq<char>,
)
    ensures
        voice::saved_voice(config, voice, response, Err(error)) == (
            config,
            seq![
                SettingsEffectModel::AddErrorMessage {
                    error:
                        "Voice preference was saved, but effective settings could not be read: "@
                        + error,
                },
            ],
        ),
        response.status == WriteStatus::OkOverridden ==> voice::saved_voice(
            config,
            voice,
            response,
            Ok(None),
        ) == (
            config,
            seq![
                SettingsEffectModel::AddErrorMessage {
                    error:
                        "Voice preference was saved, but effective settings could not be read: "@
                        + "the saved voice is overridden, but this server cannot read effective settings"@,
                },
            ],
        ),
{
}

/// A read of the settings is told by what came of it.
pub proof fn law_reads_are_told_by_their_outcome(
    configured: Option<config::RealtimeVoice>,
    error: String,
)
    ensures
        voice::read_model(Ok(None)) == Ok::<Option<Option<Seq<char>>>, Seq<char>>(None),
        voice::read_model(Err(error)) == Err::<Option<Option<Seq<char>>>, Seq<char>>(error@),
        voice::read_model(Ok(Some(configured))) == Ok::<Option<Option<Seq<char>>>, Seq<char>>(
            Some(
                match configured {
                    Some(voice) => Some(voice.name@),
                    None => None,
                },
            ),
        ),
{
}

/// The id of a request is its prefix and then the UUID.
pub proof fn law_request_ids_end_with_the_uuid(uuid: Seq<char>)
    ensures
        voice::voice_list_id(uuid) == "tui-voice-list-"@ + uuid,
{
}

/// An effect on the settings is told by everything in it.
pub proof fn law_settings_effects_are_told_by_their_parts(effect: SettingsEffect)
    ensures
        effect matches SettingsEffect::AddErrorMessage { error } ==> effect.deep_view() == (
        SettingsEffectModel::AddErrorMessage { error: error@ }),
        effect matches SettingsEffect::CompactionSettingsSaved { settings } ==> effect.deep_view()
            == (SettingsEffectModel::CompactionSettingsSaved { settings: settings@ }),
        effect matches SettingsEffect::SetRealtimeVoice { effective } ==> effect.deep_view() == (
        SettingsEffectModel::SetRealtimeVoice {
            effective: match effective {
                Some(voice) => Some(voice.name@),
                None => None,
            },
        }),
        effect matches SettingsEffect::RealtimeVoiceSaved { voice } ==> effect.deep_view() == (
        SettingsEffectModel::RealtimeVoiceSaved { voice: voice.name@ }),
        effect matches SettingsEffect::OpenRealtimeSettings { current } ==> effect.deep_view() == (
        SettingsEffectModel::OpenRealtimeSettings {
            current: match current {
                Some(voice) => Some(voice.name@),
                None => None,
            },
        }),
{
}

/// Compaction settings and the edits that persist them are told by everything in them.
pub proof fn law_settings_and_edits_are_told_by_their_parts(
    given: settings::CompactionSettings,
    edit: settings::ConfigEdit,
)
    ensures
        given@.provider_id == (match given.provider_id {
            Some(key) => Some(key@),
            None => None,
        }),
        given@.checkpoint_percents == (match given.checkpoint_percents {
            Some(percents) => Some(percents@),
            None => None,
        }),
        given@.trigger_percent == given.trigger_percent,
        edit matches settings::ConfigEdit::Clear { key_path } ==> edit.deep_view() == (
        settings::EditModel::Clear { key_path: key_path@ }),
        edit matches settings::ConfigEdit::Replace { key_path, value } ==> (edit.deep_view() matches
            settings::EditModel::Replace { key_path: path, value: model } && path == key_path@
            && match value {
            settings::ConfigValue::Text { text } => model == (settings::ValueModel::Text {
                text: text@,
            }),
            settings::ConfigValue::Percents { percents } => model == (
            settings::ValueModel::Percents { percents: percents@ }),
            settings::ConfigValue::Percent { percent } => model == (
            settings::ValueModel::Percent { percent }),
        }),
{
}

/// What the settings say of the voice is told by its kind and its text.
pub proof fn law_voice_entries_are_told_by_their_parts(entry: voice::VoiceEntry)
    ensures
        entry == voice::VoiceEntry::Unset ==> entry@ == VoiceEntryModel::Unset,
        entry matches voice::VoiceEntry::Text { json } ==> entry@ == (VoiceEntryModel::Text {
            json: json@,
        }),
        entry matches voice::VoiceEntry::Other { json } ==> entry@ == (VoiceEntryModel::Other {
            json: json@,
        }),
{
}

/// The member of an object under a name is the one that the object holds under it.
pub proof fn law_members_are_found_by_name(value: serde_json::Value, name: Seq<char>)
    ensures
        voice::members(value).contains_key(name) ==> voice::member(value, name) == Some(
            voice::members(value)[name],
        ),
        !voice::members(value).contains_key(name) ==> voice::member(value, name) is None,
{
}

} // verus!
