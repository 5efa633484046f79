//! Resolve and persist compaction and voice preferences through the owning server before
//! updating the UI.

use vstd::prelude::*;
use vstd::string::*;

use crate::config;
use crate::config::{Config, RealtimeVoice};
use crate::text::two_texts;

verus! {

/// A value in a configuration file.
#[derive(Debug, PartialEq, Eq)]
pub enum ConfigValue {
    Text { text: String },
    Percents { percents: Vec<u8> },
    Percent { percent: u8 },
}

/// What a `ConfigValue` holds.
pub enum ValueModel {
    Text { text: Seq<char> },
    Percents { percents: Seq<u8> },
    Percent { percent: u8 },
}

impl View for ConfigValue {
    type V = ValueModel;

    open spec fn view(&self) -> ValueModel {
        match self {
            ConfigValue::Text { text } => ValueModel::Text { text: text@ },
            ConfigValue::Percents { percents } => ValueModel::Percents { percents: percents@ },
            ConfigValue::Percent { percent } => ValueModel::Percent { percent: *percent },
        }
    }
}

/// A change to a configuration file.
#[derive(Debug, PartialEq, Eq)]
pub enum ConfigEdit {
    Replace { key_path: String, value: ConfigValue },
    Clear { key_path: String },
}

/// What a `ConfigEdit` holds.
pub enum EditModel {
    Replace { key_path: Seq<char>, value: ValueModel },
    Clear { key_path: Seq<char> },
}

impl DeepView for ConfigEdit {
    type V = EditModel;

    open spec fn deep_view(&self) -> EditModel {
        match self {
            ConfigEdit::Replace { key_path, value } => EditModel::Replace {
                key_path: key_path@,
                value: value@,
            },
            ConfigEdit::Clear { key_path } => EditModel::Clear { key_path: key_path@ },
        }
    }
}

/// The compaction settings that are to be persisted. The provider is always written; without a
/// key that means the session's. Percentages are written where they are given.
#[derive(Debug, PartialEq, Eq)]
pub struct CompactionSettings {
    pub provider_id: Option<String>,
    pub checkpoint_percents: Option<Vec<u8>>,
    pub trigger_percent: Option<u8>,
}

/// What `CompactionSettings` hold.
pub struct SettingsModel {
    pub provider_id: Option<Seq<char>>,
    pub checkpoint_percents: Option<Seq<u8>>,
    pub trigger_percent: Option<u8>,
}

impl View for CompactionSettings {
    type V = SettingsModel;

    open spec fn view(&self) -> SettingsModel {
        SettingsModel {
            provider_id: self.provider_id.deep_view(),
            checkpoint_percents: match self.checkpoint_percents {
                Some(percents) => Some(percents@),
                None => None,
            },
            trigger_percent: self.trigger_percent,
        }
    }
}

/// The change of the provider.
pub open spec fn provider_edit(provider_id: Option<Seq<char>>) -> EditModel {
    match provider_id {
        Some(key) => EditModel::Replace {
            key_path: "compact_model_provider"@,
            value: ValueModel::Text { text: key },
        },
        None => EditModel::Clear { key_path: "compact_model_provider"@ },
    }
}

/// The changes that persist settings, to be written in one batch.
pub open spec fn edits(settings: SettingsModel) -> Seq<EditModel> {
    let first = seq![provider_edit(settings.provider_id)];
    let second = match settings.checkpoint_percents {
        Some(percents) => first.push(
            EditModel::Replace {
                key_path: "compact_checkpoint_percents"@,
                value: ValueModel::Percents { percents },
            },
        ),
        None => first,
    };
    match settings.trigger_percent {
        Some(percent) => second.push(
            EditModel::Replace {
                key_path: "compact_trigger_percent"@,
                value: ValueModel::Percent { percent },
            },
        ),
        None => second,
    }
}

fn copy_percents(percents: &Vec<u8>) -> (copy: Vec<u8>)
    ensures
        copy@ == percents@,
{
    let copy = percents.clone();
    assert(copy@ =~= percents@);
    copy
}

impl CompactionSettings {
    /// The changes that persist the settings, to be written in one batch.
    pub fn edits(&self) -> (out: Vec<ConfigEdit>)
        ensures
            out.deep_view() == edits(self@),
    {
        let mut out: Vec<ConfigEdit> = Vec::new();
        out.push(
            match &self.provider_id {
                Some(key) => ConfigEdit::Replace {
                    key_path: "compact_model_provider".to_owned(),
                    value: ConfigValue::Text { text: key.clone() },
                },
                None => ConfigEdit::Clear { key_path: "compact_model_provider".to_owned() },
            },
        );
        if let Some(percents) = &self.checkpoint_percents {
            out.push(
                ConfigEdit::Replace {
                    key_path: "compact_checkpoint_percents".to_owned(),
                    value: ConfigValue::Percents { percents: copy_percents(percents) },
                },
            );
        }
        if let Some(percent) = self.trigger_percent {
            out.push(
                ConfigEdit::Replace {
                    key_path: "compact_trigger_percent".to_owned(),
                    value: ConfigValue::Percent { percent },
                },
            );
        }
        assert(out.deep_view() =~= edits(self@));
        out
    }
}

/// Whether a write took effect.
#[derive(Clone, Copy, Debug, PartialEq, Eq, Structural)]
pub enum WriteStatus {
    Written,
    /// The value was written, but another source of settings overrides it.
    OkOverridden,
}

/// What the server says of a write.
#[derive(Debug, PartialEq, Eq)]
pub struct WriteResponse {
    pub status: WriteStatus,
    /// What overrides the written value, in words.
    pub overridden_by: String,
}

/// What the application has its surroundings do after a write or a read.
#[derive(Debug, PartialEq, Eq)]
pub enum SettingsEffect {
    AddErrorMessage { error: String },
    CompactionSettingsSaved { settings: CompactionSettings },
    SetRealtimeVoice { effective: Option<RealtimeVoice> },
    RealtimeVoiceSaved { voice: RealtimeVoice },
    OpenRealtimeSettings { current: Option<RealtimeVoice> },
}

/// What a `SettingsEffect` holds.
pub enum SettingsEffectModel {
    AddErrorMessage { error: Seq<char> },
    CompactionSettingsSaved { settings: SettingsModel },
    SetRealtimeVoice { effective: Option<Seq<char>> },
    RealtimeVoiceSaved { voice: Seq<char> },
    OpenRealtimeSettings { current: Option<Seq<char>> },
}

impl DeepView for SettingsEffect {
    type V = SettingsEffectModel;

    open spec fn deep_view(&self) -> SettingsEffectModel {
        match self {
            SettingsEffect::AddErrorMessage { error } => SettingsEffectModel::AddErrorMessage {
                error: error@,
            },
            SettingsEffect::CompactionSettingsSaved { settings } =>
                SettingsEffectModel::CompactionSettingsSaved { settings: settings@ },
            SettingsEffect::SetRealtimeVoice { effective } =>
                SettingsEffectModel::SetRealtimeVoice { effective: effective.deep_view() },
            SettingsEffect::RealtimeVoiceSaved { voice } =>
                SettingsEffectModel::RealtimeVoiceSaved { voice: voice.name@ },
            SettingsEffect::OpenRealtimeSettings { current } =>
                SettingsEffectModel::OpenRealtimeSettings { current: current.deep_view() },
        }
    }
}

/// The settings with persisted compaction settings applied.
pub open spec fn applied(
    config: config::ConfigModel,
    settings: SettingsModel,
) -> config::ConfigModel {
    let moved = config.with_compact_provider(settings.provider_id);
    config::ConfigModel {
        checkpoint_percents: match settings.checkpoint_percents {
            Some(percents) => percents,
            None => moved.checkpoint_percents,
        },
        trigger_percent: match settings.trigger_percent {
            Some(percent) => percent,
            None => moved.trigger_percent,
        },
        ..moved
    }
}

/// The application, as far as settings go.
#[derive(Debug)]
pub struct App {
    pub config: Config,
}

impl App {
    /// `/squisher`: the server has answered the write of compaction settings. They are applied
    /// only if the write succeeded and nothing overrides it.
    pub fn compaction_settings_written(
        &mut self,
        settings: CompactionSettings,
        reply: Result<WriteResponse, String>,
    ) -> (effect: SettingsEffect)
        ensures
            match reply {
                Ok(response) => if response.status == WriteStatus::OkOverridden {
                    final(self)@ == old(self)@ && effect.deep_view()
                        == (SettingsEffectModel::AddErrorMessage {
                        error: "Compaction settings were saved but not applied: "@
                            + response.overridden_by@,
                    })
                } else {
                    final(self)@ == applied(old(self)@, settings@) && effect.deep_view()
                        == (SettingsEffectModel::CompactionSettingsSaved { settings: settings@ })
                },
                Err(error) => final(self)@ == old(self)@ && effect.deep_view()
                    == (SettingsEffectModel::AddErrorMessage {
                    error: "Failed to save compaction settings: "@ + error@,
                }),
            },
    {
        match reply {
            Ok(response) => {
                if response.status == WriteStatus::OkOverridden {
                    return SettingsEffect::AddErrorMessage {
                        error: two_texts(
                            "Compaction settings were saved but not applied: ",
                            response.overridden_by.as_str(),
                        ),
                    };
                }
                self.config.set_compact_provider(&settings.provider_id);
                if let Some(percents) = &settings.checkpoint_percents {
                    self.config.compact_checkpoint_percents = copy_percents(percents);
                }
                if let Some(percent) = settings.trigger_percent {
                    self.config.compact_trigger_percent = percent;
                }
                SettingsEffect::CompactionSettingsSaved { settings }
            },
            Err(error) => SettingsEffect::AddErrorMessage {
                error: two_texts("Failed to save compaction settings: ", error.as_str()),
            },
        }
    }
}

impl View for App {
    type V = config::ConfigModel;

    open spec fn view(&self) -> config::ConfigModel {
        self.config@
    }
}

/// The setting that an edit changes.
pub open spec fn changed_key(edit: EditModel) -> Seq<char> {
    match edit {
        EditModel::Replace { key_path, value: _ } => key_path,
        EditModel::Clear { key_path } => key_path,
    }
}

/// The edits name each given setting once, the provider first.
pub proof fn law_edits_name_each_setting_once(settings: SettingsModel)
    ensures
        edits(settings)[0] == provider_edit(settings.provider_id),
        forall|i: int, j: int|
            0 <= i < j < edits(settings).len() ==> changed_key(#[trigger] edits(settings)[i])
                != changed_key(#[trigger] edits(settings)[j]),
        edits(settings).len() == 1 + (if settings.checkpoint_percents is Some {
            1int
        } else {
            0
        }) + (if settings.trigger_percent is Some {
            1int
        } else {
            0
        }),
{
    reveal_strlit("compact_model_provider");
    reveal_strlit("compact_checkpoint_percents");
    reveal_strlit("compact_trigger_percent");
    assert("compact_model_provider"@.len() == 22);
    assert("compact_checkpoint_percents"@.len() == 27);
    assert("compact_trigger_percent"@.len() == 23);
}

/// Persisted settings leave everything else in the configuration alone, and percentages that
/// were not given keep their values.
pub proof fn law_applied_settings_touch_nothing_else(
    config: config::ConfigModel,
    settings: SettingsModel,
)
    ensures
        ({
            let out = applied(config, settings);
            &&& out.providers == config.providers
            &&& out.session_key == config.session_key
            &&& out.session_provider == config.session_provider
            &&& out.compact_model == config.compact_model
            &&& out.compact_prompt == config.compact_prompt
            &&& out.voice == config.voice
            &&& settings.checkpoint_percents is None ==> out.checkpoint_percents
                == config.checkpoint_percents
            &&& settings.trigger_percent is None ==> out.trigger_percent == config.trigger_percent
            &&& applied(out, settings) == out
        }),
{
}

/// Once settings are in effect, every one that was given is the one in the configuration, and
/// compaction runs on the provider that is configured under the given key, or on the session's
/// without a key or under an unknown one.
pub proof fn law_settings_in_effect_are_those_that_were_given(
    config: config::ConfigModel,
    settings: SettingsModel,
)
    ensures
        ({
            let out = applied(config, settings);
            &&& settings.checkpoint_percents matches Some(percents) ==> out.checkpoint_percents
                == percents
            &&& settings.trigger_percent matches Some(percent) ==> out.trigger_percent == percent
            &&& settings.provider_id is None ==> out.compact_provider is None
            &&& settings.provider_id matches Some(key) ==> {
                &&& (forall|i: int|
                    0 <= i < config.providers.len() ==> (#[trigger] config.providers[i]).key
                        != key) ==> out.compact_provider is None
                &&& forall|i: int|
                    0 <= i < config.providers.len() && (#[trigger] config.providers[i]).key == key
                        && (forall|j: int|
                        0 <= j < i ==> (#[trigger] config.providers[j]).key != key)
                        ==> out.compact_provider == Some(config.providers[i].info)
            }
        }),
{
    if let Some(key) = settings.provider_id {
        config::law_lookups_find_the_first_of_a_key(config.providers, key);
    }
}

/// Each setting that was given is written under its own name with its value, and none that was
/// not; the provider is always written, or cleared without a key.
pub proof fn law_edits_write_what_was_given(settings: SettingsModel)
    ensures
        settings.provider_id matches Some(key) ==> edits(settings)[0] == (EditModel::Replace {
            key_path: "compact_model_provider"@,
            value: ValueModel::Text { text: key },
        }),
        settings.provider_id is None ==> edits(settings)[0] == (EditModel::Clear {
            key_path: "compact_model_provider"@,
        }),
        settings.checkpoint_percents matches Some(percents) ==> edits(settings)[1] == (
        EditModel::Replace {
            key_path: "compact_checkpoint_percents"@,
            value: ValueModel::Percents { percents },
        }),
        settings.trigger_percent matches Some(percent) ==> edits(settings).last() == (
        EditModel::Replace {
            key_path: "compact_trigger_percent"@,
            value: ValueModel::Percent { percent },
        }),
        edits(settings).len() == 1 + (if settings.checkpoint_percents is Some {
            1int
        } else {
            0
        }) + (if settings.trigger_percent is Some {
            1int
        } else {
            0
        }),
{
}

} // verus!
