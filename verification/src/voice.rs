//! The voice of realtime conversations: what the server's settings say it is, and what becomes
//! of a preference that a user saves.

use vstd::prelude::*;
use vstd::string::*;

use crate::config;
use crate::config::RealtimeVoice;
use crate::items::same_option;
use crate::settings;
use crate::settings::{
    App, ConfigEdit, ConfigValue, SettingsEffect, SettingsEffectModel, WriteResponse, WriteStatus,
};
use crate::text::{chars_of, same_text, two_texts};

verus! {

/// `serde_json::Value`: a JSON value. What an object holds is named by `members`; of other values
/// nothing is known.
#[verifier::external_type_specification]
#[verifier::external_body]
pub struct ExValue(serde_json::Value);

/// The members of a JSON object by their names, each as the compact JSON text that `serde_json`
/// writes for it. A value that is no object has none.
pub uninterp spec fn members(value: serde_json::Value) -> Map<Seq<char>, Seq<char>>;

/// The member of an object under a name, if there is one.
pub open spec fn member(value: serde_json::Value, name: Seq<char>) -> Option<Seq<char>> {
    if members(value).contains_key(name) {
        Some(members(value)[name])
    } else {
        None
    }
}

/// `serde_json::Value::get` with a member's name: the member of that name where the value is an
/// object that has one. The member is written as compact JSON text with its `Display`.
#[verifier::external_body]
fn json_member(value: &serde_json::Value, name: &str) -> (found: Option<String>)
    ensures
        found.deep_view() == if members(*value).contains_key(name@) {
            Some(members(*value)[name@])
        } else {
            None
        },
{
    value.get(name).map(|found| found.to_string())
}

/// What the settings say of the voice.
#[derive(Debug, PartialEq, Eq)]
pub enum VoiceEntry {
    /// Nothing, or that there is no preference.
    Unset,
    /// A text, as JSON.
    Text { json: String },
    /// Something else, as JSON.
    Other { json: String },
}

/// What a `VoiceEntry` holds.
pub enum VoiceEntryModel {
    Unset,
    Text { json: Seq<char> },
    Other { json: Seq<char> },
}

impl View for VoiceEntry {
    type V = VoiceEntryModel;

    open spec fn view(&self) -> VoiceEntryModel {
        match self {
            VoiceEntry::Unset => VoiceEntryModel::Unset,
            VoiceEntry::Text { json } => VoiceEntryModel::Text { json: json@ },
            VoiceEntry::Other { json } => VoiceEntryModel::Other { json: json@ },
        }
    }
}

/// What a JSON value says of the voice: nothing if it is not there or null, a text if it is one.
/// In compact JSON null alone is written `null`, and a text alone starts with a quotation mark.
pub open spec fn entry_of(value: Option<Seq<char>>) -> VoiceEntryModel {
    match value {
        None => VoiceEntryModel::Unset,
        Some(json) => if json == "null"@ {
            VoiceEntryModel::Unset
        } else if json.len() > 0 && json[0] == '"' {
            VoiceEntryModel::Text { json }
        } else {
            VoiceEntryModel::Other { json }
        },
    }
}

/// What a JSON value says of the voice. The value is given as compact JSON text.
pub fn classify_voice(value: Option<String>) -> (entry: VoiceEntry)
    ensures
        entry@ == entry_of(value.deep_view()),
{
    match value {
        None => VoiceEntry::Unset,
        Some(json) => {
            if same_text(json.as_str(), "null") {
                return VoiceEntry::Unset;
            }
            let chars = chars_of(json.as_str());
            if chars.len() > 0 && chars[0] == '"' {
                VoiceEntry::Text { json }
            } else {
                VoiceEntry::Other { json }
            }
        },
    }
}

/// What the realtime settings, if there are any, say of the voice.
pub fn voice_entry(realtime: Option<&serde_json::Value>) -> (entry: VoiceEntry)
    ensures
        entry@ == entry_of(
            match realtime {
                Some(value) => member(*value, "voice"@),
                None => None,
            },
        ),
{
    match realtime {
        Some(value) => classify_voice(json_member(value, "voice")),
        None => classify_voice(None),
    }
}

/// The voice that an entry asks for: the default if it is unset, none if it is a text that
/// names no known voice.
pub open spec fn voice_of<E>(
    entry: VoiceEntryModel,
    parsed: Result<RealtimeVoice, E>,
    default_voice: RealtimeVoice,
) -> Result<Option<RealtimeVoice>, E> {
    match entry {
        VoiceEntryModel::Unset => Ok(Some(default_voice)),
        VoiceEntryModel::Text { json: _ } => match parsed {
            Ok(known) => Ok(Some(known)),
            Err(_) => Ok(None),
        },
        VoiceEntryModel::Other { json: _ } => match parsed {
            Ok(known) => Ok(Some(known)),
            Err(error) => Err(error),
        },
    }
}

/// The voice that the settings ask for. `parsed` is the voice that the entry names, as far as
/// it is known. An unset preference explicitly selects `default_voice`. Unknown names belong to
/// newer servers; they omit the override instead of blocking audio. Anything but a text that
/// names no voice is an error.
pub fn configured_voice<E>(
    entry: &VoiceEntry,
    parsed: Result<RealtimeVoice, E>,
    default_voice: RealtimeVoice,
) -> (voice: Result<Option<RealtimeVoice>, E>)
    ensures
        voice == voice_of(entry@, parsed, default_voice),
{
    match entry {
        VoiceEntry::Unset => Ok(Some(default_voice)),
        VoiceEntry::Text { json: _ } => match parsed {
            Ok(known) => Ok(Some(known)),
            Err(_) => Ok(None),
        },
        VoiceEntry::Other { json: _ } => match parsed {
            Ok(known) => Ok(Some(known)),
            Err(error) => Err(error),
        },
    }
}

/// A preference written as text never blocks audio: whatever it says, it is no error, and an
/// unknown voice only omits the override.
pub proof fn law_texts_never_block_audio<E>(
    json: Seq<char>,
    parsed: Result<RealtimeVoice, E>,
    default_voice: RealtimeVoice,
)
    requires
        json.len() > 0 && json[0] == '"',
    ensures
        ({
            let voice = voice_of(entry_of(Some(json)), parsed, default_voice);
            &&& voice is Ok
            &&& parsed matches Ok(known) ==> voice == Ok::<Option<RealtimeVoice>, E>(Some(known))
            &&& parsed is Err ==> voice == Ok::<Option<RealtimeVoice>, E>(None)
        }),
{
    reveal_strlit("null");
}

/// Without a preference, or with one that is null, the default voice is selected by name.
pub proof fn law_unset_preferences_select_the_default<E>(
    value: Option<Seq<char>>,
    parsed: Result<RealtimeVoice, E>,
    default_voice: RealtimeVoice,
)
    requires
        value matches Some(json) ==> json == "null"@,
    ensures
        voice_of(entry_of(value), parsed, default_voice) == Ok::<Option<RealtimeVoice>, E>(
            Some(default_voice),
        ),
{
}

/// The voice in effect: that of the settings, or no override where the server cannot read them.
pub fn effective_realtime_voice<E>(
    configured: Option<Result<Option<RealtimeVoice>, E>>,
) -> (voice: Result<Option<RealtimeVoice>, E>)
    ensures
        voice == match configured {
            Some(result) => result,
            None => Ok(None),
        },
{
    match configured {
        Some(result) => result,
        None => Ok(None),
    }
}

/// Whether `s` is a random UUID in lower case with hyphens.
pub open spec fn is_random_uuid(s: Seq<char>) -> bool {
    &&& s.len() == 36
    &&& s[14] == '4'
    &&& s[19] == '8' || s[19] == '9' || s[19] == 'a' || s[19] == 'b'
    &&& forall|i: int|
        0 <= i < 36 ==> if i == 8 || i == 13 || i == 18 || i == 23 {
            #[trigger] s[i] == '-'
        } else {
            '0' <= s[i] <= '9' || 'a' <= s[i] <= 'f'
        }
}

/// `uuid::Uuid::new_v4`, written with its `Display`: a UUID of version 4 and of the usual
/// variant, in lower case with hyphens. Which one it is is left to chance. Where the operating
/// system has no random bytes to give, the call panics.
#[verifier::external_body]
fn random_uuid() -> (uuid: String)
    ensures
        is_random_uuid(uuid@),
{
    uuid::Uuid::new_v4().to_string()
}

/// The id of a request for the list of voices.
pub open spec fn voice_list_id(uuid: Seq<char>) -> Seq<char> {
    "tui-voice-list-"@ + uuid
}

/// The id of a request for the list of voices that carries `uuid`.
pub fn voice_list_request_id_for(uuid: &str) -> (id: String)
    ensures
        id@ == voice_list_id(uuid@),
{
    two_texts("tui-voice-list-", uuid)
}

/// Whether `uuid` is what a draw of a random UUID may give.
pub closed spec fn is_drawn(uuid: String) -> bool {
    call_ensures(random_uuid, (), uuid)
}

/// A new id for a request for the list of voices: it carries a UUID that was drawn for it.
pub fn voice_list_request_id() -> (id: String)
    ensures
        exists|uuid: String| #[trigger]
            is_drawn(uuid) && is_random_uuid(uuid@) && id@ == voice_list_id(uuid@),
{
    let uuid = random_uuid();
    assert(is_drawn(uuid));
    voice_list_request_id_for(uuid.as_str())
}

/// The list of voices: that of the server, or the built-in one if the server gives none.
pub fn realtime_voices<T, E>(reply: Result<T, E>, builtin: T) -> (voices: T)
    ensures
        voices == match reply {
            Ok(listed) => listed,
            Err(_) => builtin,
        },
{
    match reply {
        Ok(listed) => listed,
        Err(_) => builtin,
    }
}

/// The change that persists a voice, as one edit.
pub fn voice_edits(voice: &RealtimeVoice) -> (out: Vec<ConfigEdit>)
    ensures
        out.deep_view() == seq![
            settings::EditModel::Replace {
                key_path: "realtime.voice"@,
                value: settings::ValueModel::Text { text: voice.name@ },
            },
        ],
{
    let out = vec![
        ConfigEdit::Replace {
            key_path: "realtime.voice".to_owned(),
            value: ConfigValue::Text { text: voice.name.clone() },
        },
    ];
    assert(out.deep_view() =~= seq![
        settings::EditModel::Replace {
            key_path: "realtime.voice"@,
            value: settings::ValueModel::Text { text: voice.name@ },
        },
    ]);
    out
}

/// What opening the voice settings leads to, given the voice in effect or why it is not known.
pub fn open_realtime_settings(effective: Result<Option<RealtimeVoice>, String>) -> (effect:
    SettingsEffect)
    ensures
        effect.deep_view() == match effective {
            Ok(voice) => SettingsEffectModel::OpenRealtimeSettings { current: voice.deep_view() },
            Err(error) => SettingsEffectModel::AddErrorMessage {
                error: "Failed to read voice settings: "@ + error@,
            },
        },
{
    match effective {
        Ok(voice) => SettingsEffect::OpenRealtimeSettings { current: voice },
        Err(error) => failure("Failed to read voice settings: ", error.as_str()),
    }
}

/// The voice in effect after a preference was saved. `read` is what reading the settings gave:
/// the configured voice, nothing if the server cannot read them, or what went wrong.
pub open spec fn voice_after_save(
    voice: Seq<char>,
    status: WriteStatus,
    read: Result<Option<Option<Seq<char>>>, Seq<char>>,
) -> Result<Option<Seq<char>>, Seq<char>> {
    match read {
        Ok(Some(configured)) => Ok(configured),
        Ok(None) => if status == WriteStatus::OkOverridden {
            Err(
                "the saved voice is overridden, but this server cannot read effective settings"@,
            )
        } else {
            Ok(Some(voice))
        },
        Err(error) => Err(error),
    }
}

/// What a read of the settings gave, as texts.
pub open spec fn read_model(
    read: Result<Option<Option<RealtimeVoice>>, String>,
) -> Result<Option<Option<Seq<char>>>, Seq<char>> {
    match read {
        Ok(Some(voice)) => Ok(Some(voice.deep_view())),
        Ok(None) => Ok(None),
        Err(error) => Err(error@),
    }
}

/// The settings and what happens once a voice was saved.
pub open spec fn saved_voice(
    config: config::ConfigModel,
    voice: Seq<char>,
    response: WriteResponse,
    read: Result<Option<Option<Seq<char>>>, Seq<char>>,
) -> (config::ConfigModel, Seq<SettingsEffectModel>) {
    match voice_after_save(voice, response.status, read) {
        Ok(effective) => (
            config::ConfigModel { voice: effective, ..config },
            seq![
                SettingsEffectModel::SetRealtimeVoice { effective },
                if effective == Some(voice) {
                    SettingsEffectModel::RealtimeVoiceSaved { voice }
                } else {
                    SettingsEffectModel::AddErrorMessage {
                        error: "Voice preference was saved but not applied: "@
                            + response.overridden_by@,
                    }
                },
            ],
        ),
        Err(error) => (
            config,
            seq![
                SettingsEffectModel::AddErrorMessage {
                    error:
                        "Voice preference was saved, but effective settings could not be read: "@
                        + error,
                },
            ],
        ),
    }
}

fn failure(what: &str, error: &str) -> (effect: SettingsEffect)
    ensures
        effect.deep_view() == (SettingsEffectModel::AddErrorMessage { error: what@ + error@ }),
{
    SettingsEffect::AddErrorMessage { error: two_texts(what, error) }
}

fn effective_after_save(
    voice: &RealtimeVoice,
    status: WriteStatus,
    read: Result<Option<Option<RealtimeVoice>>, String>,
) -> (effective: Result<Option<RealtimeVoice>, String>)
    ensures
        match effective {
            Ok(known) => voice_after_save(voice.name@, status, read_model(read)) == Ok::<
                Option<Seq<char>>,
                Seq<char>,
            >(known.deep_view()),
            Err(error) => voice_after_save(voice.name@, status, read_model(read)) == Err::<
                Option<Seq<char>>,
                Seq<char>,
            >(error@),
        },
{
    match read {
        Ok(Some(configured)) => Ok(configured),
        Ok(None) => if status == WriteStatus::OkOverridden {
            Err(
                "the saved voice is overridden, but this server cannot read effective settings".to_owned(),
            )
        } else {
            Ok(Some(voice.clone()))
        },
        Err(error) => Err(error),
    }
}

fn voice_name(voice: &Option<RealtimeVoice>) -> (name: Option<String>)
    ensures
        name.deep_view() == voice.deep_view(),
{
    match voice {
        Some(voice) => Some(voice.name.clone()),
        None => None,
    }
}

fn copy_voice(voice: &Option<RealtimeVoice>) -> (copy: Option<RealtimeVoice>)
    ensures
        copy == *voice,
{
    match voice {
        Some(voice) => Some(voice.clone()),
        None => None,
    }
}

impl App {
    /// The server has saved `voice`, and the settings were read back.
    pub fn realtime_voice_saved(
        &mut self,
        voice: RealtimeVoice,
        response: WriteResponse,
        read: Result<Option<Option<RealtimeVoice>>, String>,
    ) -> (effects: Vec<SettingsEffect>)
        ensures
            (final(self)@, effects.deep_view()) == saved_voice(
                old(self)@,
                voice.name@,
                response,
                read_model(read),
            ),
    {
        match effective_after_save(&voice, response.status, read) {
            Ok(effective) => {
                let name = voice_name(&effective);
                let wanted = Some(voice.name.clone());
                let second = if same_option(&name, &wanted) {
                    SettingsEffect::RealtimeVoiceSaved { voice }
                } else {
                    failure(
                        "Voice preference was saved but not applied: ",
                        response.overridden_by.as_str(),
                    )
                };
                self.config.realtime_voice = copy_voice(&effective);
                let effects = vec![SettingsEffect::SetRealtimeVoice { effective }, second];
                assert(effects.deep_view() =~= saved_voice(
                    old(self)@,
                    voice.name@,
                    response,
                    read_model(read),
                ).1);
                effects
            },
            Err(error) => {
                let effects = vec![
                    failure(
                        "Voice preference was saved, but effective settings could not be read: ",
                        error.as_str(),
                    ),
                ];
                assert(effects.deep_view() =~= saved_voice(
                    old(self)@,
                    voice.name@,
                    response,
                    read_model(read),
                ).1);
                effects
            },
        }
    }

    /// The server could not save a voice.
    pub fn realtime_voice_not_saved(&self, error: &str) -> (effect: SettingsEffect)
        ensures
            effect.deep_view() == (SettingsEffectModel::AddErrorMessage {
                error: "Failed to save voice: "@ + error@,
            }),
    {
        failure("Failed to save voice: ", error)
    }
}

/// A saved voice is reported as saved exactly if it is the voice in effect, and then it is the
/// one in the settings.
pub proof fn law_only_the_voice_in_effect_is_reported_saved(
    config: config::ConfigModel,
    voice: Seq<char>,
    response: WriteResponse,
    read: Result<Option<Option<Seq<char>>>, Seq<char>>,
)
    ensures
        ({
            let (after, effects) = saved_voice(config, voice, response, read);
            let reported = SettingsEffectModel::RealtimeVoiceSaved { voice };
            &&& effects.contains(reported) <==> voice_after_save(voice, response.status, read)
                == Ok::<Option<Seq<char>>, Seq<char>>(Some(voice))
            &&& effects.contains(reported) ==> after.voice == Some(voice)
        }),
{
    let (after, effects) = saved_voice(config, voice, response, read);
    let reported = SettingsEffectModel::RealtimeVoiceSaved { voice };
    if voice_after_save(voice, response.status, read) == Ok::<Option<Seq<char>>, Seq<char>>(
        Some(voice),
    ) {
        assert(effects[1] == reported);
    }
}

} // verus!
