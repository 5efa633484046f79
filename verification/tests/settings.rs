use compaction::config::{Config, ModelProviderInfo, ProviderEntry, RealtimeVoice};
use compaction::request::{compaction_request, AgentIdentityAuthPolicy, Features};
use compaction::settings::{
    App, CompactionSettings, ConfigEdit, ConfigValue, SettingsEffect, WriteResponse, WriteStatus,
};
use compaction::voice::{
    classify_voice, configured_voice, effective_realtime_voice, open_realtime_settings,
    realtime_voices, voice_edits, voice_entry, voice_list_request_id, voice_list_request_id_for,
    VoiceEntry,
};

fn info(name: &str) -> ModelProviderInfo {
    ModelProviderInfo {
        name: name.to_string(),
        base_url: None,
    }
}

fn config() -> Config {
    Config {
        model_providers: vec![ProviderEntry {
            key: "local".to_string(),
            info: info("Local"),
        }],
        model_provider_id: "openai".to_string(),
        model_provider: info("OpenAI"),
        compact_model_provider: None,
        compact_model: None,
        compact_prompt: None,
        compact_checkpoint_percents: vec![50],
        compact_trigger_percent: 80,
        realtime_voice: None,
    }
}

fn settings(provider: Option<&str>, percents: Option<Vec<u8>>, trigger: Option<u8>) -> CompactionSettings {
    CompactionSettings {
        provider_id: provider.map(|key| key.to_string()),
        checkpoint_percents: percents,
        trigger_percent: trigger,
    }
}

fn written(status: WriteStatus) -> WriteResponse {
    WriteResponse {
        status,
        overridden_by: "the profile".to_string(),
    }
}

fn voice(name: &str) -> RealtimeVoice {
    RealtimeVoice {
        name: name.to_string(),
    }
}

fn error(text: &str) -> SettingsEffect {
    SettingsEffect::AddErrorMessage {
        error: text.to_string(),
    }
}

#[test]
fn compaction_settings_are_written_in_one_batch() {
    let replace = |key_path: &str, value: ConfigValue| ConfigEdit::Replace {
        key_path: key_path.to_string(),
        value,
    };
    assert_eq!(
        settings(Some("local"), Some(vec![20, 40]), Some(70)).edits(),
        vec![
            replace(
                "compact_model_provider",
                ConfigValue::Text {
                    text: "local".to_string()
                }
            ),
            replace(
                "compact_checkpoint_percents",
                ConfigValue::Percents {
                    percents: vec![20, 40]
                }
            ),
            replace("compact_trigger_percent", ConfigValue::Percent { percent: 70 }),
        ]
    );
    assert_eq!(
        settings(None, None, None).edits(),
        vec![ConfigEdit::Clear {
            key_path: "compact_model_provider".to_string()
        }]
    );
}

#[test]
fn compaction_settings_are_applied_once_they_are_in_effect() {
    let mut app = App { config: config() };
    let wanted = || settings(Some("local"), Some(vec![20]), None);
    assert_eq!(
        app.compaction_settings_written(wanted(), Err("offline".to_string())),
        error("Failed to save compaction settings: offline")
    );
    assert_eq!(
        app.compaction_settings_written(wanted(), Ok(written(WriteStatus::OkOverridden))),
        error("Compaction settings were saved but not applied: the profile")
    );
    assert_eq!(app.config, config());
    assert_eq!(
        app.compaction_settings_written(wanted(), Ok(written(WriteStatus::Written))),
        SettingsEffect::CompactionSettingsSaved { settings: wanted() }
    );
    assert_eq!(app.config.compact_model_provider, Some(info("Local")));
    assert_eq!(app.config.compact_checkpoint_percents, vec![20]);
    assert_eq!(app.config.compact_trigger_percent, 80);
}

#[test]
fn voice_entries_are_read_from_json() {
    let entry = |json: &str| voice_entry(serde_json::from_str(json).ok().as_ref());
    assert_eq!(voice_entry(None), VoiceEntry::Unset);
    assert_eq!(entry("{}"), VoiceEntry::Unset);
    assert_eq!(entry("{\"voice\": null}"), VoiceEntry::Unset);
    assert_eq!(entry("[1]"), VoiceEntry::Unset);
    assert_eq!(entry("\"voice\""), VoiceEntry::Unset);
    assert_eq!(
        entry("{\"other\": 1, \"voice\": \"marin\"}"),
        VoiceEntry::Text {
            json: "\"marin\"".to_string()
        }
    );
    assert_eq!(
        entry("{\"voice\": \"null\"}"),
        VoiceEntry::Text {
            json: "\"null\"".to_string()
        }
    );
    assert_eq!(
        entry("{\"voice\": { \"a\" : 1 }}"),
        VoiceEntry::Other {
            json: "{\"a\":1}".to_string()
        }
    );
    assert_eq!(
        classify_voice(Some("7".to_string())),
        VoiceEntry::Other {
            json: "7".to_string()
        }
    );
}

#[test]
fn voices_are_found_beside_deeply_nested_settings() {
    let mut nested = serde_json::Value::Null;
    for _ in 0..500 {
        nested = serde_json::Value::from(vec![nested]);
    }
    let mut realtime = serde_json::Map::new();
    realtime.insert("nested".to_string(), nested);
    realtime.insert("voice".to_string(), serde_json::Value::from("marin"));
    assert_eq!(
        voice_entry(Some(&serde_json::Value::from(realtime))),
        VoiceEntry::Text {
            json: "\"marin\"".to_string()
        }
    );
}

#[test]
fn unknown_voices_omit_the_override() {
    let text = VoiceEntry::Text {
        json: "\"x\"".to_string(),
    };
    let other = VoiceEntry::Other {
        json: "7".to_string(),
    };
    let known = || Ok::<RealtimeVoice, &str>(voice("marin"));
    let unknown = || Err::<RealtimeVoice, &str>("unknown");
    assert_eq!(
        configured_voice(&VoiceEntry::Unset, unknown(), voice("cove")),
        Ok(Some(voice("cove")))
    );
    assert_eq!(configured_voice(&text, known(), voice("cove")), Ok(Some(voice("marin"))));
    assert_eq!(configured_voice(&text, unknown(), voice("cove")), Ok(None));
    assert_eq!(configured_voice(&other, known(), voice("cove")), Ok(Some(voice("marin"))));
    assert_eq!(configured_voice(&other, unknown(), voice("cove")), Err("unknown"));
    assert_eq!(effective_realtime_voice::<&str>(None), Ok(None));
    assert_eq!(effective_realtime_voice(Some(unknown().map(Some))), Err("unknown"));
}

#[test]
fn voice_lists_fall_back_to_the_builtin_one() {
    assert_eq!(realtime_voices::<_, ()>(Ok("listed"), "builtin"), "listed");
    assert_eq!(realtime_voices(Err("offline"), "builtin"), "builtin");
    assert_eq!(voice_list_request_id_for("u"), "tui-voice-list-u");
    let id = voice_list_request_id();
    let uuid = id.strip_prefix("tui-voice-list-").unwrap();
    let parsed = uuid::Uuid::parse_str(uuid).unwrap();
    assert_eq!(parsed.get_version_num(), 4);
    assert_eq!(parsed.get_variant(), uuid::Variant::RFC4122);
    assert_eq!(parsed.to_string(), uuid);
    assert_ne!(voice_list_request_id(), id);
}

#[test]
fn voice_settings_open_or_say_why_not() {
    assert_eq!(
        open_realtime_settings(Ok(Some(voice("marin")))),
        SettingsEffect::OpenRealtimeSettings {
            current: Some(voice("marin"))
        }
    );
    assert_eq!(
        open_realtime_settings(Err("offline".to_string())),
        error("Failed to read voice settings: offline")
    );
}

#[test]
fn saved_voices_are_reported_as_they_take_effect() {
    let plain = || written(WriteStatus::Written);
    let overridden = || written(WriteStatus::OkOverridden);
    let set = |effective: Option<RealtimeVoice>| SettingsEffect::SetRealtimeVoice { effective };
    let saved = || SettingsEffect::RealtimeVoiceSaved {
        voice: voice("marin"),
    };
    let mut app = App { config: config() };
    assert_eq!(
        app.realtime_voice_saved(voice("marin"), plain(), Ok(None)),
        vec![set(Some(voice("marin"))), saved()]
    );
    assert_eq!(app.config.realtime_voice, Some(voice("marin")));
    assert_eq!(
        app.realtime_voice_saved(voice("marin"), overridden(), Ok(Some(Some(voice("cove"))))),
        vec![
            set(Some(voice("cove"))),
            error("Voice preference was saved but not applied: the profile")
        ]
    );
    assert_eq!(app.config.realtime_voice, Some(voice("cove")));
    assert_eq!(
        app.realtime_voice_saved(voice("marin"), overridden(), Ok(Some(Some(voice("marin"))))),
        vec![set(Some(voice("marin"))), saved()]
    );
    assert_eq!(
        app.realtime_voice_saved(voice("cove"), overridden(), Ok(None)),
        vec![error(
            "Voice preference was saved, but effective settings could not be read: \
the saved voice is overridden, but this server cannot read effective settings"
        )]
    );
    assert_eq!(
        app.realtime_voice_saved(voice("cove"), plain(), Err("broken".to_string())),
        vec![error(
            "Voice preference was saved, but effective settings could not be read: broken"
        )]
    );
    assert_eq!(app.config.realtime_voice, Some(voice("marin")));
    assert_eq!(
        app.realtime_voice_not_saved("offline"),
        error("Failed to save voice: offline")
    );
    assert_eq!(
        voice_edits(&voice("cove")),
        vec![ConfigEdit::Replace {
            key_path: "realtime.voice".to_string(),
            value: ConfigValue::Text {
                text: "cove".to_string()
            }
        }]
    );
}

#[test]
fn requests_go_where_the_settings_say() {
    let features = Features {
        use_agent_identity: true,
        content_item_kinds: false,
        enable_request_compression: true,
        runtime_metrics: false,
        concurrent_reasoning_summaries: true,
    };
    let mut settings = config();
    let own = compaction_request(&settings, &features, "gpt");
    assert!(own.own_context);
    assert_eq!((own.provider, own.resolve_model, own.client), (None, None, None));

    settings.compact_model = Some("gpt".to_string());
    let same = compaction_request(&settings, &features, "gpt");
    assert!(!same.own_context);
    assert_eq!(same.resolve_model, None);
    assert_eq!(same.client, None);

    settings.compact_model = Some("mini".to_string());
    settings.compact_model_provider = Some(info("Local"));
    let other = compaction_request(&settings, &features, "gpt");
    assert_eq!(other.resolve_model.as_deref(), Some("mini"));
    assert_eq!(other.provider, Some(info("Local")));
    let client = other.client.unwrap();
    assert_eq!(client.provider_info, info("Local"));
    assert_eq!(client.auth_policy, AgentIdentityAuthPolicy::ChatGptAuth);
    assert!(client.request_compression && client.concurrent_reasoning_summaries);
    assert!(!client.content_item_kinds && !client.runtime_metrics);

    let plain = Features {
        use_agent_identity: false,
        ..features
    };
    let client = compaction_request(&settings, &plain, "gpt").client.unwrap();
    assert_eq!(client.auth_policy, AgentIdentityAuthPolicy::JwtOnly);
}
