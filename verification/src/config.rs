//! The part of the configuration that compaction reads and writes.

use vstd::prelude::*;

use crate::items::same_option;
use crate::text;
use crate::text::{copy_text, same_text, sort_texts};

verus! {

/// A model provider, as far as compaction speaks of it.
#[derive(Debug, PartialEq, Eq)]
pub struct ModelProviderInfo {
    pub name: String,
    pub base_url: Option<String>,
}

/// What a `ModelProviderInfo` holds.
pub struct ProviderModel {
    pub name: Seq<char>,
    pub base_url: Option<Seq<char>>,
}

impl DeepView for ModelProviderInfo {
    type V = ProviderModel;

    open spec fn deep_view(&self) -> ProviderModel {
        ProviderModel { name: self.name@, base_url: self.base_url.deep_view() }
    }
}

impl Clone for ModelProviderInfo {
    fn clone(&self) -> (copy: ModelProviderInfo)
        ensures
            copy == *self,
    {
        ModelProviderInfo { name: self.name.clone(), base_url: copy_text(&self.base_url) }
    }
}

/// A configured provider under its key.
#[derive(Debug, PartialEq, Eq)]
pub struct ProviderEntry {
    pub key: String,
    pub info: ModelProviderInfo,
}

/// What a `ProviderEntry` holds.
pub struct EntryModel {
    pub key: Seq<char>,
    pub info: ProviderModel,
}

impl DeepView for ProviderEntry {
    type V = EntryModel;

    open spec fn deep_view(&self) -> EntryModel {
        EntryModel { key: self.key@, info: self.info.deep_view() }
    }
}

impl Clone for ProviderEntry {
    fn clone(&self) -> (copy: ProviderEntry)
        ensures
            copy == *self,
    {
        ProviderEntry { key: self.key.clone(), info: self.info.clone() }
    }
}

/// Whether no two entries have the same key.
pub open spec fn distinct_keys(entries: Seq<EntryModel>) -> bool {
    forall|i: int, j: int|
        0 <= i < j < entries.len() ==> (#[trigger] entries[i]).key != (#[trigger] entries[j]).key
}

/// Whether some entry has the key.
pub open spec fn has_key(entries: Seq<EntryModel>, key: Seq<char>) -> bool {
    exists|i: int| 0 <= i < entries.len() && (#[trigger] entries[i]).key == key
}

/// The provider under a key, if there is one.
pub open spec fn lookup(entries: Seq<EntryModel>, key: Seq<char>) -> Option<ProviderModel>
    decreases entries.len(),
{
    if entries.len() == 0 {
        None
    } else if entries[0].key == key {
        Some(entries[0].info)
    } else {
        lookup(entries.skip(1), key)
    }
}

/// The key of the first entry that is `info` by name and address, if there is one.
pub open spec fn key_of(entries: Seq<EntryModel>, info: ProviderModel) -> Option<Seq<char>>
    decreases entries.len(),
{
    if entries.len() == 0 {
        None
    } else if entries[0].info == info {
        Some(entries[0].key)
    } else {
        key_of(entries.skip(1), info)
    }
}

/// The keys other than `session`, as the entries have them.
pub open spec fn other_keys(entries: Seq<EntryModel>, session: Seq<char>) -> Seq<Seq<char>>
    decreases entries.len(),
{
    if entries.len() == 0 {
        Seq::empty()
    } else {
        let rest = other_keys(entries.drop_last(), session);
        if entries.last().key == session {
            rest
        } else {
            rest.push(entries.last().key)
        }
    }
}

/// The keys that a user may pick: those other than `session`, in ascending order.
pub open spec fn choices(entries: Seq<EntryModel>, session: Seq<char>) -> Seq<Seq<char>> {
    text::in_order(other_keys(entries, session))
}

proof fn lemma_lookup_at(entries: Seq<EntryModel>, key: Seq<char>, n: int)
    requires
        0 <= n <= entries.len(),
        forall|i: int| 0 <= i < n ==> (#[trigger] entries[i]).key != key,
        n < entries.len() ==> entries[n].key == key,
    ensures
        lookup(entries, key) == if n < entries.len() {
            Some(entries[n].info)
        } else {
            None
        },
        has_key(entries, key) <==> n < entries.len(),
    decreases entries.len(),
{
    if n > 0 {
        let tail = entries.skip(1);
        assert(entries[0].key != key);
        assert forall|i: int| 0 <= i < n - 1 implies (#[trigger] tail[i]).key != key by {
            assert(tail[i] == entries[i + 1]);
        }
        lemma_lookup_at(tail, key, n - 1);
    }
}

proof fn lemma_key_of_at(entries: Seq<EntryModel>, info: ProviderModel, n: int)
    requires
        0 <= n <= entries.len(),
        forall|i: int| 0 <= i < n ==> (#[trigger] entries[i]).info != info,
        n < entries.len() ==> entries[n].info == info,
    ensures
        key_of(entries, info) == if n < entries.len() {
            Some(entries[n].key)
        } else {
            None
        },
    decreases entries.len(),
{
    if n > 0 {
        let tail = entries.skip(1);
        assert(entries[0].info != info);
        assert forall|i: int| 0 <= i < n - 1 implies (#[trigger] tail[i]).info != info by {
            assert(tail[i] == entries[i + 1]);
        }
        lemma_key_of_at(tail, info, n - 1);
    }
}

/// The place of a key among the entries, or their number if no entry has it.
fn place_of(entries: &Vec<ProviderEntry>, key: &str) -> (n: usize)
    ensures
        n <= entries@.len(),
        n < entries@.len() ==> entries@[n as int].key@ == key@,
        n < entries@.len() <==> has_key(entries.deep_view(), key@),
        lookup(entries.deep_view(), key@) == if n < entries@.len() {
            Some(entries@[n as int].info.deep_view())
        } else {
            None
        },
{
    let ghost all = entries.deep_view();
    let mut n: usize = 0;
    while n < entries.len() && !same_text(entries[n].key.as_str(), key)
        invariant
            all == entries.deep_view(),
            n <= entries@.len(),
            forall|i: int| 0 <= i < n ==> (#[trigger] all[i]).key != key@,
        decreases entries@.len() - n,
    {
        assert(all[n as int].key == entries@[n as int].key@);
        n += 1;
    }
    proof {
        if n < entries@.len() {
            assert(all[n as int].key == entries@[n as int].key@);
        }
        lemma_lookup_at(all, key@, n as int);
    }
    n
}

/// Whether some entry has the key.
pub fn contains_key(entries: &Vec<ProviderEntry>, key: &str) -> (yes: bool)
    ensures
        yes == has_key(entries.deep_view(), key@),
{
    place_of(entries, key) < entries.len()
}

/// The provider under a key, if there is one.
pub fn find_provider(entries: &Vec<ProviderEntry>, key: &str) -> (info: Option<ModelProviderInfo>)
    ensures
        info.deep_view() == lookup(entries.deep_view(), key@),
{
    let n: usize = place_of(entries, key);
    if n < entries.len() {
        Some(entries[n].info.clone())
    } else {
        None
    }
}

/// The key of the first entry that is `info` by name and address, if there is one.
pub fn find_key(entries: &Vec<ProviderEntry>, info: &ModelProviderInfo) -> (key: Option<String>)
    ensures
        key.deep_view() == key_of(entries.deep_view(), info.deep_view()),
{
    let ghost all = entries.deep_view();
    let mut n: usize = 0;
    while n < entries.len() && !(same_option(&entries[n].info.base_url, &info.base_url)
        && entries[n].info.name == info.name)
        invariant
            all == entries.deep_view(),
            n <= entries@.len(),
            forall|i: int| 0 <= i < n ==> (#[trigger] all[i]).info != info.deep_view(),
        decreases entries@.len() - n,
    {
        assert(all[n as int].info == entries@[n as int].info.deep_view());
        n += 1;
    }
    proof {
        if n < entries@.len() {
            assert(all[n as int].info == entries@[n as int].info.deep_view());
        }
        lemma_key_of_at(all, info.deep_view(), n as int);
    }
    if n < entries.len() {
        Some(entries[n].key.clone())
    } else {
        None
    }
}

/// The keys that a user may pick: those other than `session`, in ascending order.
pub fn list_choices(entries: &Vec<ProviderEntry>, session: &str) -> (keys: Vec<String>)
    ensures
        text::texts(keys@) == choices(entries.deep_view(), session@),
{
    let ghost all = entries.deep_view();
    let mut keys: Vec<String> = Vec::new();
    let mut i: usize = 0;
    assert(text::texts(keys@) =~= other_keys(all.take(0), session@));
    while i < entries.len()
        invariant
            all == entries.deep_view(),
            i <= entries@.len(),
            text::texts(keys@) == other_keys(all.take(i as int), session@),
        decreases entries@.len() - i,
    {
        assert(all.take(i + 1).drop_last() =~= all.take(i as int));
        assert(all.take(i + 1).last().key == entries@[i as int].key@);
        if !same_text(entries[i].key.as_str(), session) {
            let key = entries[i].key.clone();
            let ghost before = text::texts(keys@);
            let ghost added = key@;
            keys.push(key);
            assert(text::texts(keys@) =~= before.push(added));
        }
        i += 1;
    }
    assert(all.take(i as int) =~= all);
    sort_texts(&keys)
}

proof fn lemma_other_keys(entries: Seq<EntryModel>, session: Seq<char>, key: Seq<char>)
    ensures
        other_keys(entries, session).contains(key) <==> has_key(entries, key) && key != session,
    decreases entries.len(),
{
    if entries.len() > 0 {
        let front = entries.drop_last();
        let rest = other_keys(front, session);
        let out = other_keys(entries, session);
        lemma_other_keys(front, session, key);
        if has_key(front, key) {
            let i = choose|i: int| 0 <= i < front.len() && (#[trigger] front[i]).key == key;
            assert(entries[i].key == key);
        }
        if has_key(entries, key) && entries.last().key != key {
            let i = choose|i: int| 0 <= i < entries.len() && (#[trigger] entries[i]).key == key;
            assert(front[i].key == key);
        }
        if entries.last().key == key {
            assert(entries[entries.len() - 1].key == key);
        }
        if rest.contains(key) {
            let i = choose|i: int| 0 <= i < rest.len() && rest[i] == key;
            assert(out[i] == key);
        }
        if entries.last().key == key && key != session {
            assert(out[out.len() - 1] == key);
        }
        if out.contains(key) {
            let i = choose|i: int| 0 <= i < out.len() && out[i] == key;
            if i < rest.len() {
                assert(rest[i] == key);
            }
        }
    }
}

proof fn lemma_other_keys_distinct(entries: Seq<EntryModel>, session: Seq<char>)
    requires
        distinct_keys(entries),
    ensures
        other_keys(entries, session).no_duplicates(),
    decreases entries.len(),
{
    if entries.len() > 0 {
        let front = entries.drop_last();
        let last = entries.last().key;
        assert(distinct_keys(front)) by {
            assert forall|i: int, j: int| 0 <= i < j < front.len() implies (
            #[trigger] front[i]).key != (#[trigger] front[j]).key by {
                assert(entries[i].key != entries[j].key);
            }
        }
        lemma_other_keys_distinct(front, session);
        lemma_other_keys(front, session, last);
        if has_key(front, last) {
            let i = choose|i: int| 0 <= i < front.len() && (#[trigger] front[i]).key == last;
            assert(entries[i].key != entries[entries.len() - 1].key);
        }
    }
}

/// A user may pick exactly the configured keys other than that of the session, and they are
/// offered in ascending order, each once where no two entries share a key.
pub proof fn law_choices_are_the_other_keys(
    entries: Seq<EntryModel>,
    session: Seq<char>,
    key: Seq<char>,
)
    ensures
        choices(entries, session).contains(key) <==> has_key(entries, key) && key != session,
        text::ascending(choices(entries, session)),
        distinct_keys(entries) ==> forall|i: int, j: int|
            0 <= i < j < choices(entries, session).len() ==> text::precedes(
                #[trigger] choices(entries, session)[i],
                #[trigger] choices(entries, session)[j],
            ),
{
    let keys = other_keys(entries, session);
    let offered = choices(entries, session);
    lemma_other_keys(entries, session, key);
    text::lemma_in_order(keys);
    if distinct_keys(entries) {
        lemma_other_keys_distinct(entries, session);
        keys.lemma_multiset_has_no_duplicates();
        offered.lemma_multiset_has_no_duplicates_conv();
        assert forall|i: int, j: int| 0 <= i < j < offered.len() implies text::precedes(
            #[trigger] offered[i],
            #[trigger] offered[j],
        ) by {
            assert(text::not_after(offered[i], offered[j]));
            text::lemma_precedes_total(offered[i], offered[j]);
        }
    }
}

/// A key that is there has a provider.
pub proof fn law_keys_have_providers(entries: Seq<EntryModel>, key: Seq<char>)
    ensures
        lookup(entries, key) is Some <==> has_key(entries, key),
    decreases entries.len(),
{
    if entries.len() > 0 {
        if entries[0].key != key {
            let tail = entries.skip(1);
            law_keys_have_providers(tail, key);
            if has_key(tail, key) {
                let i = choose|i: int| 0 <= i < tail.len() && (#[trigger] tail[i]).key == key;
                assert(entries[i + 1].key == key);
            }
            if has_key(entries, key) {
                let i = choose|i: int|
                    0 <= i < entries.len() && (#[trigger] entries[i]).key == key;
                assert(tail[i - 1].key == key);
            }
        }
    }
}

/// Where no two entries share a key, each entry is found under its own.
pub proof fn law_distinct_keys_find_their_entries(entries: Seq<EntryModel>, i: int)
    requires
        distinct_keys(entries),
        0 <= i < entries.len(),
    ensures
        lookup(entries, entries[i].key) == Some(entries[i].info),
{
    lemma_lookup_at(entries, entries[i].key, i);
}

/// A voice for realtime conversations, by the name that configuration files give it.
#[derive(Debug, PartialEq, Eq)]
pub struct RealtimeVoice {
    pub name: String,
}

impl DeepView for RealtimeVoice {
    type V = Seq<char>;

    open spec fn deep_view(&self) -> Seq<char> {
        self.name@
    }
}

impl Clone for RealtimeVoice {
    fn clone(&self) -> (copy: RealtimeVoice)
        ensures
            copy == *self,
    {
        RealtimeVoice { name: self.name.clone() }
    }
}

/// The settings that compaction reads and writes.
#[derive(Debug, PartialEq, Eq)]
pub struct Config {
    /// The configured providers, no two of them under one key.
    pub model_providers: Vec<ProviderEntry>,
    /// The key of the session's provider.
    pub model_provider_id: String,
    /// The session's provider.
    pub model_provider: ModelProviderInfo,
    /// The provider that compaction runs on, if it has one of its own.
    pub compact_model_provider: Option<ModelProviderInfo>,
    /// The model that compaction runs on, if it has one of its own.
    pub compact_model: Option<String>,
    /// The instructions for compaction, if they are not the usual ones.
    pub compact_prompt: Option<String>,
    pub compact_checkpoint_percents: Vec<u8>,
    pub compact_trigger_percent: u8,
    pub realtime_voice: Option<RealtimeVoice>,
}

/// What a `Config` holds.
#[verifier::ext_equal]
pub struct ConfigModel {
    pub providers: Seq<EntryModel>,
    pub session_key: Seq<char>,
    pub session_provider: ProviderModel,
    pub compact_provider: Option<ProviderModel>,
    pub compact_model: Option<Seq<char>>,
    pub compact_prompt: Option<Seq<char>>,
    pub checkpoint_percents: Seq<u8>,
    pub trigger_percent: u8,
    pub voice: Option<Seq<char>>,
}

impl View for Config {
    type V = ConfigModel;

    open spec fn view(&self) -> ConfigModel {
        ConfigModel {
            providers: self.model_providers.deep_view(),
            session_key: self.model_provider_id@,
            session_provider: self.model_provider.deep_view(),
            compact_provider: self.compact_model_provider.deep_view(),
            compact_model: self.compact_model.deep_view(),
            compact_prompt: self.compact_prompt.deep_view(),
            checkpoint_percents: self.compact_checkpoint_percents@,
            trigger_percent: self.compact_trigger_percent,
            voice: self.realtime_voice.deep_view(),
        }
    }
}

impl ConfigModel {
    /// Whether the settings are well formed: no two providers under one key.
    pub open spec fn valid(self) -> bool {
        distinct_keys(self.providers)
    }

    /// The provider under an optional key.
    pub open spec fn provider_for(self, key: Option<Seq<char>>) -> Option<ProviderModel> {
        match key {
            Some(key) => lookup(self.providers, key),
            None => None,
        }
    }

    /// The settings with compaction on the provider under `key`, or on the session's.
    pub open spec fn with_compact_provider(self, key: Option<Seq<char>>) -> ConfigModel {
        ConfigModel { compact_provider: self.provider_for(key), ..self }
    }
}

impl Config {
    /// Puts compaction on the provider under `key`, or on the session's provider without a key
    /// or under an unknown one.
    pub fn set_compact_provider(&mut self, key: &Option<String>)
        ensures
            final(self)@ == old(self)@.with_compact_provider(key.deep_view()),
            old(self)@.valid() ==> final(self)@.valid(),
    {
        self.compact_model_provider = match key {
            Some(key) => find_provider(&self.model_providers, key.as_str()),
            None => None,
        };
    }
}

/// A lookup gives the provider of the first entry under the key, and nothing exactly if no entry
/// is under it.
pub proof fn law_lookups_find_the_first_of_a_key(entries: Seq<EntryModel>, key: Seq<char>)
    ensures
        (forall|i: int| 0 <= i < entries.len() ==> (#[trigger] entries[i]).key != key) ==> lookup(
            entries,
            key,
        ) is None,
        forall|i: int|
            0 <= i < entries.len() && (#[trigger] entries[i]).key == key && (forall|j: int|
                0 <= j < i ==> (#[trigger] entries[j]).key != key) ==> lookup(entries, key) == Some(
                entries[i].info,
            ),
        has_key(entries, key) <==> exists|i: int|
            0 <= i < entries.len() && (#[trigger] entries[i]).key == key,
{
    if forall|i: int| 0 <= i < entries.len() ==> (#[trigger] entries[i]).key != key {
        lemma_lookup_at(entries, key, entries.len() as int);
    }
    assert forall|i: int|
        0 <= i < entries.len() && (#[trigger] entries[i]).key == key && (forall|j: int|
            0 <= j < i ==> (#[trigger] entries[j]).key != key) implies lookup(entries, key) == Some(
        entries[i].info,
    ) by {
        lemma_lookup_at(entries, key, i);
    }
}

/// The key of a provider is that of the first entry with its name and address, and there is none
/// exactly if no entry has both.
pub proof fn law_keys_are_found_by_name_and_address(
    entries: Seq<EntryModel>,
    info: ProviderModel,
)
    ensures
        (forall|i: int|
            0 <= i < entries.len() ==> (#[trigger] entries[i]).info.name != info.name
                || entries[i].info.base_url != info.base_url) ==> key_of(entries, info) is None,
        forall|i: int|
            0 <= i < entries.len() && (#[trigger] entries[i]).info.name == info.name
                && entries[i].info.base_url == info.base_url && (forall|j: int|
                0 <= j < i ==> (#[trigger] entries[j]).info.name != info.name
                    || entries[j].info.base_url != info.base_url) ==> key_of(entries, info) == Some(
                entries[i].key,
            ),
{
    if forall|i: int|
        0 <= i < entries.len() ==> (#[trigger] entries[i]).info.name != info.name
            || entries[i].info.base_url != info.base_url {
        lemma_key_of_at(entries, info, entries.len() as int);
    }
    assert forall|i: int|
        0 <= i < entries.len() && (#[trigger] entries[i]).info.name == info.name
            && entries[i].info.base_url == info.base_url && (forall|j: int|
            0 <= j < i ==> (#[trigger] entries[j]).info.name != info.name
                || entries[j].info.base_url != info.base_url) implies key_of(entries, info) == Some(
        entries[i].key,
    ) by {
        assert(entries[i].info == info);
        lemma_key_of_at(entries, info, i);
    }
}

/// Putting compaction on a provider changes nothing else in the settings.
pub proof fn law_choosing_a_provider_touches_nothing_else(
    config: ConfigModel,
    key: Option<Seq<char>>,
)
    ensures
        ({
            let out = config.with_compact_provider(key);
            &&& key is None ==> out.compact_provider is None
            &&& key matches Some(k) ==> out.compact_provider == lookup(config.providers, k)
            &&& out == (ConfigModel { compact_provider: out.compact_provider, ..config })
        }),
{
}

/// The model of a configuration holds what each of its settings holds.
pub proof fn law_settings_are_told_one_by_one(config: Config)
    ensures
        config@.session_key == config.model_provider_id@,
        config@.session_provider == config.model_provider.deep_view(),
        config@.compact_provider is Some <==> config.compact_model_provider is Some,
        config.compact_model_provider matches Some(info) ==> config@.compact_provider == Some(
            info.deep_view(),
        ),
        config.compact_model matches Some(model) ==> config@.compact_model == Some(model@),
        config.compact_model is None ==> config@.compact_model is None,
        config.compact_prompt matches Some(prompt) ==> config@.compact_prompt == Some(prompt@),
        config.compact_prompt is None ==> config@.compact_prompt is None,
        config@.checkpoint_percents == config.compact_checkpoint_percents@,
        config@.trigger_percent == config.compact_trigger_percent,
        config.realtime_voice matches Some(voice) ==> config@.voice == Some(voice.name@),
        config.realtime_voice is None ==> config@.voice is None,
        config@.providers.len() == config.model_providers@.len(),
        forall|i: int|
            0 <= i < config.model_providers@.len() ==> {
                let entry = config.model_providers@[i];
                &&& (#[trigger] config@.providers[i]).key == entry.key@
                &&& config@.providers[i].info.name == entry.info.name@
                &&& entry.info.base_url matches Some(url) ==> config@.providers[i].info.base_url
                    == Some(url@)
                &&& entry.info.base_url is None ==> config@.providers[i].info.base_url is None
            },
{
}

} // verus!
