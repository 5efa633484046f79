//! The menu in which the provider that compaction runs on is picked.

use vstd::prelude::*;
use vstd::string::*;

use crate::cadence_view;
use crate::cadence_view::AppEvent;
use crate::chat_widget;
use crate::chat_widget::{describe_provider, ChatWidget};
use crate::config;
use crate::config::{find_key, find_provider};
use crate::items::same_option;
use crate::text;

verus! {

/// An entry of the menu. Picking it dismisses the menu and selects a provider.
#[derive(Debug, PartialEq, Eq)]
pub struct SelectionItem {
    pub name: String,
    pub description: Option<String>,
    pub is_current: bool,
    /// What picking the entry asks for.
    pub action: AppEvent,
    pub dismiss_on_select: bool,
    /// What a search looks into.
    pub search_value: Option<String>,
}

/// What a `SelectionItem` holds.
pub struct ItemModel {
    pub name: Seq<char>,
    pub description: Option<Seq<char>>,
    pub is_current: bool,
    pub action: cadence_view::AppEventModel,
    pub dismiss_on_select: bool,
    pub search_value: Option<Seq<char>>,
}

impl DeepView for SelectionItem {
    type V = ItemModel;

    open spec fn deep_view(&self) -> ItemModel {
        ItemModel {
            name: self.name@,
            description: self.description.deep_view(),
            is_current: self.is_current,
            action: self.action@,
            dismiss_on_select: self.dismiss_on_select,
            search_value: self.search_value.deep_view(),
        }
    }
}

/// The selection of a provider.
pub open spec fn selection(provider_id: Option<Seq<char>>) -> cadence_view::AppEventModel {
    cadence_view::AppEventModel::PersistCompactionProviderSelection { provider_id }
}

/// What stands below a menu.
#[derive(Clone, Copy, Debug, PartialEq, Eq, Structural)]
pub enum FooterHint {
    /// The line that every popup has: which keys confirm and which go back.
    StandardPopup,
}

/// The menu.
#[derive(Debug, PartialEq, Eq)]
pub struct SelectionViewParams {
    pub title: Option<String>,
    pub subtitle: Option<String>,
    pub footer_hint: Option<FooterHint>,
    pub initial_selected_idx: Option<usize>,
    pub is_searchable: bool,
    pub search_placeholder: Option<String>,
    pub items: Vec<SelectionItem>,
}

/// The key under which the current compaction provider is configured, if compaction has a
/// provider of its own and that one is configured.
pub open spec fn current_key(widget: chat_widget::WidgetModel) -> Option<Seq<char>> {
    match widget.config.compact_provider {
        Some(info) => config::key_of(widget.config.providers, info),
        None => None,
    }
}

/// The entry for the session's provider.
pub open spec fn session_item(widget: chat_widget::WidgetModel) -> ItemModel {
    let key = widget.config.session_key;
    ItemModel {
        name: "Session provider ("@ + key + ")"@,
        description: Some(
            "Compact on the same server as the conversation: "@ + chat_widget::description(
                widget.config.session_provider,
            ),
        ),
        is_current: current_key(widget) is None,
        action: selection(None),
        dismiss_on_select: true,
        search_value: Some("off session "@ + key),
    }
}

/// The entry for the provider under `key`.
pub open spec fn provider_item(
    widget: chat_widget::WidgetModel,
    key: Seq<char>,
    info: config::ProviderModel,
) -> ItemModel {
    ItemModel {
        name: key,
        description: Some(chat_widget::description(info)),
        is_current: current_key(widget) == Some(key),
        action: selection(Some(key)),
        dismiss_on_select: true,
        search_value: Some(
            key + " "@ + match info.base_url {
                Some(base_url) => base_url,
                None => Seq::empty(),
            },
        ),
    }
}

/// The entries for the providers under `keys`.
pub open spec fn provider_items(
    widget: chat_widget::WidgetModel,
    keys: Seq<Seq<char>>,
) -> Seq<ItemModel>
    decreases keys.len(),
{
    if keys.len() == 0 {
        Seq::empty()
    } else {
        let rest = provider_items(widget, keys.drop_last());
        match config::lookup(widget.config.providers, keys.last()) {
            Some(info) => rest.push(provider_item(widget, keys.last(), info)),
            None => rest,
        }
    }
}

/// All entries: the session's provider, then the others in ascending order of their keys.
pub open spec fn menu_items(widget: chat_widget::WidgetModel) -> Seq<ItemModel> {
    seq![session_item(widget)] + provider_items(widget, widget.choices())
}

/// The place of the first current entry, if there is one.
pub open spec fn first_current(items: Seq<ItemModel>) -> Option<int>
    decreases items.len(),
{
    if items.len() == 0 {
        None
    } else {
        match first_current(items.drop_last()) {
            Some(i) => Some(i),
            None => if items.last().is_current {
                Some(items.len() - 1)
            } else {
                None
            },
        }
    }
}

/// What the menu consists of.
pub open spec fn is_menu(menu: SelectionViewParams, widget: chat_widget::WidgetModel) -> bool {
    let items = menu_items(widget);
    &&& menu.items.deep_view() == items
    &&& menu.title.deep_view() == Some("Where should compaction run?"@)
    &&& menu.subtitle.deep_view() == Some(widget.summary())
    &&& menu.footer_hint == Some(FooterHint::StandardPopup)
    &&& menu.search_placeholder.deep_view() == Some("Type to filter providers"@)
    &&& menu.is_searchable == (items.len() > 4)
    &&& match menu.initial_selected_idx {
        Some(i) => first_current(items) == Some(i as int),
        None => first_current(items) is None,
    }
}

impl ChatWidget {
    fn current_key(&self) -> (key: Option<String>)
        ensures
            key.deep_view() == current_key(self@),
    {
        match &self.config.compact_model_provider {
            Some(info) => find_key(&self.config.model_providers, info),
            None => None,
        }
    }

    fn session_item(&self, current: &Option<String>) -> (item: SelectionItem)
        requires
            current.deep_view() == current_key(self@),
        ensures
            item.deep_view() == session_item(self@),
    {
        let mut name = "Session provider (".to_owned();
        name.append(self.config.model_provider_id.as_str());
        name.append(")");
        let mut description = "Compact on the same server as the conversation: ".to_owned();
        description.append(describe_provider(&self.config.model_provider).as_str());
        let mut search_value = "off session ".to_owned();
        search_value.append(self.config.model_provider_id.as_str());
        SelectionItem {
            name,
            description: Some(description),
            is_current: current.is_none(),
            action: AppEvent::PersistCompactionProviderSelection { provider_id: None },
            dismiss_on_select: true,
            search_value: Some(search_value),
        }
    }

    fn provider_item(
        &self,
        key: &String,
        info: &config::ModelProviderInfo,
        current: &Option<String>,
    ) -> (item: SelectionItem)
        requires
            current.deep_view() == current_key(self@),
        ensures
            item.deep_view() == provider_item(self@, key@, info.deep_view()),
    {
        let mut search_value = key.clone();
        search_value.append(" ");
        if let Some(base_url) = &info.base_url {
            search_value.append(base_url.as_str());
        }
        assert(search_value@ =~= key@ + " "@ + match info.deep_view().base_url {
            Some(base_url) => base_url,
            None => Seq::empty(),
        });
        let own = Some(key.clone());
        SelectionItem {
            name: key.clone(),
            description: Some(describe_provider(info)),
            is_current: same_option(current, &own),
            action: AppEvent::PersistCompactionProviderSelection { provider_id: own },
            dismiss_on_select: true,
            search_value: Some(search_value),
        }
    }

    fn menu_items(&self) -> (items: Vec<SelectionItem>)
        ensures
            items.deep_view() == menu_items(self@),
    {
        let current = self.current_key();
        let mut items: Vec<SelectionItem> = Vec::new();
        items.push(self.session_item(&current));
        let keys = self.compaction_provider_choices();
        let ghost all = text::texts(keys@);
        let ghost first = seq![session_item(self@)];
        let mut i: usize = 0;
        assert(items.deep_view() =~= first + provider_items(self@, all.take(0)));
        while i < keys.len()
            invariant
                all == text::texts(keys@),
                first == seq![session_item(self@)],
                current.deep_view() == current_key(self@),
                i <= keys@.len(),
                items.deep_view() == first + provider_items(self@, all.take(i as int)),
            decreases keys@.len() - i,
        {
            assert(all.take(i + 1).drop_last() =~= all.take(i as int));
            assert(all.take(i + 1).last() == keys@[i as int]@);
            let ghost before = items.deep_view();
            if let Some(info) = find_provider(&self.config.model_providers, keys[i].as_str()) {
                let item = self.provider_item(&keys[i], &info, &current);
                let ghost added = item.deep_view();
                items.push(item);
                assert(items.deep_view() =~= before.push(added));
            }
            i += 1;
            assert(items.deep_view() =~= first + provider_items(self@, all.take(i as int)));
        }
        assert(all.take(i as int) =~= all);
        items
    }

    /// `/squisher` with no argument: a menu over the configured providers.
    pub fn show_compaction_provider(&self) -> (menu: SelectionViewParams)
        ensures
            is_menu(menu, self@),
    {
        let items = self.menu_items();
        let ghost all = items.deep_view();
        let mut initial_selected_idx: Option<usize> = None;
        let mut i: usize = 0;
        while i < items.len()
            invariant
                all == items.deep_view(),
                i <= items@.len(),
                match initial_selected_idx {
                    Some(k) => first_current(all.take(i as int)) == Some(k as int),
                    None => first_current(all.take(i as int)) is None,
                },
            decreases items@.len() - i,
        {
            assert(all.take(i + 1).drop_last() =~= all.take(i as int));
            assert(all.take(i + 1).last() == items@[i as int].deep_view());
            if initial_selected_idx.is_none() && items[i].is_current {
                initial_selected_idx = Some(i);
            }
            i += 1;
        }
        assert(all.take(i as int) =~= all);
        SelectionViewParams {
            title: Some("Where should compaction run?".to_owned()),
            subtitle: Some(self.compaction_provider_summary()),
            footer_hint: Some(FooterHint::StandardPopup),
            initial_selected_idx,
            is_searchable: items.len() > 4,
            search_placeholder: Some("Type to filter providers".to_owned()),
            items,
        }
    }
}

proof fn lemma_provider_items(widget: chat_widget::WidgetModel, keys: Seq<Seq<char>>)
    requires
        forall|i: int|
            0 <= i < keys.len() ==> config::has_key(widget.config.providers, #[trigger] keys[i]),
    ensures
        provider_items(widget, keys).len() == keys.len(),
        forall|i: int|
            0 <= i < keys.len() ==> #[trigger] provider_items(widget, keys)[i] == provider_item(
                widget,
                keys[i],
                config::lookup(widget.config.providers, keys[i])->0,
            ),
    decreases keys.len(),
{
    if keys.len() > 0 {
        let front = keys.drop_last();
        assert forall|i: int| 0 <= i < front.len() implies config::has_key(
            widget.config.providers,
            #[trigger] front[i],
        ) by {
            assert(front[i] == keys[i]);
        }
        lemma_provider_items(widget, front);
        assert(config::has_key(widget.config.providers, keys[keys.len() - 1]));
        config::law_keys_have_providers(widget.config.providers, keys.last());
    }
}

/// The entry for the choice `i`.
pub proof fn lemma_menu_entry(widget: chat_widget::WidgetModel, i: int)
    requires
        0 <= i < widget.choices().len(),
    ensures
        menu_items(widget).len() == widget.choices().len() + 1,
        menu_items(widget)[i + 1] == provider_item(
            widget,
            widget.choices()[i],
            config::lookup(widget.config.providers, widget.choices()[i])->0,
        ),
{
    let keys = widget.choices();
    assert forall|k: int| 0 <= k < keys.len() implies config::has_key(
        widget.config.providers,
        #[trigger] keys[k],
    ) by {
        assert(keys.contains(keys[k]));
        config::law_choices_are_the_other_keys(
            widget.config.providers,
            widget.config.session_key,
            keys[k],
        );
    }
    lemma_provider_items(widget, keys);
}

/// The menu offers the session's provider first and then every other configured provider, each
/// under its key, in ascending order of the keys.
pub proof fn law_menu_offers_every_choice(widget: chat_widget::WidgetModel, i: int)
    requires
        0 <= i < widget.choices().len(),
    ensures
        menu_items(widget).len() == widget.choices().len() + 1,
        menu_items(widget)[0] == session_item(widget),
        menu_items(widget)[i + 1].name == widget.choices()[i],
        menu_items(widget)[i + 1].action == selection(Some(widget.choices()[i])),
{
    lemma_menu_entry(widget, i);
}

/// Without a compaction provider of its own, compaction is shown on the session's provider, and
/// the menu opens there.
pub proof fn law_menu_opens_on_the_session_provider(widget: chat_widget::WidgetModel)
    requires
        widget.config.compact_provider is None,
    ensures
        menu_items(widget)[0].is_current,
        first_current(menu_items(widget)) == Some(0int),
{
    lemma_first_current(menu_items(widget));
}

proof fn lemma_first_current(items: Seq<ItemModel>)
    requires
        items.len() > 0,
        items[0].is_current,
    ensures
        first_current(items) == Some(0int),
    decreases items.len(),
{
    if items.len() > 1 {
        lemma_first_current(items.drop_last());
    } else {
        assert(first_current(items.drop_last()) is None);
    }
}

proof fn lemma_key_of_unique(entries: Seq<config::EntryModel>, i: int)
    requires
        0 <= i < entries.len(),
        forall|j: int|
            0 <= j < entries.len() && j != i ==> (#[trigger] entries[j]).info != entries[i].info,
    ensures
        config::key_of(entries, entries[i].info) == Some(entries[i].key),
    decreases entries.len(),
{
    if i > 0 {
        let tail = entries.skip(1);
        assert(entries[0].info != entries[i].info);
        assert forall|j: int| 0 <= j < tail.len() && j != i - 1 implies (#[trigger] tail[j]).info
            != tail[i - 1].info by {
            assert(tail[j] == entries[j + 1]);
        }
        lemma_key_of_unique(tail, i - 1);
    }
}

/// Once a configured provider has been saved for compaction, the menu takes its key for the
/// current one, if no other provider has the same name and address.
pub proof fn law_saved_provider_is_the_current_one(widget: chat_widget::WidgetModel, i: int)
    requires
        widget.config.valid(),
        0 <= i < widget.config.providers.len(),
        forall|j: int|
            0 <= j < widget.config.providers.len() && j != i ==> (
            #[trigger] widget.config.providers[j]).info != widget.config.providers[i].info,
    ensures
        ({
            let key = widget.config.providers[i].key;
            let saved = chat_widget::WidgetModel {
                config: widget.config.with_compact_provider(Some(key)),
                ..widget
            };
            current_key(saved) == Some(key)
        }),
{
    config::law_distinct_keys_find_their_entries(widget.config.providers, i);
    lemma_key_of_unique(widget.config.providers, i);
}

} // verus!
