//! The items of a conversation history.
//!
//! Compaction compares, counts and copies items but never looks into them. An item of a kind
//! other than a message is held as the text it is stored as.

use vstd::prelude::*;

use crate::text::copy_text;

verus! {

/// One piece of a message.
#[derive(Debug, PartialEq)]
pub enum ContentItem {
    InputText { text: String },
    OutputText { text: String },
    /// Any other piece, as the text it is stored as.
    Stored { text: String },
}

/// What a `ContentItem` holds.
pub enum ContentModel {
    InputText { text: Seq<char> },
    OutputText { text: Seq<char> },
    Stored { text: Seq<char> },
}

impl DeepView for ContentItem {
    type V = ContentModel;

    open spec fn deep_view(&self) -> ContentModel {
        match self {
            ContentItem::InputText { text } => ContentModel::InputText { text: text@ },
            ContentItem::OutputText { text } => ContentModel::OutputText { text: text@ },
            ContentItem::Stored { text } => ContentModel::Stored { text: text@ },
        }
    }
}

impl ContentItem {
    /// Whether two pieces are the same.
    pub fn same(&self, other: &ContentItem) -> (same: bool)
        ensures
            same == (self.deep_view() == other.deep_view()),
    {
        match (self, other) {
            (ContentItem::InputText { text: a }, ContentItem::InputText { text: b }) => *a == *b,
            (ContentItem::OutputText { text: a }, ContentItem::OutputText { text: b }) => *a == *b,
            (ContentItem::Stored { text: a }, ContentItem::Stored { text: b }) => *a == *b,
            _ => false,
        }
    }
}

impl Clone for ContentItem {
    fn clone(&self) -> (copy: ContentItem)
        ensures
            copy == *self,
    {
        match self {
            ContentItem::InputText { text } => ContentItem::InputText { text: text.clone() },
            ContentItem::OutputText { text } => ContentItem::OutputText { text: text.clone() },
            ContentItem::Stored { text } => ContentItem::Stored { text: text.clone() },
        }
    }
}

/// An item of the history.
#[derive(Debug, PartialEq)]
pub enum ResponseItem {
    Message {
        id: Option<String>,
        role: String,
        content: Vec<ContentItem>,
        phase: Option<String>,
        internal_chat_message_metadata_passthrough: Option<String>,
    },
    /// Any other item, as the text it is stored as.
    Stored { text: String },
}

/// What a `ResponseItem` holds.
pub enum ItemModel {
    Message {
        id: Option<Seq<char>>,
        role: Seq<char>,
        content: Seq<ContentModel>,
        phase: Option<Seq<char>>,
        passthrough: Option<Seq<char>>,
    },
    Stored { text: Seq<char> },
}

impl DeepView for ResponseItem {
    type V = ItemModel;

    open spec fn deep_view(&self) -> ItemModel {
        match self {
            ResponseItem::Message {
                id,
                role,
                content,
                phase,
                internal_chat_message_metadata_passthrough,
            } => ItemModel::Message {
                id: id.deep_view(),
                role: role@,
                content: content.deep_view(),
                phase: phase.deep_view(),
                passthrough: internal_chat_message_metadata_passthrough.deep_view(),
            },
            ResponseItem::Stored { text } => ItemModel::Stored { text: text@ },
        }
    }
}

/// Whether two optional texts are the same.
pub fn same_option(a: &Option<String>, b: &Option<String>) -> (same: bool)
    ensures
        same == (a.deep_view() == b.deep_view()),
{
    match (a, b) {
        (Some(x), Some(y)) => *x == *y,
        (None, None) => true,
        _ => false,
    }
}

fn same_content(a: &Vec<ContentItem>, b: &Vec<ContentItem>) -> (same: bool)
    ensures
        same == (a.deep_view() == b.deep_view()),
{
    if a.len() != b.len() {
        assert(a.deep_view().len() != b.deep_view().len());
        return false;
    }
    let mut i: usize = 0;
    while i < a.len()
        invariant
            a@.len() == b@.len(),
            i <= a@.len(),
            forall|k: int| 0 <= k < i ==> a.deep_view()[k] == b.deep_view()[k],
        decreases a@.len() - i,
    {
        assert(a.deep_view()[i as int] == a@[i as int].deep_view());
        assert(b.deep_view()[i as int] == b@[i as int].deep_view());
        if !a[i].same(&b[i]) {
            return false;
        }
        i += 1;
    }
    assert(a.deep_view() =~= b.deep_view());
    true
}

fn clone_content(content: &Vec<ContentItem>) -> (copy: Vec<ContentItem>)
    ensures
        copy.deep_view() == content.deep_view(),
{
    let mut copy: Vec<ContentItem> = Vec::new();
    let mut i: usize = 0;
    while i < content.len()
        invariant
            i <= content@.len(),
            copy@ == content@.take(i as int),
        decreases content@.len() - i,
    {
        copy.push(content[i].clone());
        i += 1;
        assert(copy@ =~= content@.take(i as int));
    }
    assert(copy@ =~= content@);
    copy
}

impl ResponseItem {
    /// Whether two items are the same.
    pub fn same(&self, other: &ResponseItem) -> (same: bool)
        ensures
            same == (self.deep_view() == other.deep_view()),
    {
        match (self, other) {
            (
                ResponseItem::Message {
                    id: id1,
                    role: role1,
                    content: content1,
                    phase: phase1,
                    internal_chat_message_metadata_passthrough: passthrough1,
                },
                ResponseItem::Message {
                    id: id2,
                    role: role2,
                    content: content2,
                    phase: phase2,
                    internal_chat_message_metadata_passthrough: passthrough2,
                },
            ) => same_option(id1, id2) && *role1 == *role2 && same_content(content1, content2)
                && same_option(phase1, phase2) && same_option(passthrough1, passthrough2),
            (ResponseItem::Stored { text: a }, ResponseItem::Stored { text: b }) => *a == *b,
            _ => false,
        }
    }
}

impl Clone for ResponseItem {
    fn clone(&self) -> (copy: ResponseItem)
        ensures
            copy.deep_view() == self.deep_view(),
    {
        match self {
            ResponseItem::Message {
                id,
                role,
                content,
                phase,
                internal_chat_message_metadata_passthrough,
            } => ResponseItem::Message {
                id: copy_text(id),
                role: role.clone(),
                content: clone_content(content),
                phase: copy_text(phase),
                internal_chat_message_metadata_passthrough: copy_text(
                    internal_chat_message_metadata_passthrough,
                ),
            },
            ResponseItem::Stored { text } => ResponseItem::Stored { text: text.clone() },
        }
    }
}

/// An item together with the note that the history keeps beside it.
#[derive(Debug, PartialEq)]
pub struct ResponseItemEnvelope {
    pub item: ResponseItem,
    pub annotation: Option<String>,
}

/// What a `ResponseItemEnvelope` holds.
pub struct EnvelopeModel {
    pub item: ItemModel,
    pub annotation: Option<Seq<char>>,
}

impl DeepView for ResponseItemEnvelope {
    type V = EnvelopeModel;

    open spec fn deep_view(&self) -> EnvelopeModel {
        EnvelopeModel {
            item: self.item.deep_view(),
            annotation: self.annotation.deep_view(),
        }
    }
}

impl ResponseItemEnvelope {
    /// An item without a note.
    pub fn new(item: ResponseItem) -> (envelope: ResponseItemEnvelope)
        ensures
            envelope.item == item,
            envelope.annotation is None,
    {
        ResponseItemEnvelope { item, annotation: None }
    }

    /// Whether two envelopes hold the same.
    pub fn same(&self, other: &ResponseItemEnvelope) -> (same: bool)
        ensures
            same == (self.deep_view() == other.deep_view()),
    {
        self.item.same(&other.item) && same_option(&self.annotation, &other.annotation)
    }
}

impl Clone for ResponseItemEnvelope {
    fn clone(&self) -> (copy: ResponseItemEnvelope)
        ensures
            copy.deep_view() == self.deep_view(),
    {
        ResponseItemEnvelope {
            item: self.item.clone(),
            annotation: copy_text(&self.annotation),
        }
    }
}

/// What a list of envelopes holds.
pub open spec fn item_models(items: Seq<ResponseItemEnvelope>) -> Seq<EnvelopeModel> {
    Seq::new(items.len(), |i: int| items[i].deep_view())
}

/// Whether `prefix` is what `history` starts with.
pub open spec fn starts_with(history: Seq<EnvelopeModel>, prefix: Seq<EnvelopeModel>) -> bool {
    prefix.len() <= history.len() && history.take(prefix.len() as int) == prefix
}

/// Whether `prefix` is what `history` starts with.
pub fn is_prefix(prefix: &[ResponseItemEnvelope], history: &[ResponseItemEnvelope]) -> (yes: bool)
    ensures
        yes == starts_with(item_models(history@), item_models(prefix@)),
{
    if prefix.len() > history.len() {
        return false;
    }
    let ghost p = item_models(prefix@);
    let ghost h = item_models(history@);
    let mut i: usize = 0;
    while i < prefix.len()
        invariant
            p == item_models(prefix@),
            h == item_models(history@),
            i <= prefix@.len() <= history@.len(),
            forall|k: int| 0 <= k < i ==> p[k] == h[k],
        decreases prefix@.len() - i,
    {
        if !prefix[i].same(&history[i]) {
            assert(h.take(p.len() as int)[i as int] != p[i as int]);
            return false;
        }
        i += 1;
    }
    assert(h.take(p.len() as int) =~= p);
    true
}

} // verus!
