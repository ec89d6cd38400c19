//! What forensic mode adds to a page.
use vstd::prelude::*;

use crate::config::Config;
use crate::database::associated_guid_of;
use crate::escape::{escaped, sanitize_html};
use crate::html::HTML;
use crate::messages::Message;
use crate::reply::{build_reply_snippet, snippet};
use crate::text::decimal::{decimal, decimal_text};
use crate::text::optional_text;

verus! {

/// How many characters of an identifier are shown.
pub const GUID_PREFIX_CHARS: usize = 8;

/// An identifier for the reader's eye: its start, with an ellipsis where it
/// goes on.
pub open spec fn shortened_guid(guid: Seq<char>) -> Seq<char> {
    if guid.len() <= GUID_PREFIX_CHARS {
        guid
    } else {
        guid.take(GUID_PREFIX_CHARS as int).push('…')
    }
}

/// Shorten a message's identifier for display. Enough of it stays to find the
/// whole identifier by.
pub fn short_guid(guid: &str) -> (short: String)
    ensures
        short@ == shortened_guid(guid@),
{
    if guid.unicode_len() <= GUID_PREFIX_CHARS {
        guid.to_string()
    } else {
        let mut short = guid.substring_char(0, GUID_PREFIX_CHARS).to_string();
        short.push('…');
        short
    }
}

/// A shortened identifier starts as the identifier does. A short identifier
/// stays whole; a longer one ends in an ellipsis.
pub proof fn law_shortened_guid(guid: Seq<char>)
    ensures
        shortened_guid(guid).len() <= GUID_PREFIX_CHARS + 1,
        forall|i: int|
            0 <= i < guid.len() && i < GUID_PREFIX_CHARS ==> #[trigger] shortened_guid(guid)[i]
                == guid[i],
        guid.len() <= GUID_PREFIX_CHARS ==> shortened_guid(guid) == guid,
        guid.len() > GUID_PREFIX_CHARS ==> shortened_guid(guid).len() == GUID_PREFIX_CHARS + 1
            && shortened_guid(guid).last() == '…',
{
}

/// A reference to another message.
pub struct MessageReference {
    /// Who sent it.
    pub sender: String,
    /// A preview of it.
    pub snippet: String,
    /// Where it stands on the page.
    pub anchor_target: String,
}

/// A reference to another message.
pub ghost struct ReferenceView {
    pub sender: Seq<char>,
    pub snippet: Seq<char>,
    pub anchor_target: Seq<char>,
}

impl View for MessageReference {
    type V = ReferenceView;

    open spec fn view(&self) -> ReferenceView {
        ReferenceView {
            sender: self.sender@,
            snippet: self.snippet@,
            anchor_target: self.anchor_target@,
        }
    }
}

/// The reference to a message: by its sender, its preview and its identifier.
pub open spec fn reference_of(target: Message) -> ReferenceView {
    ReferenceView {
        sender: target.sender@,
        snippet: snippet(optional_text(target.text), target.num_attachments),
        anchor_target: target.guid@,
    }
}

/// The reference to the message with an identifier, if there is an identifier
/// and the message is known.
pub open spec fn reference_by_guid(config: Config, guid: Option<Seq<char>>) -> Option<
    ReferenceView,
> {
    match guid {
        Some(guid) => match config.message_of(guid) {
            Some(target) => Some(reference_of(target)),
            None => None,
        },
        None => None,
    }
}

/// A reference that may be absent.
pub open spec fn optional_reference(reference: Option<MessageReference>) -> Option<ReferenceView> {
    match reference {
        Some(reference) => Some(reference@),
        None => None,
    }
}

/// The message that a reply responds to.
pub open spec fn replying_to(config: Config, reply: Message) -> Option<ReferenceView> {
    reference_by_guid(config, optional_text(reply.thread_originator_guid))
}

/// The message that a reaction was made to.
pub open spec fn in_reaction_to(config: Config, tapback_msg: Message) -> Option<ReferenceView> {
    reference_by_guid(
        config,
        associated_guid_of(optional_text(tapback_msg.associated_message_guid)),
    )
}

/// A time in words, if it was recorded.
pub open spec fn recorded_time(date: i64, words: Seq<char>) -> Option<Seq<char>> {
    if date != 0 {
        Some(words)
    } else {
        None
    }
}

/// The metadata shown below a message.
pub struct ForensicMetaVM {
    pub guid_short: String,
    /// When the message was delivered, in words.
    pub delivered: Option<String>,
    /// When the message was read, in words.
    pub read: Option<String>,
    pub edited: bool,
    pub deleted: bool,
    pub chat_id: Option<i32>,
}

/// The metadata shown below a message.
pub ghost struct ForensicMetaView {
    pub guid_short: Seq<char>,
    pub delivered: Option<Seq<char>>,
    pub read: Option<Seq<char>>,
    pub edited: bool,
    pub deleted: bool,
    pub chat_id: Option<i32>,
}

impl View for ForensicMetaVM {
    type V = ForensicMetaView;

    open spec fn view(&self) -> ForensicMetaView {
        ForensicMetaView {
            guid_short: self.guid_short@,
            delivered: optional_text(self.delivered),
            read: optional_text(self.read),
            edited: self.edited,
            deleted: self.deleted,
            chat_id: self.chat_id,
        }
    }
}

/// The metadata of a message. A time that was never recorded is left out.
pub open spec fn forensic_meta(message: Message) -> ForensicMetaView {
    ForensicMetaView {
        guid_short: shortened_guid(message.guid@),
        delivered: recorded_time(message.date_delivered, message.delivered_at@),
        read: recorded_time(message.date_read, message.read_at@),
        edited: message.date_edited != 0,
        deleted: message.deleted_from is Some,
        chat_id: message.chat_id,
    }
}

impl<'a> HTML<'a> {
    /// The reference to the message with an identifier, if there is an
    /// identifier and the message is known.
    pub fn resolve_reference(&self, guid: &Option<String>) -> (reference: Option<MessageReference>)
        ensures
            optional_reference(reference) == reference_by_guid(
                *self.config,
                optional_text(*guid),
            ),
    {
        match guid {
            Some(guid) => match self.config.find_message(guid) {
                Some(target) => Some(
                    MessageReference {
                        sender: target.sender.clone(),
                        snippet: build_reply_snippet(target),
                        anchor_target: target.guid.clone(),
                    },
                ),
                None => None,
            },
            None => None,
        }
    }

    /// The message that a reply responds to, as shown above the reply in
    /// forensic mode. Where it is not known, the reply is shown without it.
    pub fn resolve_replying_to(&self, reply: &Message) -> (reference: Option<MessageReference>)
        ensures
            optional_reference(reference) == replying_to(*self.config, *reply),
    {
        self.resolve_reference(&reply.thread_originator_guid)
    }

    /// The metadata of a message. A time that was never recorded is left out.
    pub fn build_forensic_meta(&self, message: &Message) -> (meta: ForensicMetaVM)
        ensures
            meta@ == forensic_meta(*message),
    {
        let delivered = if message.date_delivered != 0 {
            Some(message.delivered_at.clone())
        } else {
            None
        };
        let read = if message.date_read != 0 {
            Some(message.read_at.clone())
        } else {
            None
        };
        ForensicMetaVM {
            guid_short: short_guid(message.guid.as_str()),
            delivered,
            read,
            edited: message.is_edited(),
            deleted: message.is_deleted(),
            chat_id: message.chat_id,
        }
    }

    /// The message that a reaction was made to, as shown in the reaction's
    /// bubble. Where it is not known, the bubble is shown without it.
    pub fn resolve_in_reaction_to(&self, tapback_msg: &Message) -> (reference: Option<
        MessageReference,
    >)
        ensures
            optional_reference(reference) == in_reaction_to(*self.config, *tapback_msg),
    {
        self.resolve_reference(&tapback_msg.clean_associated_guid())
    }
}

// The markup.

/// The line above a reply that leads to what it responds to.
pub open spec fn replying_to_markup(parent: ReferenceView) -> Seq<char> {
    "<div class=\"replying_to\"><a href=\"#"@ + escaped(parent.anchor_target) + "\">↪ "@ + escaped(
        parent.sender,
    ) + ": "@ + escaped(parent.snippet) + "</a></div>"@
}

/// The line above a reaction that leads to what it was made to.
pub open spec fn in_reaction_to_markup(target: ReferenceView) -> Seq<char> {
    "<div class=\"in_reaction_to\"><a href=\"#"@ + escaped(target.anchor_target)
        + "\">in reaction to "@ + escaped(target.sender) + ": "@ + escaped(target.snippet)
        + "</a></div>"@
}

/// One field of the metadata, where there is something to show.
pub open spec fn meta_field(label: Seq<char>, value: Option<Seq<char>>) -> Seq<char> {
    match value {
        Some(value) => " <span>"@ + label + escaped(value) + "</span>"@,
        None => Seq::empty(),
    }
}

/// A flag of the metadata, where it is set.
pub open spec fn meta_flag(set: bool, label: Seq<char>) -> Seq<char> {
    if set {
        " <span>"@ + label + "</span>"@
    } else {
        Seq::empty()
    }
}

/// The number of a conversation in decimal notation, if it is known.
pub open spec fn chat_number(chat_id: Option<i32>) -> Option<Seq<char>> {
    match chat_id {
        Some(chat_id) => Some(decimal(chat_id as int)),
        None => None,
    }
}

/// The strip of metadata below a message.
pub open spec fn forensic_meta_markup(meta: ForensicMetaView) -> Seq<char> {
    "<div class=\"forensic_meta\"><span>guid: "@ + escaped(meta.guid_short) + "</span>"@
        + meta_field("delivered: "@, meta.delivered) + meta_field("read: "@, meta.read)
        + meta_flag(meta.edited, "edited"@) + meta_flag(meta.deleted, "deleted"@) + meta_field(
        "chat: "@,
        chat_number(meta.chat_id),
    ) + "</div>"@
}

pub(crate) fn render_replying_to(reference: &MessageReference) -> (markup: String)
    ensures
        markup@ == replying_to_markup(reference@),
{
    let mut markup = "<div class=\"replying_to\"><a href=\"#".to_string();
    markup.append(sanitize_html(reference.anchor_target.as_str()).as_str());
    markup.append("\">↪ ");
    markup.append(sanitize_html(reference.sender.as_str()).as_str());
    markup.append(": ");
    markup.append(sanitize_html(reference.snippet.as_str()).as_str());
    markup.append("</a></div>");
    markup
}

pub(crate) fn render_in_reaction_to(reference: &MessageReference) -> (markup: String)
    ensures
        markup@ == in_reaction_to_markup(reference@),
{
    let mut markup = "<div class=\"in_reaction_to\"><a href=\"#".to_string();
    markup.append(sanitize_html(reference.anchor_target.as_str()).as_str());
    markup.append("\">in reaction to ");
    markup.append(sanitize_html(reference.sender.as_str()).as_str());
    markup.append(": ");
    markup.append(sanitize_html(reference.snippet.as_str()).as_str());
    markup.append("</a></div>");
    markup
}

fn render_meta_field(label: &str, value: &Option<String>) -> (markup: String)
    ensures
        markup@ == meta_field(label@, optional_text(*value)),
{
    match value {
        Some(value) => {
            let mut markup = " <span>".to_string();
            markup.append(label);
            markup.append(sanitize_html(value.as_str()).as_str());
            markup.append("</span>");
            markup
        },
        None => String::new(),
    }
}

fn render_meta_flag(set: bool, label: &str) -> (markup: String)
    ensures
        markup@ == meta_flag(set, label@),
{
    if set {
        let mut markup = " <span>".to_string();
        markup.append(label);
        markup.append("</span>");
        markup
    } else {
        String::new()
    }
}

pub(crate) fn render_forensic_meta(meta: &ForensicMetaVM) -> (markup: String)
    ensures
        markup@ == forensic_meta_markup(meta@),
{
    let chat = match meta.chat_id {
        Some(chat_id) => Some(decimal_text(chat_id as i64)),
        None => None,
    };
    let mut markup = "<div class=\"forensic_meta\"><span>guid: ".to_string();
    markup.append(sanitize_html(meta.guid_short.as_str()).as_str());
    markup.append("</span>");
    markup.append(render_meta_field("delivered: ", &meta.delivered).as_str());
    markup.append(render_meta_field("read: ", &meta.read).as_str());
    markup.append(render_meta_flag(meta.edited, "edited").as_str());
    markup.append(render_meta_flag(meta.deleted, "deleted").as_str());
    markup.append(render_meta_field("chat: ", &chat).as_str());
    markup.append("</div>");
    markup
}

} // verus!
