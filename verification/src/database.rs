//! Calls into the message database crate that only compute.
use imessage_database::message_types::variants;
use imessage_database::tables::messages::models::GroupAction::{
    ChatBackgroundChanged, ChatBackgroundRemoved, GroupIconChanged, GroupIconRemoved, NameChange,
    ParticipantAdded, ParticipantLeft, ParticipantRemoved, PhoneNumberChanged,
};
use imessage_database::tables::messages::models::Service;
use imessage_database::tables::messages::Message as Row;
use imessage_database::tables::table::{DEFAULT_PATH_IOS, ME, YOU};
use vstd::prelude::*;

use crate::database::GroupEvent::{
    Added, BackgroundChanged, BackgroundRemoved, IconChanged, IconRemoved, Left, Named, Removed,
    Renumbered,
};
use crate::text::slices::{byte_len, byte_slice, on_boundary};
use crate::text::whitespace::trimmed;
use crate::text::{before_slash, optional_text};

verus! {

/// `imessage_database`'s `table::ME`: what the database's owner goes by.
#[verifier::external_body]
pub(crate) fn me() -> (name: &'static str)
    ensures
        name@ == "Me"@,
{
    ME
}

/// `imessage_database`'s `table::YOU`: how the database's owner is addressed.
#[verifier::external_body]
pub(crate) fn you() -> (name: &'static str)
    ensures
        name@ == "You"@,
{
    YOU
}

/// `imessage_database`'s `table::DEFAULT_PATH_IOS`: where a device backup keeps
/// the message database.
#[verifier::external_body]
pub(crate) fn messages_path() -> (path: &'static str)
    ensures
        path@ == "3d/3d0d7e5fb2ce288813306e4d4636395e047a3d28"@,
{
    DEFAULT_PATH_IOS
}

/// What a row records that was done to a group.
#[derive(Debug, Clone, Copy, PartialEq, Eq, Structural)]
pub enum GroupEvent {
    Added,
    Removed,
    Named,
    Left,
    IconChanged,
    IconRemoved,
    BackgroundChanged,
    BackgroundRemoved,
    Renumbered,
}

/// What a row records that was done to a group, by its sort of row and of
/// event. Whoever is recorded as adding themself has a new number.
pub open spec fn group_event_of(
    handle_id: Option<i32>,
    item_type: i32,
    other_handle: Option<i32>,
    group_title: Option<Seq<char>>,
    group_action_type: i32,
) -> Option<GroupEvent> {
    if item_type == 1 && group_action_type == 0 && other_handle is Some {
        if handle_id == other_handle {
            Some(GroupEvent::Renumbered)
        } else {
            Some(GroupEvent::Added)
        }
    } else if item_type == 1 && group_action_type == 1 && other_handle is Some {
        Some(GroupEvent::Removed)
    } else if item_type == 2 && group_title is Some {
        Some(GroupEvent::Named)
    } else if item_type == 3 && group_action_type == 0 {
        Some(GroupEvent::Left)
    } else if item_type == 3 && group_action_type == 1 {
        Some(GroupEvent::IconChanged)
    } else if item_type == 3 && group_action_type == 2 {
        Some(GroupEvent::IconRemoved)
    } else if item_type == 3 && group_action_type == 4 {
        Some(GroupEvent::BackgroundChanged)
    } else if item_type == 3 && group_action_type == 6 {
        Some(GroupEvent::BackgroundRemoved)
    } else {
        None
    }
}

/// `imessage_database`'s `Message::group_action`, without the handle or the
/// name that it carries, which are those of the row. The other columns, which
/// have no part in that, are left empty.
#[verifier::external_body]
pub(crate) fn row_group_event(
    handle_id: Option<i32>,
    item_type: i32,
    other_handle: Option<i32>,
    group_title: Option<String>,
    group_action_type: i32,
) -> (event: Option<GroupEvent>)
    ensures
        event == group_event_of(
            handle_id,
            item_type,
            other_handle,
            optional_text(group_title),
            group_action_type,
        ),
{
    Row {
        rowid: 0, guid: String::new(), text: None, service: None, handle_id, destination_caller_id: None, subject: None,
        date: 0, date_read: 0, date_delivered: 0, is_from_me: false, is_read: false, item_type, other_handle,
        share_status: false, share_direction: None, group_title, group_action_type, associated_message_guid: None,
        associated_message_type: None, balloon_bundle_id: None, expressive_send_style_id: None, thread_originator_guid: None,
        thread_originator_part: None, date_edited: 0, associated_message_emoji: None, chat_id: None, num_attachments: 0,
        deleted_from: None, num_replies: 0, components: Vec::new(), edited_parts: None,
    }.group_action().map(|action| match action {
        ParticipantAdded(_) => Added, ParticipantRemoved(_) => Removed, NameChange(_) => Named, ParticipantLeft => Left,
        GroupIconChanged => IconChanged, GroupIconRemoved => IconRemoved, ChatBackgroundChanged => BackgroundChanged,
        ChatBackgroundRemoved => BackgroundRemoved, PhoneNumberChanged(_) => Renumbered,
    })
}

/// The name shown for a service: "Unknown" where none is recorded, else what is
/// recorded without white space at its ends, but for two names that are
/// written otherwise.
pub open spec fn service_label(service: Option<Seq<char>>) -> Seq<char> {
    match service {
        Some(recorded) => {
            let name = trimmed(recorded);
            if name == "iMessageLite"@ {
                "Satellite"@
            } else if name == "rcs"@ {
                "RCS"@
            } else {
                name
            }
        },
        None => "Unknown"@,
    }
}

/// `imessage_database`'s `Service::from_name` and the `Display` of its result:
/// the service's name, recognised after trimming.
#[verifier::external_body]
pub(crate) fn service_name(service: Option<String>) -> (name: String)
    ensures
        name@ == service_label(optional_text(service)),
{
    Service::from_name(service.as_deref()).to_string()
}

/// The effect that a style stands for, in words: a style that is not known is
/// named as it is, and no style is the empty text.
pub open spec fn expressive_label(style: Option<Seq<char>>) -> Seq<char> {
    match style {
        Some(style) => if style == "com.apple.MobileSMS.expressivesend.gentle"@ {
            "Sent with Gentle"@
        } else if style == "com.apple.MobileSMS.expressivesend.impact"@ {
            "Sent with Slam"@
        } else if style == "com.apple.MobileSMS.expressivesend.invisibleink"@ {
            "Sent with Invisible Ink"@
        } else if style == "com.apple.MobileSMS.expressivesend.loud"@ {
            "Sent with Loud"@
        } else if style == "com.apple.messages.effect.CKConfettiEffect"@ {
            "Sent with Confetti"@
        } else if style == "com.apple.messages.effect.CKEchoEffect"@ {
            "Sent with Echo"@
        } else if style == "com.apple.messages.effect.CKFireworksEffect"@ {
            "Sent with Fireworks"@
        } else if style == "com.apple.messages.effect.CKHappyBirthdayEffect"@ {
            "Sent with Balloons"@
        } else if style == "com.apple.messages.effect.CKHeartEffect"@ {
            "Sent with Heart"@
        } else if style == "com.apple.messages.effect.CKLasersEffect"@ {
            "Sent with Lasers"@
        } else if style == "com.apple.messages.effect.CKShootingStarEffect"@ {
            "Sent with Shooting Star"@
        } else if style == "com.apple.messages.effect.CKSparklesEffect"@ {
            "Sent with Sparkles"@
        } else if style == "com.apple.messages.effect.CKSpotlightEffect"@ {
            "Sent with Spotlight"@
        } else {
            style
        },
        None => Seq::empty(),
    }
}

/// `imessage_database`'s `Message::get_expressive` and the `Display` of its
/// result: the effect that a message was sent with, by the style that is
/// recorded for it. The other columns, which have no part in that, are left
/// empty.
#[verifier::external_body]
pub(crate) fn expressive_text(expressive_send_style_id: Option<String>) -> (text: String)
    ensures
        text@ == expressive_label(optional_text(expressive_send_style_id)),
{
    let row = Row {
        rowid: 0, guid: String::new(), text: None, service: None, handle_id: None, destination_caller_id: None,
        subject: None, date: 0, date_read: 0, date_delivered: 0, is_from_me: false, is_read: false, item_type: 0,
        other_handle: None, share_status: false, share_direction: None, group_title: None, group_action_type: 0,
        associated_message_guid: None, associated_message_type: None, balloon_bundle_id: None, expressive_send_style_id,
        thread_originator_guid: None, thread_originator_part: None, date_edited: 0, associated_message_emoji: None, chat_id: None,
        num_attachments: 0, deleted_from: None, num_replies: 0, components: Vec::new(), edited_parts: None,
    };
    row.get_expressive().to_string()
}

/// The reaction that an association type stands for, in words.
pub open spec fn reaction_label(kind: int, emoji: Option<Seq<char>>) -> Seq<char> {
    if kind == 0 {
        "Loved"@
    } else if kind == 1 {
        "Liked"@
    } else if kind == 2 {
        "Disliked"@
    } else if kind == 3 {
        "Laughed"@
    } else if kind == 4 {
        "Emphasized"@
    } else if kind == 5 {
        "Questioned"@
    } else if kind == 6 {
        match emoji {
            Some(emoji) => emoji,
            None => "Unknown emoji!"@,
        }
    } else {
        "Sticker"@
    }
}

/// The reaction that a row records: whether it was taken off again, whether it
/// is a sticker, and its label. An edited message records none.
pub open spec fn tapback_row(
    date_edited: i64,
    associated_message_type: Option<i32>,
    emoji: Option<Seq<char>>,
) -> Option<(bool, bool, Seq<char>)> {
    match associated_message_type {
        Some(kind) => if date_edited != 0 {
            None
        } else if kind == 1000 {
            Some((false, true, "Sticker"@))
        } else if 2000 <= kind <= 2007 {
            Some((false, kind == 2007, reaction_label(kind - 2000, emoji)))
        } else if 3000 <= kind <= 3007 {
            Some((true, kind == 3007, reaction_label(kind - 3000, emoji)))
        } else {
            None
        },
        None => None,
    }
}

/// `imessage_database`'s `Message::variant`, as far as it recognises reactions,
/// and the `Display` of the reaction: a reaction is recognised by its
/// association type alone, unless the message was edited. The other columns,
/// which have no part in that, are left empty.
#[verifier::external_body]
pub(crate) fn variant_tapback(
    date_edited: i64,
    associated_message_type: Option<i32>,
    associated_message_emoji: Option<String>,
) -> (reaction: Option<(bool, bool, String)>)
    ensures
        match tapback_row(
            date_edited,
            associated_message_type,
            optional_text(associated_message_emoji),
        ) {
            Some((removed, sticker, label)) => reaction matches Some(found) && found.0 == removed
                && found.1 == sticker && found.2@ == label,
            None => reaction is None,
        },
{
    let row = Row {
        rowid: 0, guid: String::new(), text: None, service: None, handle_id: None, destination_caller_id: None,
        subject: None, date: 0, date_read: 0, date_delivered: 0, is_from_me: false, is_read: false, item_type: 0,
        other_handle: None, share_status: false, share_direction: None, group_title: None, group_action_type: 0,
        associated_message_guid: None, associated_message_type, balloon_bundle_id: None, expressive_send_style_id: None,
        thread_originator_guid: None, thread_originator_part: None, date_edited, associated_message_emoji, chat_id: None,
        num_attachments: 0, deleted_from: None, num_replies: 0, components: Vec::new(), edited_parts: None,
    };
    match row.variant() {
        variants::Variant::Tapback(_, a, t) => Some((a == variants::TapbackAction::Removed, t == variants::Tapback::Sticker, t.to_string())),
        _ => None,
    }
}

/// The bytes `from..to` of a text, if it has them and they hold whole
/// characters.
pub open spec fn bytes_of(text: Seq<char>, from: int, to: int) -> Option<Seq<char>> {
    if to <= byte_len(text) && on_boundary(text, from) && on_boundary(text, to) {
        Some(byte_slice(text, from, to))
    } else {
        None
    }
}

/// The message that a reference leads to. A reference is the identifier of a
/// message, 36 bytes long, behind what says which part of it is meant: `p:`
/// with a number and a slash, or `bp:`, or nothing.
pub open spec fn associated_guid_of(reference: Option<Seq<char>>) -> Option<Seq<char>> {
    match reference {
        Some(reference) => if "p:"@.is_prefix_of(reference) {
            let part = before_slash(reference);
            if part.len() == reference.len() {
                None
            } else {
                bytes_of(before_slash(reference.skip(part.len() as int + 1)), 0, 36)
            }
        } else if "bp:"@.is_prefix_of(reference) {
            bytes_of(reference, 3, 39)
        } else {
            bytes_of(reference, 0, 36)
        },
        None => None,
    }
}

/// `imessage_database`'s `Message::clean_associated_guid`, without the number
/// of the part: the identifier in a reference to a message or a part of one.
/// The other columns, which have no part in that, are left empty.
#[verifier::external_body]
pub(crate) fn associated_guid(associated_message_guid: Option<String>) -> (guid: Option<String>)
    ensures
        optional_text(guid) == associated_guid_of(optional_text(associated_message_guid)),
{
    let row = Row {
        rowid: 0, guid: String::new(), text: None, service: None, handle_id: None, destination_caller_id: None,
        subject: None, date: 0, date_read: 0, date_delivered: 0, is_from_me: false, is_read: false, item_type: 0,
        other_handle: None, share_status: false, share_direction: None, group_title: None, group_action_type: 0,
        associated_message_guid, associated_message_type: None, balloon_bundle_id: None, expressive_send_style_id: None,
        thread_originator_guid: None, thread_originator_part: None, date_edited: 0, associated_message_emoji: None, chat_id: None,
        num_attachments: 0, deleted_from: None, num_replies: 0, components: Vec::new(), edited_parts: None,
    };
    row.clean_associated_guid().map(|found| found.1.to_string())
}

/// The sort of message that a row is: the `Debug` text of what
/// `imessage_database`'s `Message::variant` gives.
pub uninterp spec fn variant_debug_of(
    guid: Seq<char>,
    date_edited: i64,
    item_type: i32,
    associated_message_guid: Option<Seq<char>>,
    associated_message_type: Option<i32>,
    associated_message_emoji: Option<Seq<char>>,
    balloon_bundle_id: Option<Seq<char>>,
) -> Seq<char>;

/// The `Debug` text of what `imessage_database`'s `Message::variant` gives. It
/// depends on the columns that are handed over and on no other; what it says
/// of them is left unsaid.
#[verifier::external_body]
pub(crate) fn variant_debug(
    guid: String,
    date_edited: i64,
    item_type: i32,
    associated_message_guid: Option<String>,
    associated_message_type: Option<i32>,
    associated_message_emoji: Option<String>,
    balloon_bundle_id: Option<String>,
) -> (text: String)
    ensures
        text@ == variant_debug_of(
            guid@,
            date_edited,
            item_type,
            optional_text(associated_message_guid),
            associated_message_type,
            optional_text(associated_message_emoji),
            optional_text(balloon_bundle_id),
        ),
{
    let row = Row {
        rowid: 0, guid, text: None, service: None, handle_id: None, destination_caller_id: None,
        subject: None, date: 0, date_read: 0, date_delivered: 0, is_from_me: false, is_read: false, item_type,
        other_handle: None, share_status: false, share_direction: None, group_title: None, group_action_type: 0,
        associated_message_guid, associated_message_type, balloon_bundle_id, expressive_send_style_id: None,
        thread_originator_guid: None, thread_originator_part: None, date_edited, associated_message_emoji, chat_id: None,
        num_attachments: 0, deleted_from: None, num_replies: 0, components: Vec::new(), edited_parts: None,
    };
    format!("{:?}", row.variant())
}

} // verus!
