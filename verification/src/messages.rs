//! Messages, as far as the exporters read them.
use vstd::prelude::*;

use crate::announcements::{Announcement, AnnouncementView, GroupAction, GroupActionView};
use crate::database::{
    associated_guid, associated_guid_of, expressive_label, expressive_text, group_event_of,
    row_group_event, service_label, service_name, tapback_row, variant_debug,
    variant_debug_of, variant_tapback, GroupEvent,
};
use crate::text::optional_text;

verus! {

/// One message: a row of the message table, with the names and times that the
/// export shows for it.
#[derive(Debug, Clone)]
pub struct Message {
    /// Unique identifier of the message.
    pub guid: String,
    /// The message's text.
    pub text: Option<String>,
    /// The service that the message was sent over.
    pub service: Option<String>,
    /// The subject line.
    pub subject: Option<String>,
    /// The handle of whoever sent the message.
    pub handle_id: Option<i32>,
    /// The name of whoever sent the message.
    pub sender: String,
    /// When the message was sent, in words.
    pub sent_at: String,
    /// How long the message stayed unread, in words, if that is known.
    pub read_after: Option<String>,
    /// When the message was read; zero if it never was.
    pub date_read: i64,
    /// When the message was read, in words.
    pub read_at: String,
    /// When the message was delivered; zero if it never was.
    pub date_delivered: i64,
    /// When the message was delivered, in words.
    pub delivered_at: String,
    /// When the message was edited; zero if it never was.
    pub date_edited: i64,
    /// Whether the database's owner sent the message.
    pub is_from_me: bool,
    /// What sort of row this is.
    pub item_type: i32,
    /// The other party of a group event or a shared location.
    pub other_handle: Option<i32>,
    /// The name of the other party.
    pub other_name: String,
    /// Whether a location stopped being shared.
    pub share_status: bool,
    /// Which way a location is shared.
    pub share_direction: Option<bool>,
    /// The name that a group was given.
    pub group_title: Option<String>,
    /// What a group event did.
    pub group_action_type: i32,
    /// The message that this one belongs to.
    pub associated_message_guid: Option<String>,
    /// How this message belongs to another.
    pub associated_message_type: Option<i32>,
    /// The emoji of a tapback.
    pub associated_message_emoji: Option<String>,
    /// The app that made the message.
    pub balloon_bundle_id: Option<String>,
    /// The effect that the message was sent with.
    pub expressive_send_style_id: Option<String>,
    /// The message that started the thread in which this one replies.
    pub thread_originator_guid: Option<String>,
    /// The conversation.
    pub chat_id: Option<i32>,
    /// How many attachments the message has.
    pub num_attachments: i32,
    /// The conversation that the message was deleted from.
    pub deleted_from: Option<i32>,
    /// What became of each part, where any was edited or taken back.
    pub edited_parts: Option<Vec<EditStatus>>,
}

/// What became of a part of a message.
#[derive(Debug, Clone, Copy, PartialEq, Eq, Structural)]
pub enum EditStatus {
    Edited,
    Unsent,
    Original,
}

/// Whether a tapback was put on a message or taken off again.
#[derive(Debug, Clone, Copy, PartialEq, Eq, Structural)]
pub enum TapbackAction {
    Added,
    Removed,
}

/// A reaction to a message.
#[derive(Debug, Clone)]
pub enum Tapback {
    /// A sticker put on the message.
    Sticker,
    /// Any other reaction, by its name or its emoji.
    Named(String),
}

/// What happened to a shared location.
#[derive(Debug, Clone, Copy, PartialEq, Eq, Structural)]
pub enum SharedLocation {
    Started,
    Stopped,
}

impl Tapback {
    /// The reaction in words.
    pub open spec fn label(self) -> Seq<char> {
        match self {
            Tapback::Sticker => "Sticker"@,
            Tapback::Named(label) => label@,
        }
    }

    /// The reaction in words.
    pub fn label_text(&self) -> (label: String)
        ensures
            label@ == self.label(),
    {
        match self {
            Tapback::Sticker => "Sticker".to_string(),
            Tapback::Named(label) => label.clone(),
        }
    }
}

impl Message {
    /// Whether the message replies in a thread.
    pub fn is_reply(&self) -> (yes: bool)
        ensures
            yes == (self.thread_originator_guid is Some),
    {
        self.thread_originator_guid.is_some()
    }

    /// Whether the message was edited.
    pub fn is_edited(&self) -> (yes: bool)
        ensures
            yes == (self.date_edited != 0),
    {
        self.date_edited != 0
    }

    /// Whether the message was deleted and can be recovered.
    pub fn is_deleted(&self) -> (yes: bool)
        ensures
            yes == (self.deleted_from is Some),
    {
        self.deleted_from.is_some()
    }

    /// Whether the message records the end of a SharePlay session.
    pub fn is_shareplay(&self) -> (yes: bool)
        ensures
            yes == (self.item_type == 6),
    {
        self.item_type == 6
    }

    /// Whether the database's owner sent the message. A shared location that
    /// names both its other party and its direction is the owner's too where
    /// there is another party and the direction is outward.
    pub open spec fn sent_by_owner(self) -> bool {
        self.is_from_me || (self.item_type == 4 && self.other_handle is Some
            && self.share_direction is Some && self.other_handle->0 != 0
            && !self.share_direction->0)
    }

    /// Whether the database's owner sent the message.
    pub fn is_from_me(&self) -> (yes: bool)
        ensures
            yes == self.sent_by_owner(),
    {
        if self.item_type == 4 {
            match (self.other_handle, self.share_direction) {
                (Some(other_handle), Some(share_direction)) => {
                    self.is_from_me || (other_handle != 0 && !share_direction)
                },
                _ => self.is_from_me,
            }
        } else {
            self.is_from_me
        }
    }

    /// Whether the message has a record of its parts and all were taken back.
    pub open spec fn all_unsent(self) -> bool {
        match self.edited_parts {
            Some(parts) => forall|i: int| 0 <= i < parts@.len() ==> (#[trigger] parts@[i]) is Unsent,
            None => false,
        }
    }

    /// Whether all parts of the message were taken back.
    pub fn is_fully_unsent(&self) -> (yes: bool)
        ensures
            yes == self.all_unsent(),
    {
        match &self.edited_parts {
            Some(parts) => {
                for i in 0..parts.len()
                    invariant
                        self.edited_parts == Some(*parts),
                        forall|j: int| 0 <= j < i ==> (#[trigger] parts@[j]) is Unsent,
                {
                    if !matches!(parts[i], EditStatus::Unsent) {
                        assert(!(self.edited_parts->0@[i as int] is Unsent));
                        return false;
                    }
                }
                true
            },
            None => false,
        }
    }

    /// What was done to the group, if the message records that.
    pub open spec fn group_event(self) -> Option<GroupActionView> {
        match group_event_of(
            self.handle_id,
            self.item_type,
            self.other_handle,
            optional_text(self.group_title),
            self.group_action_type,
        ) {
            Some(event) => Some(
                match event {
                    GroupEvent::Added => GroupActionView::ParticipantAdded(self.other_name@),
                    GroupEvent::Removed => GroupActionView::ParticipantRemoved(self.other_name@),
                    GroupEvent::Named => GroupActionView::NameChange(self.group_title->0@),
                    GroupEvent::Left => GroupActionView::ParticipantLeft,
                    GroupEvent::IconChanged => GroupActionView::GroupIconChanged,
                    GroupEvent::IconRemoved => GroupActionView::GroupIconRemoved,
                    GroupEvent::BackgroundChanged => GroupActionView::ChatBackgroundChanged,
                    GroupEvent::BackgroundRemoved => GroupActionView::ChatBackgroundRemoved,
                    GroupEvent::Renumbered => GroupActionView::PhoneNumberChanged,
                },
            ),
            None => None,
        }
    }

    /// What was done to the group, if the message records that.
    pub fn group_action(&self) -> (action: Option<GroupAction>)
        ensures
            match self.group_event() {
                Some(event) => action matches Some(found) && found@ == event,
                None => action is None,
            },
    {
        match row_group_event(
            self.handle_id,
            self.item_type,
            self.other_handle,
            self.group_title.clone(),
            self.group_action_type,
        ) {
            Some(event) => Some(
                match event {
                    GroupEvent::Added => GroupAction::ParticipantAdded(self.other_name.clone()),
                    GroupEvent::Removed => GroupAction::ParticipantRemoved(
                        self.other_name.clone(),
                    ),
                    GroupEvent::Named => match &self.group_title {
                        Some(name) => GroupAction::NameChange(name.clone()),
                        None => return None,
                    },
                    GroupEvent::Left => GroupAction::ParticipantLeft,
                    GroupEvent::IconChanged => GroupAction::GroupIconChanged,
                    GroupEvent::IconRemoved => GroupAction::GroupIconRemoved,
                    GroupEvent::BackgroundChanged => GroupAction::ChatBackgroundChanged,
                    GroupEvent::BackgroundRemoved => GroupAction::ChatBackgroundRemoved,
                    GroupEvent::Renumbered => GroupAction::PhoneNumberChanged,
                },
            ),
            None => None,
        }
    }

    /// The event that the message records, if it records one: something done to
    /// the group, a message that was taken back, or an audio message that was
    /// kept, in this order.
    pub open spec fn event(self) -> Option<AnnouncementView> {
        match self.group_event() {
            Some(action) => Some(AnnouncementView::GroupAction(action)),
            None => if self.all_unsent() {
                Some(AnnouncementView::FullyUnsent)
            } else if self.item_type == 5 {
                Some(AnnouncementView::AudioMessageKept)
            } else {
                None
            },
        }
    }

    /// The event that the message records, if it records one.
    pub fn get_announcement(&self) -> (announcement: Option<Announcement>)
        ensures
            match self.event() {
                Some(event) => announcement matches Some(found) && found@ == event,
                None => announcement is None,
            },
    {
        match self.group_action() {
            Some(action) => Some(Announcement::GroupAction(action)),
            None => if self.is_fully_unsent() {
                Some(Announcement::FullyUnsent)
            } else if self.item_type == 5 {
                Some(Announcement::AudioMessageKept)
            } else {
                None
            },
        }
    }

    /// The effect that the message was sent with, in words; empty where there
    /// is none.
    pub fn expressive(&self) -> (text: String)
        ensures
            text@ == expressive_label(optional_text(self.expressive_send_style_id)),
    {
        expressive_text(self.expressive_send_style_id.clone())
    }

    /// What happened to a shared location, if the message records that.
    pub open spec fn location_event(self) -> Option<SharedLocation> {
        if self.item_type == 4 && self.group_action_type == 0 {
            Some(
                if self.share_status {
                    SharedLocation::Stopped
                } else {
                    SharedLocation::Started
                },
            )
        } else {
            None
        }
    }

    /// What happened to a shared location, if the message records that.
    pub fn shared_location_kind(&self) -> (kind: Option<SharedLocation>)
        ensures
            kind == self.location_event(),
    {
        if self.item_type == 4 && self.group_action_type == 0 {
            if self.share_status {
                Some(SharedLocation::Stopped)
            } else {
                Some(SharedLocation::Started)
            }
        } else {
            None
        }
    }

    /// The name of the service that the message was sent over.
    pub fn service(&self) -> (name: String)
        ensures
            name@ == service_label(optional_text(self.service)),
    {
        service_name(self.service.clone())
    }

    /// The reaction that the message is: the action, whether it is a sticker,
    /// and the reaction in words.
    pub open spec fn reaction(self) -> Option<(TapbackAction, bool, Seq<char>)> {
        match tapback_row(
            self.date_edited,
            self.associated_message_type,
            optional_text(self.associated_message_emoji),
        ) {
            Some((removed, sticker, label)) => Some(
                (
                    if removed {
                        TapbackAction::Removed
                    } else {
                        TapbackAction::Added
                    },
                    sticker,
                    label,
                ),
            ),
            None => None,
        }
    }

    /// The reaction that the message is, if it is one.
    pub fn tapback(&self) -> (tapback: Option<(TapbackAction, Tapback)>)
        ensures
            match self.reaction() {
                Some((action, sticker, label)) => tapback matches Some(found) && found.0 == action
                    && (found.1 is Sticker <==> sticker) && found.1.label() == label,
                None => tapback is None,
            },
    {
        match variant_tapback(
            self.date_edited,
            self.associated_message_type,
            self.associated_message_emoji.clone(),
        ) {
            Some((removed, sticker, label)) => {
                let action = if removed {
                    TapbackAction::Removed
                } else {
                    TapbackAction::Added
                };
                let tapback = if sticker {
                    Tapback::Sticker
                } else {
                    Tapback::Named(label)
                };
                Some((action, tapback))
            },
            None => None,
        }
    }

    /// Whether the message is a reaction to another.
    pub fn is_tapback(&self) -> (yes: bool)
        ensures
            yes == (self.reaction() is Some),
    {
        self.tapback().is_some()
    }

    /// The message that this one belongs to, without the part it belongs to.
    pub fn clean_associated_guid(&self) -> (guid: Option<String>)
        ensures
            optional_text(guid) == associated_guid_of(optional_text(self.associated_message_guid)),
    {
        associated_guid(self.associated_message_guid.clone())
    }

    /// The sort of message, for diagnostics.
    pub fn variant_text(&self) -> (text: String)
        ensures
            text@ == self.variant_label(),
    {
        variant_debug(
            self.guid.clone(),
            self.date_edited,
            self.item_type,
            self.associated_message_guid.clone(),
            self.associated_message_type,
            self.associated_message_emoji.clone(),
            self.balloon_bundle_id.clone(),
        )
    }

    /// The sort of message, for diagnostics.
    pub open spec fn variant_label(self) -> Seq<char> {
        variant_debug_of(
            self.guid@,
            self.date_edited,
            self.item_type,
            optional_text(self.associated_message_guid),
            self.associated_message_type,
            optional_text(self.associated_message_emoji),
            optional_text(self.balloon_bundle_id),
        )
    }
}

} // verus!
