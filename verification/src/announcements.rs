//! Events in a conversation that are no messages.
use vstd::prelude::*;

use crate::config::Config;
use crate::database::me;
use crate::messages::Message;
use crate::text::optional_text;

verus! {

/// What was done to a group conversation.
#[derive(Debug, Clone)]
pub enum GroupAction {
    /// Someone was added, by name.
    ParticipantAdded(String),
    /// Someone was removed, by name.
    ParticipantRemoved(String),
    /// The conversation was given a name.
    NameChange(String),
    /// Someone left.
    ParticipantLeft,
    /// The picture of the group was changed.
    GroupIconChanged,
    /// The picture of the group was removed.
    GroupIconRemoved,
    /// The background of the conversation was changed.
    ChatBackgroundChanged,
    /// The background of the conversation was removed.
    ChatBackgroundRemoved,
    /// Someone has a new phone number.
    PhoneNumberChanged,
}

/// An event in a conversation.
#[derive(Debug, Clone)]
pub enum Announcement {
    /// All parts of a message were taken back.
    FullyUnsent,
    /// Something was done to the group.
    GroupAction(GroupAction),
    /// An audio message was kept.
    AudioMessageKept,
}

/// What was done to a group conversation.
pub ghost enum GroupActionView {
    ParticipantAdded(Seq<char>),
    ParticipantRemoved(Seq<char>),
    NameChange(Seq<char>),
    ParticipantLeft,
    GroupIconChanged,
    GroupIconRemoved,
    ChatBackgroundChanged,
    ChatBackgroundRemoved,
    PhoneNumberChanged,
}

/// An event in a conversation.
pub ghost enum AnnouncementView {
    FullyUnsent,
    GroupAction(GroupActionView),
    AudioMessageKept,
}

impl View for GroupAction {
    type V = GroupActionView;

    open spec fn view(&self) -> GroupActionView {
        match self {
            GroupAction::ParticipantAdded(name) => GroupActionView::ParticipantAdded(name@),
            GroupAction::ParticipantRemoved(name) => GroupActionView::ParticipantRemoved(name@),
            GroupAction::NameChange(name) => GroupActionView::NameChange(name@),
            GroupAction::ParticipantLeft => GroupActionView::ParticipantLeft,
            GroupAction::GroupIconChanged => GroupActionView::GroupIconChanged,
            GroupAction::GroupIconRemoved => GroupActionView::GroupIconRemoved,
            GroupAction::ChatBackgroundChanged => GroupActionView::ChatBackgroundChanged,
            GroupAction::ChatBackgroundRemoved => GroupActionView::ChatBackgroundRemoved,
            GroupAction::PhoneNumberChanged => GroupActionView::PhoneNumberChanged,
        }
    }
}

impl View for Announcement {
    type V = AnnouncementView;

    open spec fn view(&self) -> AnnouncementView {
        match self {
            Announcement::FullyUnsent => AnnouncementView::FullyUnsent,
            Announcement::GroupAction(action) => AnnouncementView::GroupAction(action@),
            Announcement::AudioMessageKept => AnnouncementView::AudioMessageKept,
        }
    }
}

/// An event in a conversation, with who caused it and when, in words.
#[derive(Debug, Clone)]
pub struct ResolvedAnnouncement {
    pub timestamp: String,
    pub who: String,
    pub announcement: Announcement,
}

/// Who caused an event. The database's owner, who elsewhere goes by "Me", is
/// called by the name they chose, or else as `default_me` says.
pub open spec fn announcer(
    sender: Seq<char>,
    custom_name: Option<Seq<char>>,
    default_me: Seq<char>,
) -> Seq<char> {
    if sender == "Me"@ {
        match custom_name {
            Some(name) => name,
            None => default_me,
        }
    } else {
        sender
    }
}

/// The event that a message records, with who caused it and when, if it records
/// one.
pub fn resolve_announcement(msg: &Message, config: &Config, default_me: &str) -> (resolved: Option<
    ResolvedAnnouncement,
>)
    ensures
        match msg.event() {
            Some(event) => resolved matches Some(found) && found.announcement@ == event
                && found.timestamp@ == msg.sent_at@ && found.who@ == announcer(
                msg.sender@,
                optional_text(config.options.custom_name),
                default_me@,
            ),
            None => resolved is None,
        },
{
    match msg.get_announcement() {
        Some(announcement) => {
            let who = if msg.sender == me().to_string() {
                match &config.options.custom_name {
                    Some(name) => name.clone(),
                    None => default_me.to_string(),
                }
            } else {
                msg.sender.clone()
            };
            Some(ResolvedAnnouncement { timestamp: msg.sent_at.clone(), who, announcement })
        },
        None => None,
    }
}

} // verus!
