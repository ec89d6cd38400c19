//! Events in a conversation in HTML.
use vstd::prelude::*;

use crate::announcements::{
    announcer, resolve_announcement, Announcement, AnnouncementView, GroupAction, GroupActionView,
    ResolvedAnnouncement,
};
use crate::config::Config;
use crate::database::you;
use crate::escape::{escaped, sanitize_html};
use crate::html::HTML;
use crate::messages::Message;
use crate::text::optional_text;

verus! {

/// What happened, in words, after the name of whoever caused it.
pub open spec fn event_markup(event: AnnouncementView) -> Seq<char> {
    match event {
        AnnouncementView::FullyUnsent => "unsent a message."@,
        AnnouncementView::AudioMessageKept => "kept an audio message."@,
        AnnouncementView::GroupAction(action) => match action {
            GroupActionView::ParticipantAdded(name) => "added "@ + escaped(name)
                + " to the conversation."@,
            GroupActionView::ParticipantRemoved(name) => "removed "@ + escaped(name)
                + " from the conversation."@,
            GroupActionView::NameChange(name) => "named the conversation <b>"@ + escaped(name)
                + "</b>"@,
            GroupActionView::ParticipantLeft => "left the conversation."@,
            GroupActionView::GroupIconChanged => "changed the group photo."@,
            GroupActionView::GroupIconRemoved => "removed the group photo."@,
            GroupActionView::ChatBackgroundChanged => "changed the chat background."@,
            GroupActionView::ChatBackgroundRemoved => "removed the chat background."@,
            GroupActionView::PhoneNumberChanged => "changed their phone number."@,
        },
    }
}

/// An event: when it was, who caused it and what happened.
pub open spec fn known_event_markup(
    timestamp: Seq<char>,
    who: Seq<char>,
    event: AnnouncementView,
) -> Seq<char> {
    "<div class=\"announcement\">\n    <p><span class=\"timestamp\">"@ + escaped(timestamp)
        + "</span> "@ + escaped(who) + " "@ + event_markup(event) + "</p>\n</div>"@
}

/// What a message that records an event adds to the page. It stands on lines of
/// its own, unless it is a message that was taken back: that stands where the
/// message stood. A message that records no event is said to be so.
pub open spec fn announcement_markup(config: Config, msg: Message) -> Seq<char> {
    match msg.event() {
        Some(event) => {
            let who = announcer(msg.sender@, optional_text(config.options.custom_name), "You"@);
            let inner = known_event_markup(msg.sent_at@, who, event);
            if event is FullyUnsent {
                inner
            } else {
                "\n"@ + inner + "\n"@
            }
        },
        None => {
            "\n"@
                + "<div class=\"announcement\">\n    <p>Unable to format announcement!</p>\n</div>"@
                + "\n"@
        },
    }
}

fn surrounded(before: &str, name: &str, after: &str) -> (markup: String)
    ensures
        markup@ == before@ + escaped(name@) + after@,
{
    let mut markup = before.to_string();
    markup.append(sanitize_html(name).as_str());
    markup.append(after);
    markup
}

fn render_event(announcement: &Announcement) -> (markup: String)
    ensures
        markup@ == event_markup(announcement@),
{
    match announcement {
        Announcement::FullyUnsent => "unsent a message.".to_string(),
        Announcement::AudioMessageKept => "kept an audio message.".to_string(),
        Announcement::GroupAction(action) => match action {
            GroupAction::ParticipantAdded(name) => {
                surrounded("added ", name.as_str(), " to the conversation.")
            },
            GroupAction::ParticipantRemoved(name) => {
                surrounded("removed ", name.as_str(), " from the conversation.")
            },
            GroupAction::NameChange(name) => {
                surrounded("named the conversation <b>", name.as_str(), "</b>")
            },
            GroupAction::ParticipantLeft => "left the conversation.".to_string(),
            GroupAction::GroupIconChanged => "changed the group photo.".to_string(),
            GroupAction::GroupIconRemoved => "removed the group photo.".to_string(),
            GroupAction::ChatBackgroundChanged => "changed the chat background.".to_string(),
            GroupAction::ChatBackgroundRemoved => "removed the chat background.".to_string(),
            GroupAction::PhoneNumberChanged => "changed their phone number.".to_string(),
        },
    }
}

fn render_announcement(resolved: &ResolvedAnnouncement) -> (markup: String)
    ensures
        markup@ == known_event_markup(
            resolved.timestamp@,
            resolved.who@,
            resolved.announcement@,
        ),
{
    let mut markup = "<div class=\"announcement\">\n    <p><span class=\"timestamp\">".to_string();
    markup.append(sanitize_html(resolved.timestamp.as_str()).as_str());
    markup.append("</span> ");
    markup.append(sanitize_html(resolved.who.as_str()).as_str());
    markup.append(" ");
    markup.append(render_event(&resolved.announcement).as_str());
    markup.append("</p>\n</div>");
    markup
}

impl<'a> HTML<'a> {
    /// Add the event that a message records to the page.
    pub fn format_announcement(&self, msg: &Message, out: &mut String)
        ensures
            final(out)@ == old(out)@ + announcement_markup(*self.config, *msg),
    {
        let (inner, wrap_newlines) = match resolve_announcement(msg, self.config, you()) {
            None => (
                "<div class=\"announcement\">\n    <p>Unable to format announcement!</p>\n</div>".to_string(),
                true,
            ),
            Some(resolved) => (
                render_announcement(&resolved),
                !matches!(resolved.announcement, Announcement::FullyUnsent),
            ),
        };
        let mut markup = String::new();
        if wrap_newlines {
            markup.append("\n");
        }
        markup.append(inner.as_str());
        if wrap_newlines {
            markup.append("\n");
        }
        out.append(markup.as_str());
        proof {
            assert(Seq::<char>::empty() + inner@ =~= inner@);
            assert(Seq::<char>::empty() + "\n"@ =~= "\n"@);
        }
    }
}

} // verus!
