//! Reactions in HTML.
use vstd::prelude::*;

use crate::attachments::Attachment;
use crate::config::Config;
use crate::database::service_label;
use crate::error::{RuntimeError, RuntimeErrorView};
use crate::escape::{escaped, sanitize_html, Html};
use crate::html::attachment::sticker_markup;
use crate::html::forensic::{
    in_reaction_to, in_reaction_to_markup, optional_reference, render_in_reaction_to, short_guid,
    shortened_guid, MessageReference, ReferenceView,
};
use crate::html::HTML;
use crate::messages::{Message, TapbackAction};
use crate::tapback::{lacks_attachments, resolve_tapback, TapbackKind, TapbackMessage};
use crate::text::optional_text;

verus! {

// A reaction below the message that it was made to.

/// A reaction in words.
pub open spec fn reaction_markup(
    label: Seq<char>,
    who: Seq<char>,
    action_label: Seq<char>,
    extra_class: Seq<char>,
    time: Seq<char>,
) -> Seq<char> {
    "<span class=\"tapback"@ + extra_class + "\"><b>"@ + escaped(label) + "</b> "@ + action_label
        + "by "@ + escaped(who) + time + "</span>"@
}

/// A sticker that was found.
pub open spec fn sticker_tapback_markup(
    payload: Seq<char>,
    who: Seq<char>,
    time: Seq<char>,
) -> Seq<char> {
    payload + "<div class=\"sticker_tapback\">&nbsp;by "@ + escaped(who) + time + "</div>"@
}

/// A sticker that is missing.
pub open spec fn sticker_missing_markup(
    who: Seq<char>,
    extra_class: Seq<char>,
    time: Seq<char>,
) -> Seq<char> {
    "<span class=\"tapback"@ + extra_class + "\">Sticker from "@ + escaped(who)
        + " not found!"@ + time + "</span>"@
}

/// What stands before "by" in forensic mode.
pub open spec fn action_label(forensic: bool, action: TapbackAction) -> Seq<char> {
    if forensic && action is Removed {
        "removed "@
    } else {
        ""@
    }
}

/// The class that sets off a reaction that was taken off again.
pub open spec fn action_class(forensic: bool, action: TapbackAction) -> Seq<char> {
    if forensic && action is Removed {
        " tapback_removed"@
    } else {
        ""@
    }
}

/// When a reaction was made, which forensic mode shows.
pub open spec fn tapback_time_markup(forensic: bool, timestamp: Seq<char>) -> Seq<char> {
    if forensic {
        "<div class=\"tapback_time\">"@ + timestamp + "</div>"@
    } else {
        Seq::empty()
    }
}

/// A reaction that is shown. One that was taken off again is shown in words,
/// whatever it was.
pub open spec fn shown_tapback_markup(config: Config, msg: TapbackMessage) -> Seq<char> {
    let forensic = config.options.forensic;
    let who = msg.message.sender@;
    let class = action_class(forensic, msg.action());
    let time = tapback_time_markup(forensic, msg.message.sent_at@);
    if msg.action() is Added && msg.is_sticker() {
        if msg.attachments->Ok_0@.len() > 0 {
            sticker_tapback_markup(
                sticker_markup(msg.attachments->Ok_0@[0], !config.options.no_lazy),
                who,
                time,
            )
        } else {
            sticker_missing_markup(who, class, time)
        }
    } else {
        reaction_markup(
            msg.label(),
            who,
            action_label(forensic, msg.action()),
            class,
            time,
        )
    }
}

/// A reaction, or why it could not be rendered. One that was taken off again is
/// shown in forensic mode only.
pub open spec fn tapback_markup(config: Config, msg: TapbackMessage) -> Result<
    Seq<char>,
    RuntimeErrorView,
> {
    if msg.action() is Removed && !config.options.forensic {
        Ok(Seq::empty())
    } else if lacks_attachments(msg) {
        Err(RuntimeErrorView::DatabaseError(msg.attachments->Err_0@))
    } else {
        Ok(shown_tapback_markup(config, msg))
    }
}

fn render_tapback(
    kind: &TapbackKind<'_, Html>,
    action_label: &str,
    extra_class: &str,
    time_html: &Html,
) -> (markup: String)
    ensures
        markup@ == match *kind {
            TapbackKind::Reaction { tapback, who } => reaction_markup(
                tapback.label(),
                who@,
                action_label@,
                extra_class@,
                time_html@,
            ),
            TapbackKind::Sticker { payload, who } => sticker_tapback_markup(
                payload@,
                who@,
                time_html@,
            ),
            TapbackKind::StickerMissing { who } => sticker_missing_markup(
                who@,
                extra_class@,
                time_html@,
            ),
        },
{
    match kind {
        TapbackKind::Reaction { tapback, who } => {
            let mut markup = "<span class=\"tapback".to_string();
            markup.append(extra_class);
            markup.append("\"><b>");
            markup.append(sanitize_html(tapback.label_text().as_str()).as_str());
            markup.append("</b> ");
            markup.append(action_label);
            markup.append("by ");
            markup.append(sanitize_html(who).as_str());
            markup.append(time_html.as_str());
            markup.append("</span>");
            markup
        },
        TapbackKind::Sticker { payload, who } => {
            let mut markup = payload.as_str().to_string();
            markup.append("<div class=\"sticker_tapback\">&nbsp;by ");
            markup.append(sanitize_html(who).as_str());
            markup.append(time_html.as_str());
            markup.append("</div>");
            markup
        },
        TapbackKind::StickerMissing { who } => {
            let mut markup = "<span class=\"tapback".to_string();
            markup.append(extra_class);
            markup.append("\">Sticker from ");
            markup.append(sanitize_html(who).as_str());
            markup.append(" not found!");
            markup.append(time_html.as_str());
            markup.append("</span>");
            markup
        },
    }
}

// A reaction in a bubble of its own, which forensic mode shows at its own place
// in time.

/// The class of a bubble: who sent the message, and over which service.
pub open spec fn bubble_class(message: Message) -> Seq<char> {
    if message.sent_by_owner() {
        "sent "@ + escaped(service_label(optional_text(message.service)))
    } else {
        "received"@
    }
}

/// Render the class of a bubble.
pub(crate) fn render_bubble_class(message: &Message) -> (class: String)
    ensures
        class@ == bubble_class(*message),
{
    if message.is_from_me() {
        let mut class = "sent ".to_string();
        class.append(sanitize_html(message.service().as_str()).as_str());
        class
    } else {
        "received".to_string()
    }
}

/// A reaction in a bubble of its own. `target` refers to the message that it
/// was made to.
pub open spec fn bubble_markup(
    msg: Message,
    action: TapbackAction,
    label: Seq<char>,
    target: Option<ReferenceView>,
) -> Seq<char> {
    "<div class=\"message\" id=\""@ + escaped(msg.guid@) + "\">\n    <div class=\""@
        + bubble_class(msg) + " tapback_bubble"@ + (if action is Removed {
        " tapback_bubble_removed"@
    } else {
        ""@
    }) + "\">\n        <p>\n            <span class=\"timestamp\">"@ + escaped(msg.sent_at@)
        + "</span>\n            <span class=\"sender\">"@ + escaped(msg.sender@)
        + "</span>\n        </p>"@ + (match target {
        Some(target) => "\n        "@ + in_reaction_to_markup(target),
        None => Seq::empty(),
    }) + "\n        <div class=\"tapback_summary\"><b>"@ + escaped(label) + "</b> "@ + (
    if action is Removed {
        "Removed"@
    } else {
        "Added"@
    }) + " by "@ + escaped(msg.sender@) + "</div>\n        <div class=\"forensic_meta\">guid: "@
        + escaped(shortened_guid(msg.guid@)) + "</div>\n    </div>\n</div>\n"@
}

/// A reaction in a bubble of its own, or nothing where the message is none.
pub open spec fn tapback_bubble_markup(msg: Message, target: Option<ReferenceView>) -> Seq<char> {
    match msg.reaction() {
        Some((action, _, label)) => bubble_markup(msg, action, label, target),
        None => Seq::empty(),
    }
}

impl<'a> HTML<'a> {
    /// Render a reaction below the message that it was made to.
    pub fn format_tapback(&self, msg: &TapbackMessage) -> (markup: Result<String, RuntimeError>)
        requires
            msg.is_reaction(),
        ensures
            match tapback_markup(*self.config, *msg) {
                Ok(expected) => markup matches Ok(found) && found@ == expected,
                Err(why) => markup matches Err(found) && found@ == why,
            },
    {
        let render_sticker = |sticker: &Attachment| -> (payload: Html)
            ensures
                payload@ == sticker_markup(*sticker, !self.config.options.no_lazy),
            { Html::trust(self.format_sticker(sticker)) };
        let resolved = resolve_tapback(msg, self.config, render_sticker);
        match resolved {
            Err(why) => Err(RuntimeError::DatabaseError(why)),
            Ok(None) => Ok(String::new()),
            Ok(Some(resolved)) => {
                let (action_label, extra_class, time_html) = match &resolved.forensic {
                    None => ("", "", Html::trust(String::new())),
                    Some(forensic) => {
                        let (action_label, extra_class) = match forensic.action {
                            TapbackAction::Added => ("", ""),
                            TapbackAction::Removed => ("removed ", " tapback_removed"),
                        };
                        let mut time = "<div class=\"tapback_time\">".to_string();
                        time.append(forensic.timestamp.as_str());
                        time.append("</div>");
                        (action_label, extra_class, Html::trust(time))
                    },
                };
                Ok(render_tapback(&resolved.kind, action_label, extra_class, &time_html))
            },
        }
    }

    /// Render a reaction in a bubble of its own, with a line that leads to the
    /// message that it was made to, where that is known. A message that is no
    /// reaction renders as nothing.
    pub fn format_tapback_bubble(&self, msg: &Message) -> (markup: Result<String, RuntimeError>)
        ensures
            markup matches Ok(found) && found@ == tapback_bubble_markup(
                *msg,
                in_reaction_to(*self.config, *msg),
            ),
    {
        Ok(render_tapback_bubble(msg, &self.resolve_in_reaction_to(msg)))
    }
}

/// Render a reaction in a bubble of its own. `target` refers to the message that
/// it was made to.
pub fn render_tapback_bubble(msg: &Message, target: &Option<MessageReference>) -> (markup: String)
    ensures
        markup@ == tapback_bubble_markup(*msg, optional_reference(*target)),
{
    let (action, tapback) = match msg.tapback() {
        Some((action, tapback)) => (action, tapback),
        None => return String::new(),
    };
    let is_removed = matches!(action, TapbackAction::Removed);
    let action_word = if is_removed {
        "Removed"
    } else {
        "Added"
    };
    let kind_html = Html::trust(sanitize_html(tapback.label_text().as_str()));
    let sender = sanitize_html(msg.sender.as_str());
    let header = match target {
        Some(reference) => {
            let mut header = "\n        ".to_string();
            header.append(render_in_reaction_to(reference).as_str());
            header
        },
        None => String::new(),
    };
    let mut markup = "<div class=\"message\" id=\"".to_string();
    markup.append(sanitize_html(msg.guid.as_str()).as_str());
    markup.append("\">\n    <div class=\"");
    markup.append(render_bubble_class(msg).as_str());
    markup.append(" tapback_bubble");
    markup.append(
        if is_removed {
            " tapback_bubble_removed"
        } else {
            ""
        },
    );
    markup.append("\">\n        <p>\n            <span class=\"timestamp\">");
    markup.append(sanitize_html(msg.sent_at.as_str()).as_str());
    markup.append("</span>\n            <span class=\"sender\">");
    markup.append(sender.as_str());
    markup.append("</span>\n        </p>");
    markup.append(header.as_str());
    markup.append("\n        <div class=\"tapback_summary\"><b>");
    markup.append(kind_html.as_str());
    markup.append("</b> ");
    markup.append(action_word);
    markup.append(" by ");
    markup.append(sender.as_str());
    markup.append("</div>\n        <div class=\"forensic_meta\">guid: ");
    markup.append(sanitize_html(short_guid(msg.guid.as_str()).as_str()).as_str());
    markup.append("</div>\n    </div>\n</div>\n");
    markup
}

// What holds of every reaction.

/// Without forensic mode a reaction that was taken off again leaves no trace.
pub proof fn law_removed_tapback_is_hidden(config: Config, msg: TapbackMessage)
    requires
        msg.is_reaction(),
        !config.options.forensic,
        msg.action() is Removed,
    ensures
        tapback_markup(config, msg) == Ok::<Seq<char>, RuntimeErrorView>(Seq::empty()),
{
}

/// In forensic mode every reaction is shown, with its time, unless the
/// attachments of a sticker could not be read.
pub proof fn law_forensic_tapback_is_shown(config: Config, msg: TapbackMessage)
    requires
        msg.is_reaction(),
        config.options.forensic,
        !lacks_attachments(msg),
    ensures
        tapback_markup(config, msg) is Ok,
        tapback_markup(config, msg)->Ok_0.len() > 0,
{
    reveal_strlit("</span>");
    reveal_strlit("</div>");
}

/// In forensic mode a reaction that was taken off again never shows a sticker
/// or reads an attachment: it is told in words.
pub proof fn law_removed_tapback_is_told_in_words(config: Config, msg: TapbackMessage)
    requires
        msg.is_reaction(),
        config.options.forensic,
        msg.action() is Removed,
    ensures
        tapback_markup(config, msg) == Ok::<Seq<char>, RuntimeErrorView>(
            reaction_markup(
                msg.label(),
                msg.message.sender@,
                "removed "@,
                " tapback_removed"@,
                tapback_time_markup(true, msg.message.sent_at@),
            ),
        ),
{
}

/// A reaction's bubble is shown whether or not the message that it was made to
/// is known.
pub proof fn law_orphan_bubble_is_shown(msg: Message, target: Option<ReferenceView>)
    requires
        msg.reaction() is Some,
    ensures
        tapback_bubble_markup(msg, target).len() > 0,
{
    reveal_strlit("</div>\n    </div>\n</div>\n");
}

} // verus!
