//! Messages in HTML, with the replies and reactions to them.
use vstd::prelude::*;

use crate::config::Config;
use crate::database::expressive_label;
use crate::error::{RuntimeError, RuntimeErrorView};
use crate::escape::{escaped, law_escaped_concat, law_escaped_plain, sanitize_html, Html};
use crate::html::forensic::{
    forensic_meta, forensic_meta_markup, reference_of, render_forensic_meta, render_replying_to,
    replying_to, replying_to_markup,
};
use crate::html::part::{body_markup, render_body, PartBody};
use crate::html::tapback::{bubble_class, render_bubble_class};
use crate::html::HTML;
use crate::messages::{Message, SharedLocation};
use crate::reply::{
    build_replies, build_tapbacks, part_replies, part_tapbacks, MessagePart, RenderContext,
    ReplyEntry, ThreadedMessage,
};
use crate::text::optional_text;
use crate::text::seq_lemmas::{lemma_take_all, lemma_take_step};

verus! {

// One part of a message.

/// The reactions to a part, each on a line.
pub open spec fn tapback_lines(tapbacks: Seq<Seq<char>>) -> Seq<char>
    decreases tapbacks.len(),
{
    if tapbacks.len() == 0 {
        Seq::empty()
    } else {
        tapback_lines(tapbacks.drop_last()) + "\n    <div class=\"tapback\">"@ + tapbacks.last()
            + "</div>"@
    }
}

/// The reactions to a part, where there are any to show.
pub open spec fn tapbacks_markup(tapbacks: Option<Seq<Seq<char>>>) -> Seq<char> {
    match tapbacks {
        Some(tapbacks) => "\n<hr><p>Tapbacks:</p>\n<div class=\"tapbacks\">"@ + tapback_lines(
            tapbacks,
        ) + "\n</div>"@,
        None => Seq::empty(),
    }
}

/// The replies to a part, each by its identifier.
pub open spec fn reply_lines(replies: Seq<(Seq<char>, Seq<char>)>) -> Seq<char>
    decreases replies.len(),
{
    if replies.len() == 0 {
        Seq::empty()
    } else {
        let (guid, body) = replies.last();
        reply_lines(replies.drop_last()) + "\n    <div class=\"reply\" id=\""@ + escaped(guid)
            + "\">"@ + body + "</div>"@
    }
}

/// The replies to a part, where there are any to show.
pub open spec fn replies_markup(replies: Option<Seq<(Seq<char>, Seq<char>)>>) -> Seq<char> {
    match replies {
        Some(replies) => "\n<div class=\"replies\">"@ + reply_lines(replies) + "\n</div>"@,
        None => Seq::empty(),
    }
}

/// The effect that a message was sent with, in words, where it has one.
pub open spec fn expressive_markup(expressive: Seq<char>) -> Seq<char> {
    if expressive.len() > 0 {
        "\n<span class=\"expressive\">"@ + escaped(expressive) + "</span>"@
    } else {
        Seq::empty()
    }
}

/// One part of a message: its body, the effect it was sent with, the reactions
/// and the replies to it.
pub open spec fn part_markup(
    body: PartBody,
    expressive: Seq<char>,
    tapbacks: Option<Seq<Seq<char>>>,
    replies: Option<Seq<(Seq<char>, Seq<char>)>>,
) -> Seq<char> {
    "<hr>\n<div class=\"message_part\">\n    "@ + body_markup(body) + "\n    </div>"@
        + expressive_markup(expressive) + tapbacks_markup(tapbacks) + replies_markup(replies)
        + "\n"@
}

/// The first `count` parts of a message, or why they could not be rendered. In
/// forensic mode replies and reactions stand elsewhere.
pub open spec fn parts_markup(
    config: Config,
    message: Message,
    parts: Seq<MessagePart>,
    expressive: Seq<char>,
    count: nat,
) -> Result<Seq<char>, RuntimeErrorView>
    decreases parts, count,
{
    if count == 0 || count > parts.len() {
        Ok(Seq::empty())
    } else {
        match parts_markup(config, message, parts, expressive, (count - 1) as nat) {
            Err(why) => Err(why),
            Ok(before) => {
                let part = parts[count - 1];
                let replies = if config.options.forensic {
                    Ok(None)
                } else {
                    part_replies(config, part.replies)
                };
                let tapbacks = if config.options.forensic {
                    Ok(None)
                } else {
                    part_tapbacks(config, message.guid@, (count - 1) as usize)
                };
                match replies {
                    Err(why) => Err(why),
                    Ok(replies) => match tapbacks {
                        Err(why) => Err(why),
                        Ok(tapbacks) => Ok(
                            before + "\n        "@ + part_markup(
                                part.body,
                                expressive,
                                tapbacks,
                                replies,
                            ) + "\n        "@,
                        ),
                    },
                }
            },
        }
    }
}

// The page of one message.

/// Who read a message, and how long after it came, if that is known. What the
/// database's owner sent was read by others; else the owner read it, who is
/// called by the name they chose.
pub open spec fn read_note(config: Config, message: Message) -> Seq<char> {
    match message.read_after {
        Some(after) => {
            let reader = if message.sent_by_owner() {
                "them"@
            } else {
                match config.options.custom_name {
                    Some(name) => name@,
                    None => "you"@,
                }
            };
            "(Read by "@ + reader + " after "@ + after@ + ")"@
        },
        None => Seq::empty(),
    }
}

/// Where a message stands on the page. In forensic mode every message at its
/// own place in time has an anchor under its identifier; else only a reply
/// there, apart from the one it has in its thread.
pub open spec fn anchor_of(config: Config, message: Message, context: RenderContext) -> Option<
    Seq<char>,
> {
    if context is Reply {
        None
    } else if config.options.forensic {
        Some(message.guid@)
    } else if message.thread_originator_guid is Some {
        Some("r-"@ + message.guid@)
    } else {
        None
    }
}

/// The attribute that makes an anchor.
pub open spec fn anchor_markup(anchor: Option<Seq<char>>) -> Seq<char> {
    match anchor {
        Some(anchor) => " id=\""@ + escaped(anchor) + "\""@,
        None => Seq::empty(),
    }
}

/// The link between the two places of a reply: from its own place in time to
/// its thread, and back.
pub open spec fn reply_anchor_markup(
    config: Config,
    message: Message,
    context: RenderContext,
) -> Seq<char> {
    if !config.options.forensic && message.thread_originator_guid is Some {
        if context is Reply {
            "\n            \n            <span class=\"reply_anchor\"><a title=\"View in context\" href=\"#r-"@
                + escaped(message.guid@) + "\">⇲</a></span>\n            \n            "@
        } else {
            "\n            \n            <span class=\"reply_anchor\"><a title=\"View in thread\" href=\"#"@
                + escaped(message.guid@) + "\">⇱</a></span>\n            \n            "@
        }
    } else {
        Seq::empty()
    }
}

/// The line above a reply that leads to what it responds to, which forensic
/// mode shows.
pub open spec fn quote_markup(config: Config, message: Message, context: RenderContext) -> Seq<
    char,
> {
    if config.options.forensic && context is TopLevel {
        match replying_to(config, message) {
            Some(parent) => "\n        "@ + replying_to_markup(parent),
            None => Seq::empty(),
        }
    } else {
        Seq::empty()
    }
}

/// A note that a message was deleted.
pub open spec fn deleted_markup(message: Message) -> Seq<char> {
    if message.deleted_from is Some {
        "\n        <span class=\"deleted\">This message was deleted from the conversation!</span>\n        "@
    } else {
        Seq::empty()
    }
}

/// The subject line.
pub open spec fn subject_markup(message: Message) -> Seq<char> {
    match message.subject {
        Some(subject) => "\n        <p>Subject: <span class=\"subject\">"@ + escaped(subject@)
            + "</span></p>\n        "@,
        None => Seq::empty(),
    }
}

/// A note that a SharePlay session ended.
pub open spec fn shareplay_markup(message: Message) -> Seq<char> {
    if message.item_type == 6 {
        "\n        <span class=\"shareplay\">"@ + "<hr>SharePlay Message Ended"@
            + "</span>\n        "@
    } else {
        Seq::empty()
    }
}

/// What happened to a shared location, in words.
pub open spec fn location_text(kind: SharedLocation) -> Seq<char> {
    match kind {
        SharedLocation::Started => "<hr>Started sharing location!"@,
        SharedLocation::Stopped => "<hr>Stopped sharing location!"@,
    }
}

/// A note on what happened to a shared location.
pub open spec fn shared_location_markup(message: Message) -> Seq<char> {
    match message.location_event() {
        Some(kind) => "\n        <span class=\"shared_location\">"@ + location_text(kind)
            + "</span>\n        "@,
        None => Seq::empty(),
    }
}

/// A note below a reply at its own place in time.
pub open spec fn reply_context_markup(
    config: Config,
    message: Message,
    context: RenderContext,
) -> Seq<char> {
    if !config.options.forensic && message.thread_originator_guid is Some && context is TopLevel {
        "\n        <span class=\"reply_context\">This message responded to an earlier message.</span>\n        "@
    } else {
        Seq::empty()
    }
}

/// The strip of metadata below a message, which forensic mode shows.
pub open spec fn meta_markup(config: Config, message: Message) -> Seq<char> {
    if config.options.forensic {
        "\n        "@ + forensic_meta_markup(forensic_meta(message))
    } else {
        Seq::empty()
    }
}

/// The page of one message round its parts.
pub open spec fn page_markup(
    config: Config,
    message: Message,
    context: RenderContext,
    parts: Seq<char>,
) -> Seq<char> {
    "<div class=\"message\""@ + anchor_markup(anchor_of(config, message, context))
        + ">\n    <div class=\""@ + bubble_class(message)
        + "\">\n        <p>\n            <span class=\"timestamp\">\n                <a title=\"Reveal in Messages app\" href=\"sms://open?message-guid="@
        + escaped(message.guid@) + "\">"@ + escaped(message.sent_at@) + "</a>\n                "@
        + escaped(read_note(config, message)) + "\n            </span>\n            "@
        + reply_anchor_markup(config, message, context)
        + "\n            <span class=\"sender\">"@ + escaped(message.sender@)
        + "</span>\n        </p>"@ + quote_markup(config, message, context) + "\n        "@
        + deleted_markup(message) + "\n        "@ + subject_markup(message) + "\n        "@
        + shareplay_markup(message) + "\n        "@ + shared_location_markup(message)
        + "\n        "@ + parts + "\n        "@ + reply_context_markup(config, message, context)
        + meta_markup(config, message) + "\n    </div>\n</div>\n"@
}

/// A message with the replies and reactions to it, or why it could not be
/// rendered.
pub open spec fn message_markup(
    config: Config,
    message: ThreadedMessage,
    context: RenderContext,
) -> Result<Seq<char>, RuntimeErrorView>
    decreases message, 0nat,
{
    match message.parts {
        Err(why) => Err(RuntimeErrorView::DatabaseError(why@)),
        Ok(parts) => match parts_markup(
            config,
            message.message,
            parts@,
            expressive_label(optional_text(message.message.expressive_send_style_id)),
            parts@.len(),
        ) {
            Err(why) => Err(why),
            Ok(parts) => Ok(page_markup(config, message.message, context, parts)),
        },
    }
}

// Rendering.

fn render_tapbacks(
    tapbacks: &Option<Vec<Html>>,
    Ghost(expected): Ghost<Option<Seq<Seq<char>>>>,
) -> (markup: String)
    requires
        match *tapbacks {
            Some(found) => expected matches Some(texts) && texts.len() == found@.len() && forall|
                i: int,
            |
                0 <= i < found@.len() ==> (#[trigger] found@[i])@ == texts[i],
            None => expected is None,
        },
    ensures
        markup@ == tapbacks_markup(expected),
{
    match tapbacks {
        Some(tapbacks) => {
            let ghost texts = expected->0;
            let mut lines = String::new();
            for i in 0..tapbacks.len()
                invariant
                    texts.len() == tapbacks@.len(),
                    forall|i: int|
                        0 <= i < tapbacks@.len() ==> (#[trigger] tapbacks@[i])@ == texts[i],
                    lines@ == tapback_lines(texts.take(i as int)),
            {
                proof {
                    lemma_take_step(texts, i as int);
                }
                lines.append("\n    <div class=\"tapback\">");
                lines.append(tapbacks[i].as_str());
                lines.append("</div>");
            }
            proof {
                lemma_take_all(texts);
            }
            let mut markup =
                "\n<hr><p>Tapbacks:</p>\n<div class=\"tapbacks\">".to_string();
            markup.append(lines.as_str());
            markup.append("\n</div>");
            markup
        },
        None => String::new(),
    }
}

fn render_replies(
    replies: &Option<Vec<ReplyEntry<Html>>>,
    Ghost(expected): Ghost<Option<Seq<(Seq<char>, Seq<char>)>>>,
) -> (markup: String)
    requires
        match *replies {
            Some(found) => expected matches Some(texts) && texts.len() == found@.len() && forall|
                i: int,
            |
                0 <= i < found@.len() ==> ((#[trigger] found@[i]).guid@, found@[i].body@)
                    == texts[i],
            None => expected is None,
        },
    ensures
        markup@ == replies_markup(expected),
{
    match replies {
        Some(replies) => {
            let ghost texts = expected->0;
            let mut lines = String::new();
            for i in 0..replies.len()
                invariant
                    texts.len() == replies@.len(),
                    forall|i: int|
                        0 <= i < replies@.len() ==> ((#[trigger] replies@[i]).guid@,
                            replies@[i].body@) == texts[i],
                    lines@ == reply_lines(texts.take(i as int)),
            {
                proof {
                    lemma_take_step(texts, i as int);
                }
                lines.append("\n    <div class=\"reply\" id=\"");
                lines.append(sanitize_html(replies[i].guid.as_str()).as_str());
                lines.append("\">");
                lines.append(replies[i].body.as_str());
                lines.append("</div>");
            }
            proof {
                lemma_take_all(texts);
            }
            let mut markup = "\n<div class=\"replies\">".to_string();
            markup.append(lines.as_str());
            markup.append("\n</div>");
            markup
        },
        None => String::new(),
    }
}

fn render_part(body: &PartBody, expressive: &str, tapbacks: &str, replies: &str) -> (markup: String)
    ensures
        markup@ == "<hr>\n<div class=\"message_part\">\n    "@ + body_markup(*body)
            + "\n    </div>"@ + expressive_markup(expressive@) + tapbacks@ + replies@ + "\n"@,
{
    let mut markup = "<hr>\n<div class=\"message_part\">\n    ".to_string();
    markup.append(render_body(body).as_str());
    markup.append("\n    </div>");
    let mut effect = String::new();
    if expressive.unicode_len() > 0 {
        effect = "\n<span class=\"expressive\">".to_string();
        effect.append(sanitize_html(expressive).as_str());
        effect.append("</span>");
    }
    markup.append(effect.as_str());
    markup.append(tapbacks);
    markup.append(replies);
    markup.append("\n");
    markup
}

/// What fails on some of the parts fails on all of them, in the same way.
proof fn lemma_parts_fail(
    config: Config,
    message: Message,
    parts: Seq<MessagePart>,
    expressive: Seq<char>,
    count: nat,
    more: nat,
)
    requires
        count <= more <= parts.len(),
        parts_markup(config, message, parts, expressive, count) is Err,
    ensures
        parts_markup(config, message, parts, expressive, more) == parts_markup(
            config,
            message,
            parts,
            expressive,
            count,
        ),
    decreases more,
{
    if count < more {
        lemma_parts_fail(config, message, parts, expressive, count, (more - 1) as nat);
    }
}

impl<'a> HTML<'a> {
    /// Render a message with the replies and reactions to it, behind what `out`
    /// holds already. Where that fails, `out` is left as it is.
    pub fn format_message_into(
        &self,
        message: &ThreadedMessage,
        context: RenderContext,
        out: &mut String,
    ) -> (result: Result<(), RuntimeError>)
        requires
            self.config.well_formed(),
        ensures
            match message_markup(*self.config, *message, context) {
                Ok(markup) => result is Ok && final(out)@ == old(out)@ + markup,
                Err(why) => result matches Err(found) && found@ == why && final(out)@ == old(
                    out,
                )@,
            },
        decreases *message, 1nat,
    {
        let parts = match &message.parts {
            Ok(parts) => parts,
            Err(why) => return Err(RuntimeError::DatabaseError(why.clone())),
        };
        let forensic = self.config.options.forensic;
        let expressive = message.message.expressive();
        let mut parts_html = String::new();
        for idx in 0..parts.len()
            invariant
                self.config.well_formed(),
                message.parts == Ok::<Vec<MessagePart>, String>(*parts),
                forensic == self.config.options.forensic,
                expressive@ == expressive_label(
                    optional_text(message.message.expressive_send_style_id),
                ),
                out@ == old(out)@,
                parts_markup(
                    *self.config,
                    message.message,
                    parts@,
                    expressive@,
                    idx as nat,
                ) == Ok::<Seq<char>, RuntimeErrorView>(parts_html@),
        {
            let part = &parts[idx];
            let lift = |markup: String| -> (html: Html)
                ensures
                    html@ == markup@,
                { Html::trust(markup) };
            // Forensic mode shows replies and reactions at their own place in
            // time.
            let replies = if forensic {
                Ok(None)
            } else {
                build_replies(self, &part.replies, lift)
            };
            let replies = match replies {
                Ok(replies) => replies,
                Err(why) => {
                    proof {
                        lemma_parts_fail(
                            *self.config,
                            message.message,
                            parts@,
                            expressive@,
                            (idx + 1) as nat,
                            parts@.len(),
                        );
                    }
                    return Err(why);
                },
            };
            let tapbacks = if forensic {
                Ok(None)
            } else {
                build_tapbacks(self, &message.message, idx, lift)
            };
            let tapbacks = match tapbacks {
                Ok(tapbacks) => tapbacks,
                Err(why) => {
                    proof {
                        lemma_parts_fail(
                            *self.config,
                            message.message,
                            parts@,
                            expressive@,
                            (idx + 1) as nat,
                            parts@.len(),
                        );
                    }
                    return Err(why);
                },
            };
            let ghost expected_replies = if forensic {
                None
            } else {
                part_replies(*self.config, part.replies)->Ok_0
            };
            let ghost expected_tapbacks = if forensic {
                None
            } else {
                part_tapbacks(*self.config, message.message.guid@, idx)->Ok_0
            };
            let tapbacks_html = render_tapbacks(&tapbacks, Ghost(expected_tapbacks));
            let replies_html = render_replies(&replies, Ghost(expected_replies));
            parts_html.append("\n        ");
            parts_html.append(
                render_part(
                    &part.body,
                    expressive.as_str(),
                    tapbacks_html.as_str(),
                    replies_html.as_str(),
                ).as_str(),
            );
            parts_html.append("\n        ");
        }
        let page = self.format_page(&message.message, context, parts_html.as_str());
        out.append(page.as_str());
        Ok(())
    }

    /// Render the page of one message round its parts.
    fn format_page(&self, message: &Message, context: RenderContext, parts: &str) -> (markup:
        String)
        ensures
            markup@ == page_markup(*self.config, *message, context, parts@),
    {
        let is_reply = matches!(context, RenderContext::Reply);
        let forensic = self.config.options.forensic;
        let guid = sanitize_html(message.guid.as_str());
        let mut anchor = String::new();
        if forensic && !is_reply {
            anchor = " id=\"".to_string();
            anchor.append(guid.as_str());
            anchor.append("\"");
        } else if !forensic && message.is_reply() && !is_reply {
            let mut target = "r-".to_string();
            target.append(message.guid.as_str());
            anchor = " id=\"".to_string();
            anchor.append(sanitize_html(target.as_str()).as_str());
            anchor.append("\"");
        }
        let mut reply_anchor = String::new();
        if !forensic && message.is_reply() {
            if is_reply {
                reply_anchor =
                "\n            \n            <span class=\"reply_anchor\"><a title=\"View in context\" href=\"#r-".to_string();
                reply_anchor.append(guid.as_str());
                reply_anchor.append("\">⇲</a></span>\n            \n            ");
            } else {
                reply_anchor =
                "\n            \n            <span class=\"reply_anchor\"><a title=\"View in thread\" href=\"#".to_string();
                reply_anchor.append(guid.as_str());
                reply_anchor.append("\">⇱</a></span>\n            \n            ");
            }
        }
        let mut quote = String::new();
        if forensic && message.is_reply() && !is_reply {
            if let Some(reference) = self.resolve_replying_to(message) {
                quote = "\n        ".to_string();
                quote.append(render_replying_to(&reference).as_str());
            }
        }
        let mut deleted = String::new();
        if message.is_deleted() {
            deleted =
            "\n        <span class=\"deleted\">This message was deleted from the conversation!</span>\n        ".to_string();
        }
        let mut subject = String::new();
        if let Some(text) = &message.subject {
            subject = "\n        <p>Subject: <span class=\"subject\">".to_string();
            subject.append(sanitize_html(text.as_str()).as_str());
            subject.append("</span></p>\n        ");
        }
        let mut shareplay = String::new();
        if message.is_shareplay() {
            shareplay = "\n        <span class=\"shareplay\">".to_string();
            shareplay.append(self.format_shareplay());
            shareplay.append("</span>\n        ");
        }
        let mut shared_location = String::new();
        if let Some(kind) = message.shared_location_kind() {
            shared_location = "\n        <span class=\"shared_location\">".to_string();
            shared_location.append(self.format_shared_location(kind));
            shared_location.append("</span>\n        ");
        }
        let mut reply_context = String::new();
        if !forensic && message.is_reply() && !is_reply {
            reply_context =
            "\n        <span class=\"reply_context\">This message responded to an earlier message.</span>\n        ".to_string();
        }
        let mut meta = String::new();
        if forensic {
            meta = "\n        ".to_string();
            meta.append(render_forensic_meta(&self.build_forensic_meta(message)).as_str());
        }
        let (date, read_after) = self.get_time(message);
        let mut markup = "<div class=\"message\"".to_string();
        markup.append(anchor.as_str());
        markup.append(">\n    <div class=\"");
        markup.append(render_bubble_class(message).as_str());
        markup.append(
            "\">\n        <p>\n            <span class=\"timestamp\">\n                <a title=\"Reveal in Messages app\" href=\"sms://open?message-guid=",
        );
        markup.append(guid.as_str());
        markup.append("\">");
        markup.append(sanitize_html(date.as_str()).as_str());
        markup.append("</a>\n                ");
        markup.append(sanitize_html(read_after.as_str()).as_str());
        markup.append("\n            </span>\n            ");
        markup.append(reply_anchor.as_str());
        markup.append("\n            <span class=\"sender\">");
        markup.append(sanitize_html(message.sender.as_str()).as_str());
        markup.append("</span>\n        </p>");
        markup.append(quote.as_str());
        markup.append("\n        ");
        markup.append(deleted.as_str());
        markup.append("\n        ");
        markup.append(subject.as_str());
        markup.append("\n        ");
        markup.append(shareplay.as_str());
        markup.append("\n        ");
        markup.append(shared_location.as_str());
        markup.append("\n        ");
        markup.append(parts);
        markup.append("\n        ");
        markup.append(reply_context.as_str());
        markup.append(meta.as_str());
        markup.append("\n    </div>\n</div>\n");
        markup
    }

    /// When a message was sent, and who read it how long after, in words.
    pub fn get_time(&self, message: &Message) -> (time: (String, String))
        ensures
            ({
                let (date, read_after) = time;
                date@ == message.sent_at@ && read_after@ == read_note(*self.config, *message)
            }),
    {
        let mut note = String::new();
        if let Some(after) = &message.read_after {
            note = "(Read by ".to_string();
            if message.is_from_me() {
                note.append("them");
            } else {
                match &self.config.options.custom_name {
                    Some(name) => note.append(name.as_str()),
                    None => note.append("you"),
                }
            }
            note.append(" after ");
            note.append(after.as_str());
            note.append(")");
        }
        (message.sent_at.clone(), note)
    }

    pub fn format_shareplay(&self) -> (markup: &'static str)
        ensures
            markup@ == "<hr>SharePlay Message Ended"@,
    {
        "<hr>SharePlay Message Ended"
    }

    pub fn format_shared_location(&self, kind: SharedLocation) -> (markup: &'static str)
        ensures
            markup@ == location_text(kind),
    {
        match kind {
            SharedLocation::Started => "<hr>Started sharing location!",
            SharedLocation::Stopped => "<hr>Stopped sharing location!",
        }
    }
}

// What holds of every message.

/// The first `count` parts without replies or reactions.
pub open spec fn bare_parts_markup(
    parts: Seq<MessagePart>,
    expressive: Seq<char>,
    count: nat,
) -> Seq<char>
    decreases count,
{
    if count == 0 || count > parts.len() {
        Seq::empty()
    } else {
        bare_parts_markup(parts, expressive, (count - 1) as nat) + "\n        "@ + part_markup(
            parts[count - 1].body,
            expressive,
            None,
            None,
        ) + "\n        "@
    }
}

proof fn lemma_forensic_parts(
    config: Config,
    message: Message,
    parts: Seq<MessagePart>,
    expressive: Seq<char>,
    count: nat,
)
    requires
        config.options.forensic,
    ensures
        parts_markup(config, message, parts, expressive, count) == Ok::<
            Seq<char>,
            RuntimeErrorView,
        >(bare_parts_markup(parts, expressive, count)),
    decreases count,
{
    if 0 < count <= parts.len() {
        lemma_forensic_parts(config, message, parts, expressive, (count - 1) as nat);
    }
}

/// In forensic mode a message is shown without the replies and reactions to it,
/// so that none stands on the page twice, and nothing of them can keep it from
/// being shown.
pub proof fn law_forensic_shows_no_replies_or_tapbacks(
    config: Config,
    message: ThreadedMessage,
    context: RenderContext,
)
    requires
        config.options.forensic,
        message.parts is Ok,
    ensures
        message_markup(config, message, context) == Ok::<Seq<char>, RuntimeErrorView>(
            page_markup(
                config,
                message.message,
                context,
                bare_parts_markup(
                    message.parts->Ok_0@,
                    expressive_label(optional_text(message.message.expressive_send_style_id)),
                    message.parts->Ok_0@.len(),
                ),
            ),
        ),
{
    lemma_forensic_parts(
        config,
        message.message,
        message.parts->Ok_0@,
        expressive_label(optional_text(message.message.expressive_send_style_id)),
        message.parts->Ok_0@.len(),
    );
}

/// In forensic mode a message at its own place in time stands under its bare
/// identifier, with its metadata, and without the link to a thread or the note
/// on one.
pub proof fn law_forensic_page(config: Config, message: Message)
    requires
        config.options.forensic,
    ensures
        anchor_of(config, message, RenderContext::TopLevel) == Some(message.guid@),
        reply_anchor_markup(config, message, RenderContext::TopLevel) == Seq::<char>::empty(),
        reply_context_markup(config, message, RenderContext::TopLevel) == Seq::<char>::empty(),
        meta_markup(config, message) == "\n        "@ + forensic_meta_markup(forensic_meta(message)),
{
}

/// Without forensic mode no message has a strip of metadata or a line that
/// leads to what it responds to, and only a reply at its own place in time has
/// an anchor.
pub proof fn law_default_page(config: Config, message: Message, context: RenderContext)
    requires
        !config.options.forensic,
    ensures
        meta_markup(config, message) == Seq::<char>::empty(),
        quote_markup(config, message, context) == Seq::<char>::empty(),
        anchor_of(config, message, context) is Some <==> message.thread_originator_guid is Some
            && context is TopLevel,
{
}

/// A message that is no reply looks the same wherever it is rendered, unless
/// forensic mode gives it an anchor.
pub proof fn law_non_reply_page(config: Config, message: Message, parts: Seq<char>)
    requires
        !config.options.forensic,
        message.thread_originator_guid is None,
    ensures
        page_markup(config, message, RenderContext::TopLevel, parts) == page_markup(
            config,
            message,
            RenderContext::Reply,
            parts,
        ),
{
}

/// The link that a reply has in its thread leads to the anchor that it has at
/// its own place in time: both are written as the same text.
pub proof fn law_reply_links_meet(config: Config, message: Message)
    requires
        !config.options.forensic,
        message.thread_originator_guid is Some,
    ensures
        anchor_of(config, message, RenderContext::TopLevel) is Some,
        escaped(anchor_of(config, message, RenderContext::TopLevel)->0) == "r-"@ + escaped(
            message.guid@,
        ),
        reply_anchor_markup(config, message, RenderContext::Reply)
            == "\n            \n            <span class=\"reply_anchor\"><a title=\"View in context\" href=\"#r-"@
            + escaped(message.guid@) + "\">⇲</a></span>\n            \n            "@,
{
    reveal_strlit("r-");
    law_escaped_plain("r-"@);
    law_escaped_concat("r-"@, message.guid@);
}

/// A message with an empty effect looks like one without an effect.
pub proof fn law_empty_effect_is_none()
    ensures
        expressive_label(Some(Seq::empty())) == expressive_label(None),
        expressive_markup(expressive_label(None)) == Seq::<char>::empty(),
{
    reveal_strlit("com.apple.MobileSMS.expressivesend.gentle");
    reveal_strlit("com.apple.MobileSMS.expressivesend.impact");
    reveal_strlit("com.apple.MobileSMS.expressivesend.invisibleink");
    reveal_strlit("com.apple.MobileSMS.expressivesend.loud");
    reveal_strlit("com.apple.messages.effect.CKConfettiEffect");
    reveal_strlit("com.apple.messages.effect.CKEchoEffect");
    reveal_strlit("com.apple.messages.effect.CKFireworksEffect");
    reveal_strlit("com.apple.messages.effect.CKHappyBirthdayEffect");
    reveal_strlit("com.apple.messages.effect.CKHeartEffect");
    reveal_strlit("com.apple.messages.effect.CKLasersEffect");
    reveal_strlit("com.apple.messages.effect.CKShootingStarEffect");
    reveal_strlit("com.apple.messages.effect.CKSparklesEffect");
    reveal_strlit("com.apple.messages.effect.CKSpotlightEffect");
}

/// In forensic mode the lines that lead from a reply or a reaction to another
/// message lead to the anchor under which that message stands.
pub proof fn law_forensic_references_meet(config: Config, target: Message)
    requires
        config.options.forensic,
    ensures
        anchor_of(config, target, RenderContext::TopLevel) == Some(
            reference_of(target).anchor_target,
        ),
{
}

/// A reply whose parent is not known is shown all the same, without the line
/// that would lead there.
pub proof fn law_orphan_reply_is_shown(config: Config, message: ThreadedMessage)
    requires
        config.options.forensic,
        message.parts is Ok,
        replying_to(config, message.message) is None,
    ensures
        quote_markup(config, message.message, RenderContext::TopLevel) == Seq::<char>::empty(),
        message_markup(config, message, RenderContext::TopLevel) is Ok,
{
    law_forensic_shows_no_replies_or_tapbacks(config, message, RenderContext::TopLevel);
}

} // verus!
