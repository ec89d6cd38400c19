//! Replies and reactions to messages, and previews of what they refer to.
use vstd::prelude::*;

use crate::config::{lemma_found, tapbacks_at, Config};
use crate::error::{RuntimeError, RuntimeErrorView};
use crate::html::message::message_markup;
use crate::html::part::PartBody;
use crate::html::tapback::tapback_markup;
use crate::html::HTML;
use crate::messages::Message;
use crate::tapback::TapbackMessage;
use crate::text::optional_text;
use crate::text::whitespace::{
    collapse_whitespace, is_white_space, law_words_on_one_line, spaced, words,
};

verus! {

/// The longest preview, in characters. Most messages are shorter and are shown
/// whole.
pub const REPLY_SNIPPET_MAX_CHARS: usize = 256;

/// What stands for a message without text.
pub open spec fn placeholder(num_attachments: i32) -> Seq<char> {
    if num_attachments > 0 {
        "[attachment]"@
    } else {
        "[no preview]"@
    }
}

/// A line cut to the longest preview, with an ellipsis where something was cut.
pub open spec fn shortened(line: Seq<char>) -> Seq<char> {
    if line.len() <= REPLY_SNIPPET_MAX_CHARS {
        line
    } else {
        line.take(REPLY_SNIPPET_MAX_CHARS as int).push('…')
    }
}

/// The words of a text. A text that is absent has none.
pub open spec fn words_of(text: Option<Seq<char>>) -> Seq<Seq<char>> {
    match text {
        Some(text) => words(text),
        None => Seq::empty(),
    }
}

/// A preview on one line: the message's words, shortened, or what stands for a
/// message that has none.
pub open spec fn snippet(text: Option<Seq<char>>, num_attachments: i32) -> Seq<char> {
    if words_of(text).len() == 0 {
        placeholder(num_attachments)
    } else {
        shortened(spaced(words_of(text)))
    }
}

/// Preview a message on one line. The preview is plain text: the caller escapes
/// it.
pub fn build_reply_snippet(parent: &Message) -> (preview: String)
    ensures
        preview@ == snippet(optional_text(parent.text), parent.num_attachments),
{
    let line = match &parent.text {
        Some(text) => collapse_whitespace(text.as_str()),
        None => String::new(),
    };
    let len: usize = line.as_str().unicode_len();
    if len == 0 {
        return non_text_placeholder(parent).to_string();
    }
    if len <= REPLY_SNIPPET_MAX_CHARS {
        return line;
    }
    let mut preview = line.as_str().substring_char(0, REPLY_SNIPPET_MAX_CHARS).to_string();
    preview.push('…');
    preview
}

/// What stands for a message without text.
pub fn non_text_placeholder(parent: &Message) -> (text: &'static str)
    ensures
        text@ == placeholder(parent.num_attachments),
{
    if parent.num_attachments > 0 {
        "[attachment]"
    } else {
        "[no preview]"
    }
}

/// A preview is never longer than the longest preview and its ellipsis. Where
/// the message has words, the preview is a single line; else it is one of two
/// placeholders.
pub proof fn law_snippet_is_short_line(text: Option<Seq<char>>, num_attachments: i32)
    ensures
        snippet(text, num_attachments).len() <= REPLY_SNIPPET_MAX_CHARS + 1,
        words_of(text).len() > 0 ==> forall|i: int|
            0 <= i < snippet(text, num_attachments).len() ==> {
                let c = #[trigger] snippet(text, num_attachments)[i];
                c == ' ' || c == '…' || !is_white_space(c)
            },
        words_of(text).len() == 0 ==> snippet(text, num_attachments) == "[attachment]"@ || snippet(
            text,
            num_attachments,
        ) == "[no preview]"@,
{
    reveal_strlit("[attachment]");
    reveal_strlit("[no preview]");
    if words_of(text).len() > 0 {
        law_words_on_one_line(text->0);
        let line = spaced(words_of(text));
        assert forall|i: int| 0 <= i < snippet(text, num_attachments).len() implies {
            let c = #[trigger] snippet(text, num_attachments)[i];
            c == ' ' || c == '…' || !is_white_space(c)
        } by {
            if i < REPLY_SNIPPET_MAX_CHARS {
                assert(snippet(text, num_attachments)[i] == line[i]);
            }
        }
    }
}

/// A message that fits on a short line is shown whole.
pub proof fn law_short_text_is_whole(text: Seq<char>, num_attachments: i32)
    requires
        words(text).len() > 0,
        spaced(words(text)).len() <= REPLY_SNIPPET_MAX_CHARS,
    ensures
        snippet(Some(text), num_attachments) == spaced(words(text)),
{
}

/// Where a message is rendered.
#[derive(Debug, Clone, Copy, PartialEq, Eq, Structural)]
pub enum RenderContext {
    /// At its own place in time.
    TopLevel,
    /// Below the message that it replies to.
    Reply,
}

/// One part of a message, with the replies to it.
pub struct MessagePart {
    pub body: PartBody,
    /// The replies, in order. Reactions may be among them.
    pub replies: Option<Vec<ThreadedMessage>>,
}

/// A message with its parts, or why they could not be read.
pub struct ThreadedMessage {
    pub message: Message,
    pub parts: Result<Vec<MessagePart>, String>,
}

/// One reply, rendered. Each format picks its own type for what it renders to.
pub struct ReplyEntry<S> {
    pub guid: String,
    pub body: S,
}

/// The first `count` replies, each by its identifier, or why they could not be
/// rendered. Reactions among them are left out: they stand with the message
/// that they were made to.
pub open spec fn rendered_replies(
    config: Config,
    replies: Seq<ThreadedMessage>,
    count: nat,
) -> Result<Seq<(Seq<char>, Seq<char>)>, RuntimeErrorView>
    decreases replies, count,
{
    if count == 0 || count > replies.len() {
        Ok(Seq::empty())
    } else {
        match rendered_replies(config, replies, (count - 1) as nat) {
            Err(why) => Err(why),
            Ok(before) => {
                let reply = replies[count - 1];
                if reply.message.reaction() is Some {
                    Ok(before)
                } else {
                    match message_markup(config, reply, RenderContext::Reply) {
                        Err(why) => Err(why),
                        Ok(body) => Ok(before.push((reply.message.guid@, body))),
                    }
                }
            },
        }
    }
}

/// The replies to a part of a message, if there are any to show.
pub open spec fn part_replies(config: Config, replies: Option<Vec<ThreadedMessage>>) -> Result<
    Option<Seq<(Seq<char>, Seq<char>)>>,
    RuntimeErrorView,
>
    decreases replies, 0nat,
{
    match replies {
        None => Ok(None),
        Some(replies) => match rendered_replies(config, replies@, replies@.len()) {
            Err(why) => Err(why),
            Ok(rendered) => Ok(
                if rendered.len() == 0 {
                    None
                } else {
                    Some(rendered)
                },
            ),
        },
    }
}

/// The first `count` reactions of a list, rendered, without those that render
/// as nothing.
pub open spec fn rendered_tapbacks(
    config: Config,
    tapbacks: Seq<TapbackMessage>,
    count: nat,
) -> Result<Seq<Seq<char>>, RuntimeErrorView>
    decreases count,
{
    if count == 0 || count > tapbacks.len() {
        Ok(Seq::empty())
    } else {
        match rendered_tapbacks(config, tapbacks, (count - 1) as nat) {
            Err(why) => Err(why),
            Ok(before) => match tapback_markup(config, tapbacks[count - 1]) {
                Err(why) => Err(why),
                Ok(markup) => Ok(
                    if markup.len() == 0 {
                        before
                    } else {
                        before.push(markup)
                    },
                ),
            },
        }
    }
}

/// The reactions to a part of a message, if there are any to show.
pub open spec fn part_tapbacks(config: Config, guid: Seq<char>, part: usize) -> Result<
    Option<Seq<Seq<char>>>,
    RuntimeErrorView,
> {
    match config.tapbacks_of(guid, part) {
        None => Ok(None),
        Some(tapbacks) => match rendered_tapbacks(config, tapbacks, tapbacks.len()) {
            Err(why) => Err(why),
            Ok(rendered) => Ok(
                if rendered.len() == 0 {
                    None
                } else {
                    Some(rendered)
                },
            ),
        },
    }
}

/// Whether a text is what one of the reactions to a part of a message renders
/// as, and is not empty.
pub open spec fn is_shown_tapback(
    config: Config,
    guid: Seq<char>,
    part: usize,
    markup: Seq<char>,
) -> bool {
    markup.len() > 0 && match config.tapbacks_of(guid, part) {
        Some(tapbacks) => exists|i: int|
            0 <= i < tapbacks.len() && #[trigger] tapback_markup(config, tapbacks[i]) == Ok::<
                Seq<char>,
                RuntimeErrorView,
            >(markup),
        None => false,
    }
}

/// Render the reactions to a part of a message. There are none to show where
/// none are recorded, and where all render as nothing. `wrap` lifts each that
/// does not into the type that the format picks; it is called for nothing else.
pub fn build_tapbacks<T>(
    formatter: &HTML,
    message: &Message,
    idx: usize,
    wrap: impl Fn(String) -> T,
) -> (rendered: Result<Option<Vec<T>>, RuntimeError>)
    requires
        formatter.config.well_formed(),
        forall|markup: String|
            is_shown_tapback(*formatter.config, message.guid@, idx, markup@)
                ==> #[trigger] wrap.requires((markup,)),
    ensures
        match part_tapbacks(*formatter.config, message.guid@, idx) {
            Ok(Some(expected)) => rendered matches Ok(Some(found)) && lifts(
                |markup: String, lifted: T| wrap.ensures((markup,), lifted),
                expected,
                found@,
            ),
            Ok(None) => rendered matches Ok(None),
            Err(why) => rendered matches Err(found) && found@ == why,
        },
{
    let tapbacks = match formatter.config.part_tapbacks(message, idx) {
        Some(tapbacks) => tapbacks,
        None => return Ok(None),
    };
    proof {
        lemma_tapbacks_of_are_reactions(*formatter.config, message.guid@, idx);
    }
    let ghost lifting = |markup: String, lifted: T| wrap.ensures((markup,), lifted);
    let mut rendered: Vec<T> = Vec::new();
    for i in 0..tapbacks.len()
        invariant
            formatter.config.tapbacks_of(message.guid@, idx) == Some(tapbacks@),
            forall|j: int| 0 <= j < tapbacks@.len() ==> (#[trigger] tapbacks@[j]).is_reaction(),
            forall|markup: String|
                is_shown_tapback(*formatter.config, message.guid@, idx, markup@)
                    ==> #[trigger] wrap.requires((markup,)),
            lifting == (|markup: String, lifted: T| wrap.ensures((markup,), lifted)),
            rendered_tapbacks(*formatter.config, tapbacks@, i as nat) matches Ok(expected)
                && lifts(lifting, expected, rendered@),
    {
        let ghost before = rendered_tapbacks(*formatter.config, tapbacks@, i as nat)->Ok_0;
        match formatter.format_tapback(&tapbacks[i]) {
            Ok(markup) => if markup.as_str().unicode_len() > 0 {
                let ghost text = markup;
                assert(tapback_markup(*formatter.config, tapbacks@[i as int]) == Ok::<
                    Seq<char>,
                    RuntimeErrorView,
                >(markup@));
                let lifted = wrap(markup);
                assert(lifting(text, lifted));
                proof {
                    lemma_lifts_push(lifting, before, rendered@, text, lifted);
                }
                rendered.push(lifted);
            },
            Err(why) => {
                proof {
                    lemma_tapbacks_fail(*formatter.config, tapbacks@, (i + 1) as nat, tapbacks@.len());
                }
                return Err(why);
            },
        }
    }
    if rendered.len() == 0 {
        Ok(None)
    } else {
        Ok(Some(rendered))
    }
}

/// Whether `lifting` makes `found` of a text.
pub open spec fn is_lifted<T>(
    lifting: spec_fn(String, T) -> bool,
    text: Seq<char>,
    found: T,
) -> bool {
    exists|markup: String| markup@ == text && #[trigger] lifting(markup, found)
}

/// Whether each of `found` is what `lifting` makes of the text at its place.
pub open spec fn lifts<T>(
    lifting: spec_fn(String, T) -> bool,
    texts: Seq<Seq<char>>,
    found: Seq<T>,
) -> bool {
    &&& texts.len() == found.len()
    &&& forall|i: int|
        0 <= i < found.len() ==> is_lifted(lifting, texts[i], #[trigger] found[i])
}

proof fn lemma_lifts_push<T>(
    lifting: spec_fn(String, T) -> bool,
    texts: Seq<Seq<char>>,
    found: Seq<T>,
    text: String,
    lifted: T,
)
    requires
        lifts(lifting, texts, found),
        lifting(text, lifted),
    ensures
        lifts(lifting, texts.push(text@), found.push(lifted)),
{
    let more = found.push(lifted);
    assert forall|i: int| 0 <= i < more.len() implies is_lifted(
        lifting,
        texts.push(text@)[i],
        #[trigger] more[i],
    ) by {
        if i < found.len() {
            assert(is_lifted(lifting, texts[i], found[i]));
        } else {
            assert(lifting(text, more[i]));
        }
    }
}

proof fn lemma_tapbacks_of_are_reactions(config: Config, guid: Seq<char>, part: usize)
    requires
        config.well_formed(),
    ensures
        match config.tapbacks_of(guid, part) {
            Some(tapbacks) => forall|j: int|
                0 <= j < tapbacks.len() ==> (#[trigger] tapbacks[j]).is_reaction(),
            None => true,
        },
{
    lemma_found(config.tapbacks@, guid, part, 0);
    if config.tapbacks_of(guid, part) is Some {
        let at = tapbacks_at(config.tapbacks@, guid, part, 0)->0;
        let tapbacks = config.tapbacks_of(guid, part)->0;
        assert forall|j: int| 0 <= j < tapbacks.len() implies (
        #[trigger] tapbacks[j]).is_reaction() by {
            assert(config.tapbacks@[at].tapbacks@[j].is_reaction());
        }
    }
}

/// What fails on a part of the list fails on all of it, in the same way.
proof fn lemma_tapbacks_fail(
    config: Config,
    tapbacks: Seq<TapbackMessage>,
    count: nat,
    more: nat,
)
    requires
        count <= more <= tapbacks.len(),
        rendered_tapbacks(config, tapbacks, count) is Err,
    ensures
        rendered_tapbacks(config, tapbacks, more) == rendered_tapbacks(config, tapbacks, count),
    decreases more,
{
    if count < more {
        lemma_tapbacks_fail(config, tapbacks, count, (more - 1) as nat);
    }
}

/// What fails on a part of the list fails on all of it, in the same way.
proof fn lemma_replies_fail(config: Config, replies: Seq<ThreadedMessage>, count: nat, more: nat)
    requires
        count <= more <= replies.len(),
        rendered_replies(config, replies, count) is Err,
    ensures
        rendered_replies(config, replies, more) == rendered_replies(config, replies, count),
    decreases more,
{
    if count < more {
        lemma_replies_fail(config, replies, count, (more - 1) as nat);
    }
}

/// Whether each of `found` has the identifier at its place, and is what
/// `lifting` makes of the text there.
pub open spec fn lifts_replies<S>(
    lifting: spec_fn(String, S) -> bool,
    replies: Seq<(Seq<char>, Seq<char>)>,
    found: Seq<ReplyEntry<S>>,
) -> bool {
    &&& replies.len() == found.len()
    &&& forall|i: int|
        0 <= i < found.len() ==> {
            let (guid, body) = replies[i];
            (#[trigger] found[i]).guid@ == guid && is_lifted(lifting, body, found[i].body)
        }
}

/// Whether a text is what one of the replies to a part of a message, and no
/// reaction, renders as.
pub open spec fn is_reply_body(
    config: Config,
    replies: Option<Vec<ThreadedMessage>>,
    markup: Seq<char>,
) -> bool {
    match replies {
        Some(replies) => exists|i: int|
            0 <= i < replies@.len() && replies@[i].message.reaction() is None
                && #[trigger] message_markup(config, replies@[i], RenderContext::Reply) == Ok::<
                Seq<char>,
                RuntimeErrorView,
            >(markup),
        None => false,
    }
}

/// Render the replies to a part of a message. Reactions among them are left
/// out: they stand with the message that they were made to. `wrap_body` lifts
/// each reply into the type that the format picks; it is called for nothing
/// else.
pub fn build_replies<S>(
    formatter: &HTML,
    replies: &Option<Vec<ThreadedMessage>>,
    wrap_body: impl Fn(String) -> S,
) -> (rendered: Result<Option<Vec<ReplyEntry<S>>>, RuntimeError>)
    requires
        formatter.config.well_formed(),
        forall|markup: String|
            is_reply_body(*formatter.config, *replies, markup@) ==> #[trigger] wrap_body.requires(
                (markup,),
            ),
    ensures
        match part_replies(*formatter.config, *replies) {
            Ok(Some(expected)) => rendered matches Ok(Some(found)) && lifts_replies(
                |markup: String, lifted: S| wrap_body.ensures((markup,), lifted),
                expected,
                found@,
            ),
            Ok(None) => rendered matches Ok(None),
            Err(why) => rendered matches Err(found) && found@ == why,
        },
    decreases *replies, 0nat,
{
    let list = match replies {
        Some(list) => list,
        None => return Ok(None),
    };
    let ghost lifting = |markup: String, lifted: S| wrap_body.ensures((markup,), lifted);
    let mut rendered: Vec<ReplyEntry<S>> = Vec::new();
    for i in 0..list.len()
        invariant
            *replies == Some(*list),
            formatter.config.well_formed(),
            forall|markup: String|
                is_reply_body(*formatter.config, *replies, markup@)
                    ==> #[trigger] wrap_body.requires((markup,)),
            lifting == (|markup: String, lifted: S| wrap_body.ensures((markup,), lifted)),
            rendered_replies(*formatter.config, list@, i as nat) matches Ok(expected)
                && lifts_replies(lifting, expected, rendered@),
    {
        let reply = &list[i];
        let ghost before = rendered_replies(*formatter.config, list@, i as nat)->Ok_0;
        if !reply.message.is_tapback() {
            let mut buf = String::new();
            match formatter.format_message_into(reply, RenderContext::Reply, &mut buf) {
                Ok(()) => {
                    let ghost text = buf;
                    let ghost previous = rendered@;
                    proof {
                        assert(Seq::<char>::empty() + text@ =~= text@);
                        assert(message_markup(
                            *formatter.config,
                            list@[i as int],
                            RenderContext::Reply,
                        ) == Ok::<Seq<char>, RuntimeErrorView>(text@));
                    }
                    let body = wrap_body(buf);
                    let entry = ReplyEntry { guid: reply.message.guid.clone(), body };
                    rendered.push(entry);
                    proof {
                        assert(lifting(text, entry.body));
                        let expected = before.push((reply.message.guid@, text@));
                        assert forall|k: int| 0 <= k < rendered@.len() implies {
                            let (guid, body) = expected[k];
                            (#[trigger] rendered@[k]).guid@ == guid && is_lifted(
                                lifting,
                                body,
                                rendered@[k].body,
                            )
                        } by {
                            if k < previous.len() {
                                assert(rendered@[k] == previous[k]);
                                assert(expected[k] == before[k]);
                            } else {
                                assert(lifting(text, rendered@[k].body));
                            }
                        }
                    }
                },
                Err(why) => {
                    proof {
                        lemma_replies_fail(
                            *formatter.config,
                            list@,
                            (i + 1) as nat,
                            list@.len(),
                        );
                    }
                    return Err(why);
                },
            }
        }
    }
    if rendered.len() == 0 {
        Ok(None)
    } else {
        Ok(Some(rendered))
    }
}

// What holds of every list of replies and reactions.

proof fn lemma_removed_tapbacks(config: Config, tapbacks: Seq<TapbackMessage>, count: nat)
    requires
        !config.options.forensic,
        forall|i: int|
            0 <= i < tapbacks.len() ==> (#[trigger] tapbacks[i]).is_reaction()
                && tapbacks[i].action() is Removed,
    ensures
        rendered_tapbacks(config, tapbacks, count) == Ok::<Seq<Seq<char>>, RuntimeErrorView>(
            Seq::empty(),
        ),
    decreases count,
{
    if 0 < count <= tapbacks.len() {
        assert(tapbacks[count - 1].action() is Removed);
        lemma_removed_tapbacks(config, tapbacks, (count - 1) as nat);
    }
}

/// Where all reactions to a part were taken off again, there are none to show,
/// unless forensic mode is on.
pub proof fn law_removed_tapbacks_are_not_shown(config: Config, guid: Seq<char>, part: usize)
    requires
        !config.options.forensic,
        match config.tapbacks_of(guid, part) {
            Some(tapbacks) => forall|i: int|
                0 <= i < tapbacks.len() ==> (#[trigger] tapbacks[i]).is_reaction()
                    && tapbacks[i].action() is Removed,
            None => true,
        },
    ensures
        part_tapbacks(config, guid, part) == Ok::<Option<Seq<Seq<char>>>, RuntimeErrorView>(None),
{
    if let Some(tapbacks) = config.tapbacks_of(guid, part) {
        lemma_removed_tapbacks(config, tapbacks, tapbacks.len());
    }
}

/// What is shown of the reactions to a part is never an empty list, and no
/// reaction in it is empty.
pub proof fn law_shown_tapbacks_are_not_empty(config: Config, guid: Seq<char>, part: usize)
    ensures
        part_tapbacks(config, guid, part) matches Ok(Some(shown)) ==> shown.len() > 0 && forall|
            i: int,
        |
            0 <= i < shown.len() ==> (#[trigger] shown[i]).len() > 0,
{
    if let Some(tapbacks) = config.tapbacks_of(guid, part) {
        lemma_rendered_tapbacks_not_empty(config, tapbacks, tapbacks.len());
    }
}

proof fn lemma_rendered_tapbacks_not_empty(
    config: Config,
    tapbacks: Seq<TapbackMessage>,
    count: nat,
)
    ensures
        rendered_tapbacks(config, tapbacks, count) matches Ok(shown) ==> forall|i: int|
            0 <= i < shown.len() ==> (#[trigger] shown[i]).len() > 0,
    decreases count,
{
    if 0 < count <= tapbacks.len() {
        lemma_rendered_tapbacks_not_empty(config, tapbacks, (count - 1) as nat);
    }
}

proof fn lemma_reactions_among_replies(
    config: Config,
    replies: Seq<ThreadedMessage>,
    count: nat,
)
    requires
        forall|i: int|
            0 <= i < replies.len() ==> (#[trigger] replies[i]).message.reaction() is Some,
    ensures
        rendered_replies(config, replies, count) == Ok::<
            Seq<(Seq<char>, Seq<char>)>,
            RuntimeErrorView,
        >(Seq::empty()),
    decreases count,
{
    if 0 < count <= replies.len() {
        assert(replies[count - 1].message.reaction() is Some);
        lemma_reactions_among_replies(config, replies, (count - 1) as nat);
    }
}

/// Where all that replies to a part are reactions, there are no replies to
/// show.
pub proof fn law_reactions_are_no_replies(config: Config, replies: Vec<ThreadedMessage>)
    requires
        forall|i: int|
            0 <= i < replies@.len() ==> (#[trigger] replies@[i]).message.reaction() is Some,
    ensures
        part_replies(config, Some(replies)) == Ok::<
            Option<Seq<(Seq<char>, Seq<char>)>>,
            RuntimeErrorView,
        >(None),
{
    lemma_reactions_among_replies(config, replies@, replies@.len());
}

} // verus!
