//! Reactions to messages, whatever format they are exported to.
use vstd::prelude::*;

use crate::attachments::Attachment;
use crate::config::Config;
use crate::messages::{Message, Tapback, TapbackAction};

verus! {

/// A message that may be a reaction to another, with its attachments.
pub struct TapbackMessage {
    pub message: Message,
    /// The message's attachments, or why they could not be read.
    pub attachments: Result<Vec<Attachment>, String>,
}

impl TapbackMessage {
    /// Whether the message is a reaction.
    pub open spec fn is_reaction(self) -> bool {
        self.message.reaction() is Some
    }

    /// Whether a reaction was put on or taken off.
    pub open spec fn action(self) -> TapbackAction
        recommends
            self.is_reaction(),
    {
        let (action, _, _) = self.message.reaction()->0;
        action
    }

    /// Whether a reaction is a sticker.
    pub open spec fn is_sticker(self) -> bool
        recommends
            self.is_reaction(),
    {
        let (_, sticker, _) = self.message.reaction()->0;
        sticker
    }

    /// A reaction in words.
    pub open spec fn label(self) -> Seq<char>
        recommends
            self.is_reaction(),
    {
        let (_, _, label) = self.message.reaction()->0;
        label
    }
}

/// What a reaction comes down to. Each format picks its own type for a rendered
/// sticker.
pub enum TapbackKind<'a, S> {
    /// A reaction in words.
    Reaction { tapback: Tapback, who: &'a str },
    /// A sticker whose file was found and rendered.
    Sticker { payload: S, who: &'a str },
    /// A sticker whose file is missing.
    StickerMissing { who: &'a str },
}

/// What forensic mode adds to a reaction.
pub struct TapbackForensic {
    pub action: TapbackAction,
    /// When the reaction was made, in words.
    pub timestamp: String,
}

/// A reaction, with what forensic mode adds to it.
pub struct ResolvedTapback<'a, S> {
    pub kind: TapbackKind<'a, S>,
    pub forensic: Option<TapbackForensic>,
}

/// Whether `kind` is what the reaction `msg` comes down to, where `renders`
/// says which payload a sticker may be rendered as.
pub open spec fn is_kind_of<S>(
    kind: TapbackKind<'_, S>,
    msg: TapbackMessage,
    renders: spec_fn(Attachment, S) -> bool,
) -> bool {
    if needs_attachments(msg.message) {
        if msg.attachments->Ok_0@.len() > 0 {
            kind matches TapbackKind::Sticker { payload, who } && renders(
                msg.attachments->Ok_0@[0],
                payload,
            ) && who@ == msg.message.sender@
        } else {
            kind matches TapbackKind::StickerMissing { who } && who@ == msg.message.sender@
        }
    } else {
        kind matches TapbackKind::Reaction { tapback, who } && tapback.label() == msg.label()
            && (tapback is Sticker <==> msg.is_sticker()) && who@ == msg.message.sender@
    }
}

/// Whether a message is a sticker put on another, which is shown by its first
/// attachment. No other reaction reads its attachments.
pub open spec fn needs_attachments(message: Message) -> bool {
    match message.reaction() {
        Some((action, sticker, _)) => action is Added && sticker,
        None => false,
    }
}

/// Whether a message is a sticker put on another, so that its attachments are
/// to be read.
pub fn reads_attachments(message: &Message) -> (yes: bool)
    ensures
        yes == needs_attachments(*message),
{
    match message.tapback() {
        Some((TapbackAction::Added, Tapback::Sticker)) => true,
        _ => false,
    }
}

/// Whether rendering the reaction needs its attachments, and they could not be
/// read.
pub open spec fn lacks_attachments(msg: TapbackMessage) -> bool {
    needs_attachments(msg.message) && msg.attachments is Err
}

/// Work out what a reaction comes down to.
///
/// A reaction that was taken off again comes down to nothing, unless forensic
/// mode is on: then it is shown in words, a sticker too, with its action and
/// time. `sticker_renderer` renders the first attachment of a sticker that was
/// put on and whose attachments could be read; it is called for nothing else.
pub fn resolve_tapback<'a, S>(
    msg: &'a TapbackMessage,
    config: &Config,
    sticker_renderer: impl FnOnce(&Attachment) -> S,
) -> (resolved: Result<Option<ResolvedTapback<'a, S>>, String>)
    requires
        msg.is_reaction(),
        needs_attachments(msg.message) && msg.attachments is Ok && msg.attachments->Ok_0@.len() > 0
            ==> sticker_renderer.requires((&msg.attachments->Ok_0@[0],)),
    ensures
        match resolved {
            Ok(None) => msg.action() is Removed && !config.options.forensic,
            Ok(Some(found)) => {
                &&& config.options.forensic || msg.action() is Added
                &&& !lacks_attachments(*msg)
                &&& is_kind_of(
                    found.kind,
                    *msg,
                    |sticker: Attachment, payload: S|
                        sticker_renderer.ensures((&sticker,), payload),
                )
                &&& match found.forensic {
                    Some(added) => config.options.forensic && added.action == msg.action()
                        && added.timestamp@ == msg.message.sent_at@,
                    None => !config.options.forensic,
                }
            },
            Err(why) => lacks_attachments(*msg) && why@ == msg.attachments->Err_0@,
        },
{
    let (action, tapback) = msg.message.tapback().unwrap();
    let is_removed = matches!(action, TapbackAction::Removed);
    let forensic_enabled = config.options.forensic;
    if is_removed && !forensic_enabled {
        return Ok(None);
    }
    let who = msg.message.sender.as_str();
    let kind = if is_removed {
        TapbackKind::Reaction { tapback, who }
    } else {
        match tapback {
            Tapback::Sticker => match &msg.attachments {
                Ok(paths) => if paths.len() > 0 {
                    TapbackKind::Sticker { payload: sticker_renderer(&paths[0]), who }
                } else {
                    TapbackKind::StickerMissing { who }
                },
                Err(why) => return Err(why.clone()),
            },
            other => TapbackKind::Reaction { tapback: other, who },
        }
    };
    let forensic = if forensic_enabled {
        Some(TapbackForensic { action, timestamp: msg.message.sent_at.clone() })
    } else {
        None
    };
    Ok(Some(ResolvedTapback { kind, forensic }))
}

} // verus!
