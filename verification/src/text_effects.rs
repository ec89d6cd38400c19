//! Effects that alter the appearance of a range of message text.
use imessage_database::message_types::text_effects::Animation as RowAnimation;
use vstd::prelude::*;

use crate::text::decimal::decimal;

verus! {

/// A traditional text style.
#[derive(Debug, Clone, Copy, PartialEq, Eq, Structural)]
pub enum Style {
    Bold,
    Italic,
    Strikethrough,
    Underline,
}

/// An animation of the text.
#[derive(Debug, Clone, Copy, PartialEq, Eq, Structural)]
pub enum Animation {
    Big,
    Small,
    Shake,
    Nod,
    Explode,
    Ripple,
    Bloom,
    Jitter,
    /// An animation without a name, by its identifier.
    Unknown(i64),
}

/// What kind of quantity a convertible range of text holds.
#[derive(Debug, Clone, Copy, PartialEq, Eq, Structural)]
pub enum Unit {
    Currency,
    Distance,
    Temperature,
    Timezone,
    Volume,
    Weight,
}

/// One effect on a range of text.
#[derive(Debug, Clone)]
pub enum TextEffect {
    /// Plain text.
    Default,
    /// A mentioned contact, with the contact's identifier.
    Mention(String),
    /// A link, with its address.
    Link(String),
    /// A one-time code.
    OTP,
    /// Styles, innermost first.
    Styles(Vec<Style>),
    /// An animation.
    Animated(Animation),
    /// A quantity that can be converted.
    Conversion(Unit),
}

/// The effects on the bytes `start..end` of a message's text.
#[derive(Debug, Clone)]
pub struct TextAttributes {
    pub start: usize,
    pub end: usize,
    pub effects: Vec<TextEffect>,
}

impl TextAttributes {
    pub fn new(start: usize, end: usize, effects: Vec<TextEffect>) -> (attributes: TextAttributes)
        ensures
            attributes.start == start,
            attributes.end == end,
            attributes.effects == effects,
    {
        TextAttributes { start, end, effects }
    }
}

impl Animation {
    /// The name under which an animation is known to the style sheet.
    pub open spec fn label(self) -> Seq<char> {
        match self {
            Animation::Big => "Big"@,
            Animation::Small => "Small"@,
            Animation::Shake => "Shake"@,
            Animation::Nod => "Nod"@,
            Animation::Explode => "Explode"@,
            Animation::Ripple => "Ripple"@,
            Animation::Bloom => "Bloom"@,
            Animation::Jitter => "Jitter"@,
            Animation::Unknown(id) => "Unknown("@ + decimal(id as int) + ")"@,
        }
    }

    /// The name under which an animation is known to the style sheet.
    pub fn label_text(&self) -> (label: String)
        ensures
            label@ == self.label(),
    {
        animation_name(*self)
    }
}

/// The derived `Debug` of `imessage_database`'s `Animation`: the name of the
/// variant, with the number of an unknown animation in brackets.
#[verifier::external_body]
fn animation_name(animation: Animation) -> (name: String)
    ensures
        name@ == animation.label(),
{
    format!("{:?}", match animation {
        Animation::Big => RowAnimation::Big,
        Animation::Small => RowAnimation::Small,
        Animation::Shake => RowAnimation::Shake,
        Animation::Nod => RowAnimation::Nod,
        Animation::Explode => RowAnimation::Explode,
        Animation::Ripple => RowAnimation::Ripple,
        Animation::Bloom => RowAnimation::Bloom,
        Animation::Jitter => RowAnimation::Jitter,
        Animation::Unknown(id) => RowAnimation::Unknown(id),
    })
}

} // verus!
