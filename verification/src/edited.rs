//! Messages that were edited or unsent, part by part.
use vstd::prelude::*;

use crate::attachments::AttachmentMeta;
use crate::text_effects::TextAttributes;

verus! {

/// One part of a message's body.
#[derive(Debug, Clone)]
pub enum BubbleComponent {
    /// Text, with effects on ranges of it.
    Text(Vec<TextAttributes>),
    /// An attachment.
    Attachment(AttachmentMeta),
    /// What an app made.
    App,
    /// A part that was taken back.
    Retracted,
}

/// How long after the version before it a version was made.
#[derive(Debug, Clone)]
pub enum EditDiff {
    /// There is no version before it.
    First,
    /// One of the two times is not known.
    Failed,
    /// The time between the two, in words.
    Computed(String),
}

/// One version of an edited part.
#[derive(Debug, Clone)]
pub struct EditEvent {
    pub text: String,
    /// The parts of the version's body.
    pub components: Vec<BubbleComponent>,
    pub diff_since_previous: EditDiff,
    /// Whether this is the version that stands.
    pub is_last: bool,
}

/// What became of one part of a message.
#[derive(Debug, Clone)]
pub enum EditedPart {
    /// The part was edited. These are its versions, in order.
    Edited(Vec<EditEvent>),
    /// The part was taken back, by whom, and how long after it was sent, in
    /// words.
    Unsent { who: String, diff: Option<String> },
}

} // verus!
