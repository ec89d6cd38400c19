//! Attachments of messages, as far as the exporters read them.
use imessage_database::message_types::sticker::StickerEffect as RowEffect;
use imessage_database::tables::attachment::Attachment as Row;
use imessage_database::tables::attachment::MediaType as RowMediaType;
use vstd::prelude::*;

use crate::text::{before_slash, optional_text};

verus! {

/// What sort of file an attachment is, with the part of its media type behind
/// the slash.
#[derive(Debug, Clone)]
pub enum MediaType {
    Image(String),
    Video(String),
    Audio(String),
    Text(String),
    Application(String),
    /// Any other sort of file, with the whole media type.
    Other(String),
    /// No media type is recorded.
    Unknown,
}

/// What sort of file an attachment is.
pub ghost enum MediaTypeView {
    Image(Seq<char>),
    Video(Seq<char>),
    Audio(Seq<char>),
    Text(Seq<char>),
    Application(Seq<char>),
    Other(Seq<char>),
    Unknown,
}

impl View for MediaType {
    type V = MediaTypeView;

    open spec fn view(&self) -> MediaTypeView {
        match self {
            MediaType::Image(subtype) => MediaTypeView::Image(subtype@),
            MediaType::Video(subtype) => MediaTypeView::Video(subtype@),
            MediaType::Audio(subtype) => MediaTypeView::Audio(subtype@),
            MediaType::Text(subtype) => MediaTypeView::Text(subtype@),
            MediaType::Application(subtype) => MediaTypeView::Application(subtype@),
            MediaType::Other(whole) => MediaTypeView::Other(whole@),
            MediaType::Unknown => MediaTypeView::Unknown,
        }
    }
}

/// The sort of file that a media type `category/subtype` stands for, or, where
/// none is recorded, the type identifier of audio messages.
pub open spec fn media_type_of(mime_type: Option<Seq<char>>, uti: Option<Seq<char>>) -> MediaTypeView {
    match mime_type {
        Some(whole) => {
            let category = before_slash(whole);
            if category.len() == whole.len() {
                MediaTypeView::Other(whole)
            } else {
                let subtype = before_slash(whole.skip(category.len() as int + 1));
                if category == "image"@ {
                    MediaTypeView::Image(subtype)
                } else if category == "video"@ {
                    MediaTypeView::Video(subtype)
                } else if category == "audio"@ {
                    MediaTypeView::Audio(subtype)
                } else if category == "text"@ {
                    MediaTypeView::Text(subtype)
                } else if category == "application"@ {
                    MediaTypeView::Application(subtype)
                } else {
                    MediaTypeView::Other(whole)
                }
            }
        },
        None => if uti == Some("com.apple.coreaudio-format"@) {
            MediaTypeView::Audio("x-caf; codecs=opus"@)
        } else {
            MediaTypeView::Unknown
        },
    }
}

/// `imessage_database`'s `Attachment::mime_type`: the category before the first
/// slash of the media type decides, and the subtype is what stands between it
/// and the next slash. The other columns, which have no part in that, are left
/// empty.
#[verifier::external_body]
fn row_media_type(mime_type: Option<String>, uti: Option<String>) -> (media_type: MediaType)
    ensures
        media_type@ == media_type_of(optional_text(mime_type), optional_text(uti)),
{
    let row = Row { rowid: 0, filename: None, uti, mime_type, transfer_name: None, total_bytes: 0, is_sticker: false, hide_attachment: 0, emoji_description: None, copied_path: None };
    match row.mime_type() {
        RowMediaType::Image(subtype) => MediaType::Image(subtype.to_string()),
        RowMediaType::Video(subtype) => MediaType::Video(subtype.to_string()),
        RowMediaType::Audio(subtype) => MediaType::Audio(subtype.to_string()),
        RowMediaType::Text(subtype) => MediaType::Text(subtype.to_string()),
        RowMediaType::Application(subtype) => MediaType::Application(subtype.to_string()),
        RowMediaType::Other(whole) => MediaType::Other(whole.to_string()),
        RowMediaType::Unknown => MediaType::Unknown,
    }
}

/// A file size in words: what `imessage_database`'s `Attachment::file_size`
/// gives for a number of bytes.
pub uninterp spec fn file_size_of(total_bytes: i64) -> Seq<char>;

/// `imessage_database`'s `Attachment::file_size`, which writes the number of
/// transferred bytes in the unit that suits it, with two decimals, and depends
/// on that number alone. The digits, which come from floating-point division,
/// are left unsaid.
#[verifier::external_body]
fn row_file_size(total_bytes: i64) -> (size: String)
    ensures
        size@ == file_size_of(total_bytes),
{
    Row { rowid: 0, filename: None, uti: None, mime_type: None, transfer_name: None, total_bytes, is_sticker: false, hide_attachment: 0, emoji_description: None, copied_path: None }.file_size()
}

/// How a sticker was altered when it was made.
#[derive(Debug, Clone)]
pub enum StickerEffect {
    Normal,
    Outline,
    Comic,
    Puffy,
    Shiny,
    /// An effect without a name of its own, as it is recorded.
    Other(String),
}

/// What is known of where a sticker comes from.
#[derive(Debug, Clone)]
pub enum StickerDecoration {
    /// The prompt that a sticker was generated from.
    GenmojiPrompt(String),
    /// A likeness of the sender.
    Memoji,
    /// A sticker cut from a picture, with its effect.
    Effect(StickerEffect),
    /// The name of the app that the sticker comes from.
    AppName(String),
}

impl StickerEffect {
    /// The effect in words.
    pub open spec fn label(self) -> Seq<char> {
        match self {
            StickerEffect::Normal => "Normal"@,
            StickerEffect::Outline => "Outline"@,
            StickerEffect::Comic => "Comic"@,
            StickerEffect::Puffy => "Puffy"@,
            StickerEffect::Shiny => "Shiny"@,
            StickerEffect::Other(name) => name@,
        }
    }

    /// The effect in words.
    pub fn label_text(&self) -> (label: String)
        ensures
            label@ == self.label(),
    {
        effect_name(self)
    }
}

/// The `Display` of `imessage_database`'s `StickerEffect`: the effect's name, or
/// for any other effect what is recorded of it.
#[verifier::external_body]
fn effect_name(effect: &StickerEffect) -> (name: String)
    ensures
        name@ == effect.label(),
{
    match effect {
        StickerEffect::Normal => RowEffect::Normal,
        StickerEffect::Outline => RowEffect::Outline,
        StickerEffect::Comic => RowEffect::Comic,
        StickerEffect::Puffy => RowEffect::Puffy,
        StickerEffect::Shiny => RowEffect::Shiny,
        StickerEffect::Other(name) => RowEffect::Other(name.clone()),
    }.to_string()
}

/// What an exporter makes of an attachment.
#[derive(Debug, Clone, PartialEq, Eq)]
pub enum AttachmentRender {
    /// The attachment is part of the export, as this text.
    Embedded(String),
    /// No file name is recorded.
    MissingFilename,
    /// The file itself could not be had; only its name is known.
    NamedFile(String),
}

/// What an exporter makes of an attachment.
pub ghost enum AttachmentRenderView {
    Embedded(Seq<char>),
    MissingFilename,
    NamedFile(Seq<char>),
}

impl View for AttachmentRender {
    type V = AttachmentRenderView;

    open spec fn view(&self) -> AttachmentRenderView {
        match self {
            AttachmentRender::Embedded(markup) => AttachmentRenderView::Embedded(markup@),
            AttachmentRender::MissingFilename => AttachmentRenderView::MissingFilename,
            AttachmentRender::NamedFile(name) => AttachmentRenderView::NamedFile(name@),
        }
    }
}

impl AttachmentRender {
    /// A copy with the same contents.
    pub fn duplicate(&self) -> (copy: AttachmentRender)
        ensures
            copy@ == self@,
    {
        match self {
            AttachmentRender::Embedded(markup) => AttachmentRender::Embedded(markup.clone()),
            AttachmentRender::MissingFilename => AttachmentRender::MissingFilename,
            AttachmentRender::NamedFile(name) => AttachmentRender::NamedFile(name.clone()),
        }
    }
}

/// One attachment: a row of the attachment table, with what became of its file.
#[derive(Debug, Clone)]
pub struct Attachment {
    /// The path to the file, as it is recorded.
    pub filename: Option<String>,
    /// The type identifier.
    pub uti: Option<String>,
    /// The media type.
    pub mime_type: Option<String>,
    /// The name of the file when it was sent or received.
    pub transfer_name: Option<String>,
    /// How many bytes were transferred.
    pub total_bytes: i64,
    /// What to show instead, where the file could not be made part of the
    /// export.
    pub substitute: Option<AttachmentRender>,
    /// Where the export finds the file.
    pub embed_path: String,
    /// Whether the file's copy in the export is a folder.
    pub is_folder: bool,
    /// What is known of where a sticker comes from.
    pub decoration: Option<StickerDecoration>,
}

/// What a message's body says of an attachment.
#[derive(Debug, Clone)]
pub struct AttachmentMeta {
    /// The transcription of an audio message.
    pub transcription: Option<String>,
}

impl Default for AttachmentMeta {
    fn default() -> (meta: AttachmentMeta)
        ensures
            meta.transcription is None,
    {
        AttachmentMeta { transcription: None }
    }
}

impl Attachment {
    /// The name of the file: the one it was sent under, else the recorded path.
    pub open spec fn display_name(self) -> Option<Seq<char>> {
        match self.transfer_name {
            Some(name) => Some(name@),
            None => optional_text(self.filename),
        }
    }

    /// The name of the file: the one it was sent under, else the recorded path.
    pub fn filename(&self) -> (name: Option<&str>)
        ensures
            match name {
                Some(name) => self.display_name() == Some(name@),
                None => self.display_name() is None,
            },
    {
        match &self.transfer_name {
            Some(name) => Some(name.as_str()),
            None => match &self.filename {
                Some(path) => Some(path.as_str()),
                None => None,
            },
        }
    }

    /// The sort of file.
    pub open spec fn media_type(self) -> MediaTypeView {
        media_type_of(optional_text(self.mime_type), optional_text(self.uti))
    }

    /// The sort of file.
    pub fn mime_type(&self) -> (media_type: MediaType)
        ensures
            media_type@ == self.media_type(),
    {
        row_media_type(self.mime_type.clone(), self.uti.clone())
    }

    /// The size of the file, in words.
    pub fn file_size(&self) -> (size: String)
        ensures
            size@ == file_size_of(self.total_bytes),
    {
        row_file_size(self.total_bytes)
    }
}

} // verus!
