pub mod announcements;
pub mod attachments;
pub mod backup;
pub mod config;
pub mod database;
pub mod edited;
pub mod error;
pub mod escape;
pub mod html;
pub mod laws;
pub mod messages;
pub mod reply;
pub mod tapback;
pub mod text;
pub mod text_effects;
