//! What holds of everything that is rendered, said of the inputs and of what is
//! read on the page.
pub mod attachments;
pub mod backups;
pub mod effects;
pub mod events;
pub mod files;
pub mod messages;
pub mod order;
pub mod replies;
pub mod tapbacks;
pub mod text;
