//! The HTML exporter.
use vstd::prelude::*;

use crate::config::Config;
use crate::error::RuntimeError;
use crate::html::writer::LABEL;

pub mod announcement;
pub mod attachment;
pub mod attributes;
pub mod edited;
pub mod forensic;
pub mod message;
pub mod part;
pub mod tapback;
pub mod text_effects;
pub mod writer;

verus! {

/// What an export keeps track of while it runs.
pub struct ExportState {
    /// The files that have been opened, by conversation.
    pub files: Vec<String>,
    /// The file for messages that belong to no conversation.
    pub orphaned: String,
}

impl ExportState {
    /// The state at the start of an export to files with the given extension.
    pub fn new(extension: &str) -> (state: ExportState)
        ensures
            state.files@.len() == 0,
            state.orphaned@ == "orphaned."@ + extension@,
    {
        let mut orphaned = "orphaned.".to_string();
        orphaned.append(extension);
        ExportState { files: Vec::new(), orphaned }
    }
}

/// The HTML exporter.
pub struct HTML<'a> {
    /// Data that is set up by the application's runtime.
    pub config: &'a Config,
    /// What the export keeps track of.
    pub state: ExportState,
}

impl<'a> HTML<'a> {
    /// An exporter that has written nothing yet.
    pub fn new(config: &'a Config) -> (exporter: Result<HTML<'a>, RuntimeError>)
        ensures
            exporter matches Ok(html) && html.config == config && html.state.files@.len() == 0
                && html.state.orphaned@ == "orphaned."@ + LABEL@,
    {
        Ok(HTML { config, state: ExportState::new(LABEL) })
    }
}

} // verus!
