//! Checklists kept in markdown.
//!
//! A markdown document marks a region as its checklist with HTML comments.
//! This crate reads the list items of that region into a [`Checklist`], tags
//! the entries that are marked as optional, writes a checklist as a TOML
//! snapshot and reads it back, and counts the entries that still need
//! attention.
//!
//! - [`extract`]: from a document to its checklist;
//! - [`checklist`]: the checklist, tagging and counting;
//! - [`snapshot`]: the snapshot of a checklist;
//! - [`markdown`], [`toml_tree`], [`text`]: documents as events, TOML as
//!   trees, strings as sequences of characters;
//! - [`cli`]: what the command line decides.

pub mod checklist;
pub mod cli;
pub mod extract;
pub mod markdown;
pub mod snapshot;
pub mod text;
pub mod toml_tree;

pub use crate::checklist::{Checklist, ChecklistError, ChecklistItem};
pub use crate::extract::{extract_checklist, extract_checklist_name};
pub use crate::markdown::MarkdownEvent;
pub use crate::toml_tree::{TomlEntry, TomlValue};
