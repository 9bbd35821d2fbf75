//! Tables of contents for Yarner documents.
//!
//! A document is scanned for Markdown headings (`extract`), the headings
//! within a range of levels are rendered as a nested list (`toc`), and the
//! first line of the document that holds a placeholder gives way to that list
//! (`marker`). `pipeline` runs the stages in sequence; `config` reads the
//! placeholder and the range of levels from the plugin's configuration.

pub mod anchor;
pub mod config;
pub mod document;
pub mod extract;
pub mod heading;
pub mod marker;
pub mod mode;
pub mod pipeline;
pub mod seqs;
pub mod text;
pub mod toc;
pub mod version;

pub use crate::anchor::heading_anchor;
pub use crate::config::Settings;
pub use crate::document::{DocNode, Document, TextBlock};
pub use crate::extract::{anchor_and_extract_headings, extract_headings};
pub use crate::heading::heading_level;
pub use crate::marker::{replace_toc_marker, substitute_marker};
pub use crate::mode::Mode;
pub use crate::pipeline::insert_toc;
pub use crate::toc::{generate_toc, render_toc};
pub use crate::version::version_warning;
