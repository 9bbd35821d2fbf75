//! The two ways of processing headings.

use vstd::prelude::*;

verus! {

/// How headings are processed: whether they are only listed, or also given an
/// anchor to which their entry in the table of contents links.
#[derive(Clone, Copy, Debug, PartialEq, Eq, Structural)]
pub enum Mode {
    /// The document is only read; its headings are listed by their labels.
    ExtractOnly,
    /// An anchor line is put in front of every listed heading, and the
    /// heading's entry links to that anchor.
    InjectAnchors,
}

} // verus!
