//! The document model: a sequence of nodes, of which only text blocks are read.

use vstd::prelude::*;

verus! {

/// `yarner_lib::Node`, a node as Yarner hands it over. Nothing is known of
/// what it holds: such a node is only carried from one place to another.
#[verifier::external_type_specification]
#[verifier::external_body]
pub struct ExYarnerNode(yarner_lib::Node);

/// A block of text.
#[derive(Debug)]
pub struct TextBlock {
    /// The lines of the block, without their line endings.
    pub text: Vec<String>,
}

/// One node of a document.
#[derive(Debug)]
pub enum DocNode {
    /// Text, which is scanned for headings and for the placeholder.
    Text(TextBlock),
    /// A node that is carried through as it is, whatever it holds.
    Other(yarner_lib::Node),
}

/// A document.
#[derive(Debug)]
pub struct Document {
    /// The nodes of the document, in order.
    pub nodes: Vec<DocNode>,
    /// The line ending of the document's source.
    pub newline: String,
}

/// What a node holds, with the lines of a text block as character sequences.
pub enum DocNodeView {
    Text(Seq<Seq<char>>),
    Other(yarner_lib::Node),
}

/// What a document holds: its nodes, and its line ending.
pub struct DocumentView {
    pub nodes: Seq<DocNodeView>,
    pub newline: Seq<char>,
}

/// The lines of `text` as character sequences.
pub open spec fn lines_of(text: Seq<String>) -> Seq<Seq<char>> {
    text.map_values(|line: String| line@)
}

/// Heading records, each a label and a relative level, as pairs of a
/// character sequence and a number. A relative level is a heading's level
/// less the lowest level that is listed; that level may lie below zero, so a
/// relative level may lie above every heading's level.
pub open spec fn records_of(toc: Seq<(String, u128)>) -> Seq<(Seq<char>, nat)> {
    toc.map_values(|record: (String, u128)| (record.0@, record.1 as nat))
}

impl View for TextBlock {
    type V = Seq<Seq<char>>;

    open spec fn view(&self) -> Seq<Seq<char>> {
        lines_of(self.text@)
    }
}

impl View for DocNode {
    type V = DocNodeView;

    open spec fn view(&self) -> DocNodeView {
        match *self {
            DocNode::Text(block) => DocNodeView::Text(block@),
            DocNode::Other(node) => DocNodeView::Other(node),
        }
    }
}

impl View for Document {
    type V = DocumentView;

    open spec fn view(&self) -> DocumentView {
        DocumentView {
            nodes: self.nodes@.map_values(|node: DocNode| node@),
            newline: self.newline@,
        }
    }
}

impl Document {
    /// Gives the text block at `node` the lines `text`.
    pub(crate) fn replace_text(&mut self, node: usize, text: Vec<String>)
        requires
            node < old(self).nodes.len(),
            old(self).nodes[node as int] is Text,
        ensures
            final(self)@ == (DocumentView {
                nodes: old(self)@.nodes.update(node as int, DocNodeView::Text(lines_of(text@))),
                newline: old(self)@.newline,
            }),
    {
        match &mut self.nodes[node] {
            DocNode::Text(block) => {
                block.text = text;
            },
            DocNode::Other(_) => {},
        }
        assert(self@.nodes == old(self)@.nodes.update(
            node as int,
            DocNodeView::Text(lines_of(text@)),
        ));
    }
}

} // verus!
