//! The marker substitutor: the first line that holds the placeholder gives
//! way to the table of contents.

use vstd::prelude::*;
use crate::document::{lines_of, records_of, DocNode, DocNodeView, Document, DocumentView};
use crate::text::{contains, is_substring};
use crate::mode::Mode;
use crate::toc::{generate_toc, toc_lines};

verus! {

/// The index of the first of `lines` that holds `placeholder`.
pub open spec fn first_marker(lines: Seq<Seq<char>>, placeholder: Seq<char>) -> Option<nat>
    decreases lines.len(),
{
    if lines.len() == 0 {
        None
    } else if is_substring(placeholder, lines[0]) {
        Some(0)
    } else {
        match first_marker(lines.drop_first(), placeholder) {
            Some(at) => Some(at + 1),
            None => None,
        }
    }
}

/// The index of the first line of `node` that holds `placeholder`; only a
/// text block has lines.
pub open spec fn node_marker(node: DocNodeView, placeholder: Seq<char>) -> Option<nat> {
    match node {
        DocNodeView::Text(lines) => first_marker(lines, placeholder),
        DocNodeView::Other(_) => None,
    }
}

/// Where the first line that holds `placeholder` stands: the index of its
/// node, and its index among that node's lines.
pub open spec fn marker_position(nodes: Seq<DocNodeView>, placeholder: Seq<char>) -> Option<
    (nat, nat),
>
    decreases nodes.len(),
{
    if nodes.len() == 0 {
        None
    } else {
        match node_marker(nodes[0], placeholder) {
            Some(line) => Some((0, line)),
            None => match marker_position(nodes.drop_first(), placeholder) {
                Some((node, line)) => Some((node + 1, line)),
                None => None,
            },
        }
    }
}

/// `lines` with the line at `at` replaced by the lines of `toc`.
pub open spec fn spliced(lines: Seq<Seq<char>>, at: int, toc: Seq<Seq<char>>) -> Seq<Seq<char>> {
    lines.take(at) + toc + lines.skip(at + 1)
}

/// `document` with the first line that holds `placeholder` replaced by the
/// lines of `toc`; `document` itself where no line holds it.
pub open spec fn substituted(
    document: DocumentView,
    toc: Seq<Seq<char>>,
    placeholder: Seq<char>,
) -> DocumentView {
    match marker_position(document.nodes, placeholder) {
        Some((node, line)) => DocumentView {
            nodes: document.nodes.update(
                node as int,
                DocNodeView::Text(spliced(document.nodes[node as int]->Text_0, line as int, toc)),
            ),
            newline: document.newline,
        },
        None => document,
    }
}

/// Whether the line at `at` holds the placeholder and no line before it does.
pub open spec fn is_first_marker(lines: Seq<Seq<char>>, placeholder: Seq<char>, at: nat) -> bool {
    &&& at < lines.len()
    &&& is_substring(placeholder, lines[at as int])
    &&& forall|i: int| 0 <= i < at ==> !is_substring(placeholder, #[trigger] lines[i])
}

/// The first marker is the first line that holds the placeholder.
pub proof fn lemma_first_marker_some(lines: Seq<Seq<char>>, placeholder: Seq<char>, at: nat)
    ensures
        first_marker(lines, placeholder) == Some(at) <==> is_first_marker(lines, placeholder, at),
    decreases lines.len(),
{
    if lines.len() > 0 && !is_substring(placeholder, lines[0]) && at > 0 {
        let rest = lines.drop_first();
        let before = (at - 1) as nat;
        lemma_first_marker_some(rest, placeholder, before);
        if is_first_marker(rest, placeholder, before) {
            assert forall|i: int| 0 <= i < at implies !is_substring(
                placeholder,
                #[trigger] lines[i],
            ) by {
                if i > 0 {
                    assert(rest[i - 1] == lines[i]);
                }
            }
        }
    }
}

/// There is no first marker just where no line holds the placeholder.
pub proof fn lemma_first_marker_none(lines: Seq<Seq<char>>, placeholder: Seq<char>)
    ensures
        first_marker(lines, placeholder) is None <==> forall|i: int|
            0 <= i < lines.len() ==> !is_substring(placeholder, #[trigger] lines[i]),
    decreases lines.len(),
{
    if lines.len() > 0 && !is_substring(placeholder, lines[0]) {
        let rest = lines.drop_first();
        lemma_first_marker_none(rest, placeholder);
        if first_marker(rest, placeholder) is None {
            assert forall|i: int| 0 <= i < lines.len() implies !is_substring(
                placeholder,
                #[trigger] lines[i],
            ) by {
                if i > 0 {
                    assert(rest[i - 1] == lines[i]);
                }
            }
        }
    }
}

/// Whether the line `line` of the node `node` is the first marker of that
/// node, and no node before it has a marker.
pub open spec fn is_marker_position(
    nodes: Seq<DocNodeView>,
    placeholder: Seq<char>,
    node: nat,
    line: nat,
) -> bool {
    &&& node < nodes.len()
    &&& node_marker(nodes[node as int], placeholder) == Some(line)
    &&& forall|i: int| 0 <= i < node ==> node_marker(#[trigger] nodes[i], placeholder) is None
}

/// The marker's position is the first marker of the first node that has one.
pub proof fn lemma_marker_position_some(
    nodes: Seq<DocNodeView>,
    placeholder: Seq<char>,
    node: nat,
    line: nat,
)
    ensures
        marker_position(nodes, placeholder) == Some((node, line)) <==> is_marker_position(
            nodes,
            placeholder,
            node,
            line,
        ),
    decreases nodes.len(),
{
    if nodes.len() > 0 && node_marker(nodes[0], placeholder) is None && node > 0 {
        let rest = nodes.drop_first();
        let before = (node - 1) as nat;
        lemma_marker_position_some(rest, placeholder, before, line);
        if is_marker_position(rest, placeholder, before, line) {
            assert forall|i: int| 0 <= i < node implies node_marker(
                #[trigger] nodes[i],
                placeholder,
            ) is None by {
                if i > 0 {
                    assert(rest[i - 1] == nodes[i]);
                }
            }
        }
    }
}

/// There is no marker position just where no node has a marker.
pub proof fn lemma_marker_position_none(nodes: Seq<DocNodeView>, placeholder: Seq<char>)
    ensures
        marker_position(nodes, placeholder) is None <==> forall|i: int|
            0 <= i < nodes.len() ==> node_marker(#[trigger] nodes[i], placeholder) is None,
    decreases nodes.len(),
{
    if nodes.len() > 0 && node_marker(nodes[0], placeholder) is None {
        let rest = nodes.drop_first();
        lemma_marker_position_none(rest, placeholder);
        if marker_position(rest, placeholder) is None {
            assert forall|i: int| 0 <= i < nodes.len() implies node_marker(
                #[trigger] nodes[i],
                placeholder,
            ) is None by {
                if i > 0 {
                    assert(rest[i - 1] == nodes[i]);
                }
            }
        }
    }
}

/// Only the first line that holds the placeholder gives way to the table of
/// contents: no line before it holds the placeholder. The other nodes stay as
/// they are; in the marker's block the lines before the marker and the lines
/// behind it stay as they are, those that hold the placeholder too.
pub proof fn lemma_only_first_marker_replaced(
    document: DocumentView,
    toc: Seq<Seq<char>>,
    placeholder: Seq<char>,
)
    requires
        marker_position(document.nodes, placeholder) is Some,
    ensures
        ({
            let (node, line) = marker_position(document.nodes, placeholder)->0;
            let after = substituted(document, toc, placeholder);
            let lines = document.nodes[node as int]->Text_0;
            &&& is_marker_position(document.nodes, placeholder, node, line)
            &&& is_first_marker(lines, placeholder, line)
            &&& after.newline == document.newline
            &&& after.nodes.len() == document.nodes.len()
            &&& forall|i: int|
                0 <= i < document.nodes.len() && i != node ==> after.nodes[i] == document.nodes[i]
            &&& after.nodes[node as int] is Text
            &&& after.nodes[node as int]->Text_0.len() == lines.len() - 1 + toc.len()
            &&& forall|i: int| 0 <= i < line ==> after.nodes[node as int]->Text_0[i] == lines[i]
            &&& forall|i: int|
                0 <= i < toc.len() ==> after.nodes[node as int]->Text_0[line + i] == toc[i]
            &&& forall|i: int|
                line < i < lines.len() ==> after.nodes[node as int]->Text_0[i - 1 + toc.len()]
                    == lines[i]
        }),
{
    let (node, line) = marker_position(document.nodes, placeholder)->0;
    lemma_marker_position_some(document.nodes, placeholder, node, line);
    lemma_first_marker_some(document.nodes[node as int]->Text_0, placeholder, line);
}

/// The index of the first line of `text` that holds `placeholder`.
fn find_in_block(text: &Vec<String>, placeholder: &str) -> (at: Option<usize>)
    ensures
        match first_marker(lines_of(text@), placeholder@) {
            Some(line) => at == Some(line as usize) && line < text.len(),
            None => at is None,
        },
{
    let ghost lines = lines_of(text@);
    for at in 0..text.len()
        invariant
            lines == lines_of(text@),
            forall|i: int| 0 <= i < at ==> !is_substring(placeholder@, #[trigger] lines[i]),
    {
        if contains(text[at].as_str(), placeholder) {
            proof {
                lemma_first_marker_some(lines, placeholder@, at as nat);
            }
            return Some(at);
        }
    }
    proof {
        lemma_first_marker_none(lines, placeholder@);
    }
    None
}

/// Finds the first line of `document` that holds `placeholder`: the index of
/// its node, and its index among that node's lines.
pub fn find_marker(document: &Document, placeholder: &str) -> (at: Option<(usize, usize)>)
    ensures
        match marker_position(document@.nodes, placeholder@) {
            Some((node, line)) => at == Some((node as usize, line as usize))
                && node < document.nodes.len()
                && document.nodes[node as int] is Text
                && line < document.nodes[node as int]->Text_0.text.len(),
            None => at is None,
        },
{
    let ghost nodes = document@.nodes;
    for at in 0..document.nodes.len()
        invariant
            nodes == document@.nodes,
            forall|i: int| 0 <= i < at ==> node_marker(#[trigger] nodes[i], placeholder@) is None,
    {
        match &document.nodes[at] {
            DocNode::Text(block) => {
                match find_in_block(&block.text, placeholder) {
                    Some(line) => {
                        proof {
                            lemma_marker_position_some(
                                nodes,
                                placeholder@,
                                at as nat,
                                line as nat,
                            );
                        }
                        return Some((at, line));
                    },
                    None => {},
                }
            },
            DocNode::Other(_) => {},
        }
    }
    proof {
        lemma_marker_position_none(nodes, placeholder@);
    }
    None
}

/// Appends a copy of `line` to `lines`.
fn push_copy(lines: &mut Vec<String>, line: &String)
    ensures
        lines_of(final(lines)@) == lines_of(old(lines)@).push(line@),
{
    lines.push(line.clone());
}

/// Copies `text` with the line at `at` replaced by the lines of `toc`.
fn splice(text: &Vec<String>, at: usize, toc: &[String]) -> (lines: Vec<String>)
    requires
        at < text.len(),
    ensures
        lines_of(lines@) == spliced(lines_of(text@), at as int, lines_of(toc@)),
{
    let mut lines: Vec<String> = Vec::new();
    let ghost source = lines_of(text@);
    let ghost inserted = lines_of(toc@);
    for i in 0..at
        invariant
            at < text.len(),
            source == lines_of(text@),
            lines_of(lines@) == source.take(i as int),
    {
        push_copy(&mut lines, &text[i]);
    }
    for i in 0..toc.len()
        invariant
            source == lines_of(text@),
            inserted == lines_of(toc@),
            lines_of(lines@) == source.take(at as int) + inserted.take(i as int),
    {
        push_copy(&mut lines, &toc[i]);
    }
    for i in (at + 1)..text.len()
        invariant
            at < text.len(),
            source == lines_of(text@),
            lines_of(lines@) == source.take(at as int) + inserted + source.subrange(
                at + 1,
                i as int,
            ),
    {
        push_copy(&mut lines, &text[i]);
    }
    lines
}

/// Replaces the first line of `document` that holds `placeholder` by the
/// lines of `toc`. Every other line stays, also one that holds the
/// placeholder; without such a line the document stays as it is.
pub fn substitute_marker(document: &mut Document, toc: &[String], placeholder: &str)
    ensures
        final(document)@ == substituted(old(document)@, lines_of(toc@), placeholder@),
{
    match find_marker(document, placeholder) {
        Some((node, line)) => {
            let spliced = match &document.nodes[node] {
                DocNode::Text(block) => Some(splice(&block.text, line, toc)),
                DocNode::Other(_) => None,
            };
            match spliced {
                Some(text) => document.replace_text(node, text),
                None => {},
            }
        },
        None => {},
    }
}

/// Replaces the first line of `document` that holds `placeholder` by the
/// table of contents for `toc`, every entry of it a link to its heading's
/// anchor.
pub fn replace_toc_marker(document: &mut Document, toc: &[(String, u128)], placeholder: &str)
    ensures
        final(document)@ == substituted(
            old(document)@,
            toc_lines(Mode::InjectAnchors, records_of(toc@)),
            placeholder@,
        ),
{
    let lines = generate_toc(toc);
    substitute_marker(document, lines.as_slice(), placeholder);
}

} // verus!
