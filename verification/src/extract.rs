//! The heading extractor: the headings of a document within a range of
//! levels, with or without an anchor line in front of each.

use vstd::prelude::*;
use vstd::string::StringExecFns;
use crate::anchor::{heading_anchor, is_ascii_alphanumeric, slug};
use crate::document::{lines_of, records_of, DocNode, DocNodeView, Document, DocumentView};
use crate::heading::{hashes, heading_level, heading_of, lemma_hash_run, lemma_heading_level};
use crate::seqs::lemma_flatten_empty;
use crate::text::{is_substring, trimmed};

verus! {

/// The record of `line` where it is a heading whose level lies in
/// `min..=max`: its label, and its level less `min`. The two bounds are any
/// integers: a heading's level is 1 at least, so a range that ends below 1
/// holds no heading, and one that starts below 1 counts from there.
pub open spec fn record_of(line: Seq<char>, min: int, max: int) -> Option<(Seq<char>, nat)> {
    match heading_of(line) {
        Some((label, level)) => if min <= level <= max {
            Some((label, (level - min) as nat))
        } else {
            None
        },
        None => None,
    }
}

/// The records of the headings among `lines`, in order.
pub open spec fn block_headings(lines: Seq<Seq<char>>, min: int, max: int) -> Seq<
    (Seq<char>, nat),
> {
    lines.filter_map(|line: Seq<char>| record_of(line, min, max))
}

/// The records of the headings of `node`; only a text block has headings.
pub open spec fn node_headings(node: DocNodeView, min: int, max: int) -> Seq<(Seq<char>, nat)> {
    match node {
        DocNodeView::Text(lines) => block_headings(lines, min, max),
        DocNodeView::Other(_) => Seq::empty(),
    }
}

/// The records of the headings in `nodes`, node by node and line by line.
pub open spec fn document_headings(nodes: Seq<DocNodeView>, min: int, max: int) -> Seq<
    (Seq<char>, nat),
> {
    nodes.map_values(|node: DocNodeView| node_headings(node, min, max)).flatten()
}

/// The line that carries the anchor of the heading `label`.
pub open spec fn anchor_line(label: Seq<char>) -> Seq<char> {
    "<a id=\""@ + slug(label) + "\" name=\""@ + slug(label) + "\"></a>"@
}

/// `line`, behind its anchor line where it is a heading in the range.
pub open spec fn anchored_line(line: Seq<char>, min: int, max: int) -> Seq<Seq<char>> {
    match record_of(line, min, max) {
        Some((label, _)) => seq![anchor_line(label), line],
        None => seq![line],
    }
}

/// `lines` with an anchor line in front of every heading in the range.
pub open spec fn anchored_lines(lines: Seq<Seq<char>>, min: int, max: int) -> Seq<Seq<char>> {
    lines.map_values(|line: Seq<char>| anchored_line(line, min, max)).flatten()
}

/// `node` with its headings anchored where it is a text block.
pub open spec fn anchored_node(node: DocNodeView, min: int, max: int) -> DocNodeView {
    match node {
        DocNodeView::Text(lines) => DocNodeView::Text(anchored_lines(lines, min, max)),
        DocNodeView::Other(other) => DocNodeView::Other(other),
    }
}

/// `document` with the headings of every text block anchored.
pub open spec fn anchored_document(document: DocumentView, min: int, max: int) -> DocumentView {
    DocumentView {
        nodes: document.nodes.map_values(|node: DocNodeView| anchored_node(node, min, max)),
        newline: document.newline,
    }
}

/// The headings of a block that is one line longer.
pub proof fn lemma_block_headings_push(
    lines: Seq<Seq<char>>,
    line: Seq<char>,
    min: int,
    max: int,
)
    ensures
        block_headings(lines.push(line), min, max) == match record_of(line, min, max) {
            Some(record) => block_headings(lines, min, max).push(record),
            None => block_headings(lines, min, max),
        },
{
    assert(lines.push(line).drop_last() == lines);
}

/// The anchored lines of a block that is one line longer.
pub proof fn lemma_anchored_lines_push(
    lines: Seq<Seq<char>>,
    line: Seq<char>,
    min: int,
    max: int,
)
    ensures
        anchored_lines(lines.push(line), min, max) == anchored_lines(lines, min, max)
            + anchored_line(line, min, max),
{
    let each = |line: Seq<char>| anchored_line(line, min, max);
    assert(lines.push(line).map_values(each) == lines.map_values(each).push(each(line)));
    lines.map_values(each).lemma_flatten_push(each(line));
}

/// The headings of a document that is one node longer.
pub proof fn lemma_document_headings_push(
    nodes: Seq<DocNodeView>,
    node: DocNodeView,
    min: int,
    max: int,
)
    ensures
        document_headings(nodes.push(node), min, max) == document_headings(nodes, min, max)
            + node_headings(node, min, max),
{
    let each = |node: DocNodeView| node_headings(node, min, max);
    assert(nodes.push(node).map_values(each) == nodes.map_values(each).push(each(node)));
    nodes.map_values(each).lemma_flatten_push(each(node));
}

/// A heading of level `level` is listed, with its level relative to `min`,
/// where `level` lies in `min..=max`, and left out where it does not.
pub proof fn lemma_listed_in_range(level: nat, text: Seq<char>, min: int, max: int)
    requires
        level >= 1,
        trimmed(text).len() > 0,
        text.len() > 0 ==> text[0] != '#',
    ensures
        min <= level <= max ==> block_headings(seq![hashes(level) + text], min, max) == seq![
            (trimmed(text), (level - min) as nat),
        ],
        level < min || level > max ==> block_headings(seq![hashes(level) + text], min, max)
            == Seq::<(Seq<char>, nat)>::empty(),
{
    let line = hashes(level) + text;
    lemma_heading_level(level, text);
    lemma_block_headings_push(Seq::empty(), line, min, max);
}

/// A range whose lowest level lies above its highest, or whose highest lies
/// below 1, lists no heading of a block.
pub proof fn lemma_empty_range_in_block(lines: Seq<Seq<char>>, min: int, max: int)
    requires
        min > max || max < 1,
    ensures
        block_headings(lines, min, max) == Seq::<(Seq<char>, nat)>::empty(),
    decreases lines.len(),
{
    if lines.len() > 0 {
        lemma_empty_range_in_block(lines.drop_last(), min, max);
    }
}

/// A range whose lowest level lies above its highest, or whose highest lies
/// below 1, lists no heading: a heading's level is 1 at least.
pub proof fn lemma_empty_range(nodes: Seq<DocNodeView>, min: int, max: int)
    requires
        min > max || max < 1,
    ensures
        document_headings(nodes, min, max) == Seq::<(Seq<char>, nat)>::empty(),
    decreases nodes.len(),
{
    if nodes.len() > 0 {
        let front = nodes.drop_last();
        assert(nodes == front.push(nodes.last()));
        lemma_document_headings_push(front, nodes.last(), min, max);
        lemma_empty_range(front, min, max);
        if let DocNodeView::Text(lines) = nodes.last() {
            lemma_empty_range_in_block(lines, min, max);
        }
    }
}

/// An anchor line is no heading.
pub proof fn lemma_anchor_line_is_no_heading(label: Seq<char>)
    ensures
        heading_of(anchor_line(label)) is None,
{
    reveal_strlit("<a id=\"");
    lemma_hash_run(anchor_line(label), 0);
}

/// The anchor lines add no headings to a block, whatever the range.
pub proof fn lemma_anchored_lines_keep_headings(
    lines: Seq<Seq<char>>,
    min: int,
    max: int,
    lowest: int,
    highest: int,
)
    ensures
        block_headings(anchored_lines(lines, min, max), lowest, highest) == block_headings(
            lines,
            lowest,
            highest,
        ),
    decreases lines.len(),
{
    if lines.len() > 0 {
        let front = lines.drop_last();
        let last = lines.last();
        let done = anchored_lines(front, min, max);
        assert(lines == front.push(last));
        lemma_anchored_lines_push(front, last, min, max);
        lemma_anchored_lines_keep_headings(front, min, max, lowest, highest);
        lemma_block_headings_push(front, last, lowest, highest);
        match record_of(last, min, max) {
            Some((label, _)) => {
                assert(anchored_lines(lines, min, max) == done.push(anchor_line(label)).push(last));
                lemma_anchor_line_is_no_heading(label);
                lemma_block_headings_push(done, anchor_line(label), lowest, highest);
                lemma_block_headings_push(done.push(anchor_line(label)), last, lowest, highest);
            },
            None => {
                assert(anchored_lines(lines, min, max) == done.push(last));
                lemma_block_headings_push(done, last, lowest, highest);
            },
        }
    }
}

/// The anchor lines add no headings to a document, whatever the range: the
/// anchored document has the headings that the document had.
pub proof fn lemma_anchoring_keeps_headings(
    document: DocumentView,
    min: int,
    max: int,
    lowest: int,
    highest: int,
)
    ensures
        document_headings(anchored_document(document, min, max).nodes, lowest, highest)
            == document_headings(document.nodes, lowest, highest),
{
    let each = |node: DocNodeView| node_headings(node, lowest, highest);
    let anchored = anchored_document(document, min, max).nodes;
    assert forall|i: int| 0 <= i < document.nodes.len() implies each(anchored[i]) == each(
        document.nodes[i],
    ) by {
        match document.nodes[i] {
            DocNodeView::Text(lines) => {
                lemma_anchored_lines_keep_headings(lines, min, max, lowest, highest);
            },
            DocNodeView::Other(_) => {},
        }
    }
    assert(anchored.map_values(each) == document.nodes.map_values(each));
}

/// Whether `c` is one of the characters that anchor lines are made of: an
/// ASCII letter or digit, a hyphen, or one of `<`, `>`, `/`, `=`, `"` and the
/// space.
pub open spec fn is_anchor_line_char(c: char) -> bool {
    is_ascii_alphanumeric(c) || c == '-' || c == '<' || c == '>' || c == '/' || c == '=' || c
        == '"' || c == ' '
}

/// An anchor line holds no other characters than these.
pub proof fn lemma_anchor_line_chars(label: Seq<char>)
    ensures
        forall|i: int|
            0 <= i < anchor_line(label).len() ==> is_anchor_line_char(
                #[trigger] anchor_line(label)[i],
            ),
{
    reveal_strlit("<a id=\"");
    reveal_strlit("\" name=\"");
    reveal_strlit("\"></a>");
}

/// A text with a character that anchor lines are not made of occurs in no
/// anchor line.
pub proof fn lemma_foreign_to_anchor_lines(needle: Seq<char>, at: int, label: Seq<char>)
    requires
        0 <= at < needle.len(),
        !is_anchor_line_char(needle[at]),
    ensures
        !is_substring(needle, anchor_line(label)),
{
    let line = anchor_line(label);
    lemma_anchor_line_chars(label);
    if is_substring(needle, line) {
        let from = choose|i: int|
            0 <= i && i + needle.len() <= line.len() && #[trigger] line.subrange(
                i,
                i + needle.len(),
            ) == needle;
    }
}

/// A block without headings in the range gets no anchor lines.
pub proof fn lemma_no_headings_no_anchor_lines(lines: Seq<Seq<char>>, min: int, max: int)
    requires
        block_headings(lines, min, max).len() == 0,
    ensures
        anchored_lines(lines, min, max) == lines,
    decreases lines.len(),
{
    if lines.len() > 0 {
        let front = lines.drop_last();
        assert(lines == front.push(lines.last()));
        lemma_block_headings_push(front, lines.last(), min, max);
        lemma_anchored_lines_push(front, lines.last(), min, max);
        lemma_no_headings_no_anchor_lines(front, min, max);
    }
}

/// A document without headings in the range gets no anchor lines.
pub proof fn lemma_no_headings_no_anchors(document: DocumentView, min: int, max: int)
    requires
        document_headings(document.nodes, min, max).len() == 0,
    ensures
        anchored_document(document, min, max) == document,
{
    let parts = document.nodes.map_values(|node: DocNodeView| node_headings(node, min, max));
    assert forall|i: int| 0 <= i < document.nodes.len() implies anchored_node(
        #[trigger] document.nodes[i],
        min,
        max,
    ) == document.nodes[i] by {
        lemma_flatten_empty(parts, i);
        match document.nodes[i] {
            DocNodeView::Text(lines) => {
                lemma_no_headings_no_anchor_lines(lines, min, max);
            },
            DocNodeView::Other(_) => {},
        }
    }
    assert(anchored_document(document, min, max).nodes == document.nodes);
}

/// The lines of an anchored block are the lines of the block and the anchor
/// lines of its headings: what none of these holds, no line of the anchored
/// block holds.
pub proof fn lemma_anchored_lines_hold(
    lines: Seq<Seq<char>>,
    min: int,
    max: int,
    needle: Seq<char>,
)
    requires
        forall|i: int| 0 <= i < lines.len() ==> !is_substring(needle, #[trigger] lines[i]),
        forall|i: int|
            0 <= i < block_headings(lines, min, max).len() ==> !is_substring(
                needle,
                anchor_line((#[trigger] block_headings(lines, min, max)[i]).0),
            ),
    ensures
        forall|i: int|
            0 <= i < anchored_lines(lines, min, max).len() ==> !is_substring(
                needle,
                #[trigger] anchored_lines(lines, min, max)[i],
            ),
    decreases lines.len(),
{
    if lines.len() > 0 {
        let front = lines.drop_last();
        let last = lines.last();
        let listed = block_headings(lines, min, max);
        assert(lines == front.push(last));
        lemma_block_headings_push(front, last, min, max);
        lemma_anchored_lines_push(front, last, min, max);
        assert forall|i: int| 0 <= i < block_headings(front, min, max).len() implies !is_substring(
            needle,
            anchor_line((#[trigger] block_headings(front, min, max)[i]).0),
        ) by {
            assert(block_headings(front, min, max)[i] == listed[i]);
        }
        lemma_anchored_lines_hold(front, min, max, needle);
        if record_of(last, min, max) is Some {
            assert(listed[listed.len() - 1] == record_of(last, min, max)->0);
        }
    }
}

/// The record of `line`, if it is a heading whose level lies in
/// `min_level..=max_level`.
pub fn heading_record(line: &str, min_level: i64, max_level: i64) -> (record: Option<
    (String, u128),
>)
    ensures
        match record_of(line@, min_level as int, max_level as int) {
            Some((label, relative)) => record matches Some((l, r)) && l@ == label && r == relative,
            None => record is None,
        },
{
    match heading_level(line) {
        Some((label, level)) => {
            let level = level as i128;
            let lowest = min_level as i128;
            if lowest <= level && level <= max_level as i128 {
                Some((label.to_owned(), (level - lowest) as u128))
            } else {
                None
            }
        },
        None => None,
    }
}

/// The anchor line for the heading `label`.
pub fn anchor_tag(label: &str) -> (tag: String)
    ensures
        tag@ == anchor_line(label@),
{
    let anchor = heading_anchor(label);
    let mut tag = String::from_str("<a id=\"");
    tag.append(anchor.as_str());
    tag.append("\" name=\"");
    tag.append(anchor.as_str());
    tag.append("\"></a>");
    tag
}

/// Collects the headings of one block onto `headings`.
fn extract_block(text: &Vec<String>, min_level: i64, max_level: i64, headings: &mut Vec<
    (String, u128),
>)
    ensures
        records_of(final(headings)@) == records_of(old(headings)@) + block_headings(
            lines_of(text@),
            min_level as int,
            max_level as int,
        ),
{
    let ghost lines = lines_of(text@);
    let ghost min = min_level as int;
    let ghost max = max_level as int;
    for at in 0..text.len()
        invariant
            lines == lines_of(text@),
            min == min_level,
            max == max_level,
            records_of(headings@) == records_of(old(headings)@) + block_headings(
                lines.take(at as int),
                min,
                max,
            ),
    {
        proof {
            assert(lines.take(at + 1) == lines.take(at as int).push(text@[at as int]@));
            lemma_block_headings_push(lines.take(at as int), text@[at as int]@, min, max);
        }
        let ghost before = headings@;
        match heading_record(text[at].as_str(), min_level, max_level) {
            Some(record) => {
                headings.push(record);
                assert(records_of(headings@) == records_of(before).push(
                    (record.0@, record.1 as nat),
                ));
            },
            None => {},
        }
    }
    assert(lines.take(text.len() as int) == lines);
}

/// Extraction only: the headings of `document` whose level lies in
/// `min_level..=max_level`, in document order. The document is only read.
pub fn extract_headings(document: &Document, min_level: i64, max_level: i64) -> (headings:
    Vec<(String, u128)>)
    ensures
        records_of(headings@) == document_headings(
            document@.nodes,
            min_level as int,
            max_level as int,
        ),
{
    let mut headings: Vec<(String, u128)> = Vec::new();
    let ghost nodes = document@.nodes;
    for at in 0..document.nodes.len()
        invariant
            nodes == document@.nodes,
            records_of(headings@) == document_headings(
                nodes.take(at as int),
                min_level as int,
                max_level as int,
            ),
    {
        proof {
            assert(nodes.take(at + 1) == nodes.take(at as int).push(document.nodes@[at as int]@));
            lemma_document_headings_push(
                nodes.take(at as int),
                document.nodes@[at as int]@,
                min_level as int,
                max_level as int,
            );
        }
        match &document.nodes[at] {
            DocNode::Text(block) => {
                extract_block(&block.text, min_level, max_level, &mut headings);
            },
            DocNode::Other(_) => {},
        }
    }
    assert(nodes.take(document.nodes.len() as int) == nodes);
    headings
}

/// Copies one block, putting an anchor line in front of every heading in
/// the range, and collects those headings onto `headings`.
fn anchor_block(text: &Vec<String>, min_level: i64, max_level: i64, headings: &mut Vec<
    (String, u128),
>) -> (anchored: Vec<String>)
    ensures
        lines_of(anchored@) == anchored_lines(
            lines_of(text@),
            min_level as int,
            max_level as int,
        ),
        records_of(final(headings)@) == records_of(old(headings)@) + block_headings(
            lines_of(text@),
            min_level as int,
            max_level as int,
        ),
{
    let mut anchored: Vec<String> = Vec::new();
    let ghost lines = lines_of(text@);
    let ghost min = min_level as int;
    let ghost max = max_level as int;
    for at in 0..text.len()
        invariant
            lines == lines_of(text@),
            min == min_level,
            max == max_level,
            lines_of(anchored@) == anchored_lines(lines.take(at as int), min, max),
            records_of(headings@) == records_of(old(headings)@) + block_headings(
                lines.take(at as int),
                min,
                max,
            ),
    {
        proof {
            assert(lines.take(at + 1) == lines.take(at as int).push(text@[at as int]@));
            lemma_block_headings_push(lines.take(at as int), text@[at as int]@, min, max);
            lemma_anchored_lines_push(lines.take(at as int), text@[at as int]@, min, max);
        }
        let ghost before = headings@;
        match heading_record(text[at].as_str(), min_level, max_level) {
            Some(record) => {
                let tag = anchor_tag(record.0.as_str());
                anchored.push(tag);
                headings.push(record);
                assert(records_of(headings@) == records_of(before).push(
                    (record.0@, record.1 as nat),
                ));
            },
            None => {},
        }
        anchored.push(text[at].clone());
    }
    assert(lines.take(text.len() as int) == lines);
    anchored
}

/// Anchor injection: the headings of `document` whose level lies in
/// `min_level..=max_level`, in document order; in the document an anchor line
/// is put in front of each of them.
pub fn anchor_and_extract_headings(
    document: &mut Document,
    min_level: i64,
    max_level: i64,
) -> (headings: Vec<(String, u128)>)
    ensures
        records_of(headings@) == document_headings(
            old(document)@.nodes,
            min_level as int,
            max_level as int,
        ),
        final(document)@ == anchored_document(
            old(document)@,
            min_level as int,
            max_level as int,
        ),
{
    let mut headings: Vec<(String, u128)> = Vec::new();
    let ghost nodes = document@.nodes;
    let ghost min = min_level as int;
    let ghost max = max_level as int;
    let count = document.nodes.len();
    for at in 0..count
        invariant
            nodes == old(document)@.nodes,
            min == min_level,
            max == max_level,
            count == nodes.len(),
            count == document.nodes.len(),
            document@.newline == old(document)@.newline,
            document@.nodes == anchored_document(old(document)@, min, max).nodes.take(at as int)
                + nodes.skip(at as int),
            records_of(headings@) == document_headings(nodes.take(at as int), min, max),
    {
        proof {
            assert(nodes.take(at + 1) == nodes.take(at as int).push(nodes[at as int]));
            lemma_document_headings_push(nodes.take(at as int), nodes[at as int], min, max);
            assert(document.nodes[at as int]@ == document@.nodes[at as int]);
        }
        let anchored = match &document.nodes[at] {
            DocNode::Text(block) => Some(
                anchor_block(&block.text, min_level, max_level, &mut headings),
            ),
            DocNode::Other(_) => None,
        };
        match anchored {
            Some(text) => document.replace_text(at, text),
            None => {},
        }
        assert(document@.nodes == anchored_document(old(document)@, min, max).nodes.take(at + 1)
            + nodes.skip(at + 1));
    }
    assert(nodes.take(count as int) == nodes);
    assert(document@.nodes == anchored_document(old(document)@, min, max).nodes);
    headings
}

} // verus!
