//! The two stages in sequence: extract the headings of a document, then put
//! their table of contents in the placeholder's stead.

use vstd::prelude::*;
use crate::config::{Settings, SettingsView};
use crate::document::{DocNodeView, Document, DocumentView};
use crate::extract::{
    anchor_and_extract_headings, anchor_line, anchored_document, anchored_lines, block_headings,
    document_headings, extract_headings, is_anchor_line_char, lemma_anchored_lines_hold,
    lemma_empty_range, lemma_foreign_to_anchor_lines, lemma_no_headings_no_anchors,
    node_headings,
};
use crate::mode::Mode;
use crate::marker::{
    lemma_first_marker_none, lemma_first_marker_some, lemma_marker_position_none,
    lemma_marker_position_some, marker_position, node_marker, substitute_marker, substituted,
};
use crate::seqs::lemma_flatten_holds_parts;
use crate::text::is_substring;
use crate::toc::{render_toc, toc_lines};

verus! {

/// `document` as the extractor leaves it: unchanged, or with its headings
/// anchored.
pub open spec fn scanned(
    document: DocumentView,
    settings: SettingsView,
    mode: Mode,
) -> DocumentView {
    match mode {
        Mode::ExtractOnly => document,
        Mode::InjectAnchors => anchored_document(
            document,
            settings.min_level,
            settings.max_level,
        ),
    }
}

/// The table of contents of `document`.
pub open spec fn contents(document: DocumentView, settings: SettingsView, mode: Mode) -> Seq<
    Seq<char>,
> {
    toc_lines(mode, document_headings(document.nodes, settings.min_level, settings.max_level))
}

/// `document` with its table of contents in the placeholder's stead.
pub open spec fn with_toc(
    document: DocumentView,
    settings: SettingsView,
    mode: Mode,
) -> DocumentView {
    substituted(
        scanned(document, settings, mode),
        contents(document, settings, mode),
        settings.placeholder,
    )
}

/// Whether no line of `document` holds `placeholder`.
pub open spec fn free_of(document: DocumentView, placeholder: Seq<char>) -> bool {
    forall|node: int, line: int|
        0 <= node < document.nodes.len() && document.nodes[node] is Text && 0 <= line
            < document.nodes[node]->Text_0.len() ==> !is_substring(
            placeholder,
            #[trigger] document.nodes[node]->Text_0[line],
        )
}

/// Whether the anchor line of no heading of `document` holds `placeholder`.
pub open spec fn anchors_free_of(
    document: DocumentView,
    settings: SettingsView,
    placeholder: Seq<char>,
) -> bool {
    forall|i: int|
        0 <= i < document_headings(
            document.nodes,
            settings.min_level,
            settings.max_level,
        ).len() ==> !is_substring(
            placeholder,
            anchor_line(
                (#[trigger] document_headings(
                    document.nodes,
                    settings.min_level,
                    settings.max_level,
                )[i]).0,
            ),
        )
}

/// A document without headings in the range, in which a line holds the
/// placeholder, loses the first such line, and nothing takes its place.
pub proof fn lemma_empty_toc_removes_marker(
    document: DocumentView,
    settings: SettingsView,
    mode: Mode,
)
    requires
        document_headings(document.nodes, settings.min_level, settings.max_level).len() == 0,
        marker_position(document.nodes, settings.placeholder) is Some,
    ensures
        ({
            let (node, line) = marker_position(document.nodes, settings.placeholder)->0;
            with_toc(document, settings, mode) == DocumentView {
                nodes: document.nodes.update(
                    node as int,
                    DocNodeView::Text(document.nodes[node as int]->Text_0.remove(line as int)),
                ),
                newline: document.newline,
            }
        }),
{
    lemma_no_headings_no_anchors(document, settings.min_level, settings.max_level);
    let (node, line) = marker_position(document.nodes, settings.placeholder)->0;
    let lines = document.nodes[node as int]->Text_0;
    lemma_marker_position_some(document.nodes, settings.placeholder, node, line);
    lemma_first_marker_some(lines, settings.placeholder, line);
}

/// With a range of levels that lists nothing, a document in which a line
/// holds the placeholder loses the first such line, and is not changed
/// otherwise.
pub proof fn lemma_empty_range_removes_marker(
    document: DocumentView,
    settings: SettingsView,
    mode: Mode,
)
    requires
        settings.min_level > settings.max_level || settings.max_level < 1,
        marker_position(document.nodes, settings.placeholder) is Some,
    ensures
        ({
            let (node, line) = marker_position(document.nodes, settings.placeholder)->0;
            with_toc(document, settings, mode) == DocumentView {
                nodes: document.nodes.update(
                    node as int,
                    DocNodeView::Text(document.nodes[node as int]->Text_0.remove(line as int)),
                ),
                newline: document.newline,
            }
        }),
{
    lemma_empty_range(document.nodes, settings.min_level, settings.max_level);
    lemma_empty_toc_removes_marker(document, settings, mode);
}

/// A document in which no line holds the placeholder comes out as the
/// extractor left it: as it was, or with the anchor lines of its headings
/// and no other change. The second case asks that no anchor line holds the
/// placeholder either.
pub proof fn lemma_without_marker(document: DocumentView, settings: SettingsView, mode: Mode)
    requires
        free_of(document, settings.placeholder),
        mode == Mode::InjectAnchors ==> anchors_free_of(document, settings, settings.placeholder),
    ensures
        with_toc(document, settings, mode) == scanned(document, settings, mode),
        mode == Mode::ExtractOnly ==> with_toc(document, settings, mode) == document,
{
    let min = settings.min_level;
    let max = settings.max_level;
    let placeholder = settings.placeholder;
    let after = scanned(document, settings, mode);
    assert forall|i: int| 0 <= i < after.nodes.len() implies node_marker(
        #[trigger] after.nodes[i],
        placeholder,
    ) is None by {
        match document.nodes[i] {
            DocNodeView::Text(lines) => {
                if mode == Mode::InjectAnchors {
                    let parts = document.nodes.map_values(
                        |node: DocNodeView| node_headings(node, min, max),
                    );
                    let listed = block_headings(lines, min, max);
                    assert forall|k: int| 0 <= k < listed.len() implies !is_substring(
                        placeholder,
                        anchor_line((#[trigger] listed[k]).0),
                    ) by {
                        lemma_flatten_holds_parts(parts, i, k);
                        let found = choose|j: int|
                            0 <= j < parts.flatten().len() && parts.flatten()[j] == parts[i][k];
                        assert(document_headings(document.nodes, min, max)[found] == listed[k]);
                    }
                    lemma_anchored_lines_hold(lines, min, max, placeholder);
                    lemma_first_marker_none(anchored_lines(lines, min, max), placeholder);
                } else {
                    lemma_first_marker_none(lines, placeholder);
                }
            },
            DocNodeView::Other(_) => {},
        }
    }
    lemma_marker_position_none(after.nodes, placeholder);
}

/// A placeholder with a character that anchor lines are not made of is held
/// by no anchor line.
pub proof fn lemma_anchors_free_of(document: DocumentView, settings: SettingsView, at: int)
    requires
        0 <= at < settings.placeholder.len(),
        !is_anchor_line_char(settings.placeholder[at]),
    ensures
        anchors_free_of(document, settings, settings.placeholder),
{
    let listed = document_headings(document.nodes, settings.min_level, settings.max_level);
    assert forall|i: int| 0 <= i < listed.len() implies !is_substring(
        settings.placeholder,
        anchor_line((#[trigger] listed[i]).0),
    ) by {
        lemma_foreign_to_anchor_lines(settings.placeholder, at, listed[i].0);
    }
}

/// The placeholder `[[_TOC_]]` is held by no anchor line.
pub proof fn lemma_default_anchors_free_of(document: DocumentView, settings: SettingsView)
    requires
        settings.placeholder == "[[_TOC_]]"@,
    ensures
        anchors_free_of(document, settings, settings.placeholder),
{
    reveal_strlit("[[_TOC_]]");
    lemma_anchors_free_of(document, settings, 0);
}

/// With a placeholder that has a character that anchor lines are not made
/// of, `[[_TOC_]]` for one, a document in which no line holds the placeholder
/// comes out with the anchor lines of its headings and no other change.
pub proof fn lemma_without_marker_anchored(
    document: DocumentView,
    settings: SettingsView,
    at: int,
)
    requires
        free_of(document, settings.placeholder),
        0 <= at < settings.placeholder.len(),
        !is_anchor_line_char(settings.placeholder[at]),
    ensures
        with_toc(document, settings, Mode::InjectAnchors) == anchored_document(
            document,
            settings.min_level,
            settings.max_level,
        ),
{
    lemma_anchors_free_of(document, settings, at);
    lemma_without_marker(document, settings, Mode::InjectAnchors);
}

/// Extracts the headings of `document` within the levels of `settings`, and
/// replaces the first line that holds the placeholder by their table of
/// contents.
pub fn insert_toc(document: &mut Document, settings: &Settings, mode: Mode)
    ensures
        final(document)@ == with_toc(old(document)@, settings@, mode),
{
    let headings = match mode {
        Mode::ExtractOnly => extract_headings(document, settings.min_level, settings.max_level),
        Mode::InjectAnchors => anchor_and_extract_headings(
            document,
            settings.min_level,
            settings.max_level,
        ),
    };
    let lines = render_toc(headings.as_slice(), mode);
    substitute_marker(document, lines.as_slice(), settings.placeholder.as_str());
}

} // verus!
