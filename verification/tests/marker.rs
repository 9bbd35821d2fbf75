use yarner_lib::{CodeBlock, Node};
use yarner_toc::document::{DocNode, Document, TextBlock};
use yarner_toc::marker::{find_marker, replace_toc_marker, substitute_marker};

fn text(lines: &[&str]) -> DocNode {
    DocNode::Text(TextBlock {
        text: lines.iter().map(|line| line.to_string()).collect(),
    })
}

fn code() -> DocNode {
    DocNode::Other(Node::Code(CodeBlock::default()))
}

fn document(nodes: Vec<DocNode>) -> Document {
    Document {
        nodes,
        newline: "\r\n".to_string(),
    }
}

fn lines_of(node: &DocNode) -> Vec<String> {
    match node {
        DocNode::Text(block) => block.text.clone(),
        DocNode::Other(_) => panic!("a text block was expected"),
    }
}

fn strings(lines: &[&str]) -> Vec<String> {
    lines.iter().map(|line| line.to_string()).collect()
}

#[test]
fn marker_line_gives_way_to_the_toc() {
    let mut doc = document(vec![text(&["test", "[[_TOC_]]", "test"])]);
    substitute_marker(&mut doc, &strings(&["* H1", "  * H2"]), "[[_TOC_]]");
    assert_eq!(lines_of(&doc.nodes[0]), vec!["test", "* H1", "  * H2", "test"]);
    assert_eq!(doc.newline, "\r\n");
}

#[test]
fn marker_line_is_replaced_whole() {
    let mut doc = document(vec![text(&["before", "see [[_TOC_]] here", "after"])]);
    substitute_marker(&mut doc, &strings(&["* H1"]), "[[_TOC_]]");
    assert_eq!(lines_of(&doc.nodes[0]), vec!["before", "* H1", "after"]);
}

#[test]
fn only_the_first_marker_is_replaced() {
    let mut doc = document(vec![
        text(&["no marker"]),
        code(),
        text(&["a", "[[_TOC_]]", "b", "[[_TOC_]]", "c"]),
        text(&["[[_TOC_]]"]),
    ]);
    substitute_marker(&mut doc, &strings(&["* H1", "* H2"]), "[[_TOC_]]");
    assert_eq!(doc.nodes.len(), 4);
    assert_eq!(lines_of(&doc.nodes[0]), vec!["no marker"]);
    assert!(matches!(doc.nodes[1], DocNode::Other(Node::Code(_))));
    assert_eq!(lines_of(&doc.nodes[2]), vec!["a", "* H1", "* H2", "b", "[[_TOC_]]", "c"]);
    assert_eq!(lines_of(&doc.nodes[3]), vec!["[[_TOC_]]"]);
}

#[test]
fn empty_toc_removes_the_marker_line() {
    let mut doc = document(vec![text(&["a", "[[_TOC_]]", "b"])]);
    substitute_marker(&mut doc, &[], "[[_TOC_]]");
    assert_eq!(lines_of(&doc.nodes[0]), vec!["a", "b"]);
    let mut alone = document(vec![text(&["[[_TOC_]]"])]);
    substitute_marker(&mut alone, &[], "[[_TOC_]]");
    assert!(lines_of(&alone.nodes[0]).is_empty());
}

#[test]
fn document_without_marker_stays() {
    let mut doc = document(vec![text(&["a", "[[_TOC_]", "b"]), code(), text(&[])]);
    substitute_marker(&mut doc, &strings(&["* H1"]), "[[_TOC_]]");
    assert_eq!(doc.nodes.len(), 3);
    assert_eq!(lines_of(&doc.nodes[0]), vec!["a", "[[_TOC_]", "b"]);
    assert!(matches!(doc.nodes[1], DocNode::Other(Node::Code(_))));
    assert!(lines_of(&doc.nodes[2]).is_empty());
    assert_eq!(doc.newline, "\r\n");
}

#[test]
fn marker_at_either_end_of_a_block() {
    let mut first = document(vec![text(&["<toc>", "x"])]);
    substitute_marker(&mut first, &strings(&["1", "2"]), "<toc>");
    assert_eq!(lines_of(&first.nodes[0]), vec!["1", "2", "x"]);
    let mut last = document(vec![text(&["x", "<toc>"])]);
    substitute_marker(&mut last, &strings(&["1", "2"]), "<toc>");
    assert_eq!(lines_of(&last.nodes[0]), vec!["x", "1", "2"]);
}

#[test]
fn marker_is_found_by_node_and_line() {
    let doc = document(vec![
        text(&["x"]),
        code(),
        text(&["y", "z", "..TOC..", "TOC"]),
        text(&["TOC"]),
    ]);
    assert_eq!(find_marker(&doc, "TOC"), Some((2, 2)));
    assert_eq!(find_marker(&doc, "z"), Some((2, 1)));
    assert_eq!(find_marker(&doc, "x"), Some((0, 0)));
    assert_eq!(find_marker(&doc, "toc"), None);
    assert_eq!(find_marker(&doc, "y\nz"), None);
}

#[test]
fn marker_is_matched_character_by_character() {
    let doc = document(vec![text(&["aé", "日本語のテキスト", "x"])]);
    assert_eq!(find_marker(&doc, "é"), Some((0, 0)));
    assert_eq!(find_marker(&doc, "本語"), Some((0, 1)));
    assert_eq!(find_marker(&doc, "e"), None);
}

#[test]
fn empty_placeholder_is_held_by_every_line() {
    let mut doc = document(vec![text(&[]), code(), text(&["first", "second"])]);
    assert_eq!(find_marker(&doc, ""), Some((2, 0)));
    substitute_marker(&mut doc, &strings(&["toc"]), "");
    assert_eq!(lines_of(&doc.nodes[2]), vec!["toc", "second"]);
}

#[test]
fn marker_in_a_carried_node_is_not_seen() {
    let mut doc = document(vec![
        DocNode::Other(Node::Text(yarner_lib::TextBlock {
            text: vec!["[[_TOC_]]".to_string()],
        })),
        text(&["[[_TOC_]]"]),
    ]);
    assert_eq!(find_marker(&doc, "[[_TOC_]]"), Some((1, 0)));
    substitute_marker(&mut doc, &strings(&["* H"]), "[[_TOC_]]");
    match &doc.nodes[0] {
        DocNode::Other(Node::Text(block)) => assert_eq!(block.text, vec!["[[_TOC_]]"]),
        _ => panic!("the carried node was expected"),
    }
    assert_eq!(lines_of(&doc.nodes[1]), vec!["* H"]);
}

#[test]
fn replace_toc_marker_renders_links() {
    let mut doc = document(vec![text(&["[[_TOC_]]", "[[_TOC_]]"])]);
    let toc = vec![("Intro".to_string(), 0), ("Sub Part".to_string(), 2)];
    replace_toc_marker(&mut doc, &toc, "[[_TOC_]]");
    assert_eq!(
        lines_of(&doc.nodes[0]),
        vec!["* [Intro](#intro)", "    * [Sub Part](#sub-part)", "[[_TOC_]]"]
    );
}

#[test]
fn replace_toc_marker_without_headings_removes_the_line() {
    let mut doc = document(vec![text(&["a", "[[_TOC_]]", "b"])]);
    replace_toc_marker(&mut doc, &[], "[[_TOC_]]");
    assert_eq!(lines_of(&doc.nodes[0]), vec!["a", "b"]);
}
