use yarner_toc::document::{DocNode, Document, TextBlock};
use yarner_toc::marker::replace_toc_marker;
use yarner_toc::mode::Mode;
use yarner_toc::toc::{render_entry, render_toc};

#[test]
fn generate_toc() {
    let toc = vec![("H1".to_string(), 0), ("H2".to_string(), 1)];
    let lines = yarner_toc::toc::generate_toc(&toc);

    assert_eq!(
        lines,
        vec!["* [H1](#h1)".to_string(), "  * [H2](#h2)".to_string()]
    )
}

#[test]
fn replace_marker() {
    let text = vec![
        "test".to_string(),
        "[[_TOC_]]".to_string(),
        "test".to_string(),
    ];
    let mut doc = Document {
        nodes: vec![DocNode::Text(TextBlock { text })],
        newline: "\n".to_string(),
    };
    let toc = vec![("H1".to_string(), 0), ("H2".to_string(), 1)];
    replace_toc_marker(&mut doc, &toc, "[[_TOC_]]");

    let expected = vec![
        "test".to_string(),
        "* [H1](#h1)".to_string(),
        "  * [H2](#h2)".to_string(),
        "test".to_string(),
    ];

    assert_eq!(doc.nodes.len(), 1);
    assert!(matches!(doc.nodes[0], DocNode::Text(_)));
    if let DocNode::Text(block) = &doc.nodes[0] {
        assert_eq!(block.text, expected);
    }
}

#[test]
fn plain_toc_lists_the_labels() {
    let toc = vec![("H1".to_string(), 0), ("H2".to_string(), 1)];
    assert_eq!(
        render_toc(&toc, Mode::ExtractOnly),
        vec!["* H1".to_string(), "  * H2".to_string()]
    );
}

#[test]
fn linked_toc_is_what_generate_toc_gives() {
    let toc = vec![
        ("Getting started".to_string(), 0),
        ("Install".to_string(), 1),
        ("From source!".to_string(), 2),
    ];
    assert_eq!(render_toc(&toc, Mode::InjectAnchors), yarner_toc::toc::generate_toc(&toc));
    assert_eq!(
        render_toc(&toc, Mode::InjectAnchors),
        vec![
            "* [Getting started](#getting-started)".to_string(),
            "  * [Install](#install)".to_string(),
            "    * [From source!](#from-source-)".to_string(),
        ]
    );
}

#[test]
fn no_headings_give_no_lines() {
    let toc: Vec<(String, u128)> = Vec::new();
    assert!(render_toc(&toc, Mode::ExtractOnly).is_empty());
    assert!(render_toc(&toc, Mode::InjectAnchors).is_empty());
    assert!(yarner_toc::toc::generate_toc(&toc).is_empty());
}

#[test]
fn toc_has_one_line_for_each_heading_in_order() {
    let toc: Vec<(String, u128)> = (0..25).map(|i| (format!("h{i}"), i % 4)).collect();
    let lines = render_toc(&toc, Mode::ExtractOnly);
    assert_eq!(lines.len(), toc.len());
    for (line, (label, level)) in lines.iter().zip(toc.iter()) {
        assert_eq!(line, &format!("{}* {}", "  ".repeat(*level as usize), label));
    }
}

#[test]
fn entry_is_indented_by_two_spaces_for_each_level() {
    assert_eq!(render_entry("x", 0, Mode::ExtractOnly), "* x");
    assert_eq!(render_entry("x", 1, Mode::ExtractOnly), "  * x");
    assert_eq!(render_entry("x", 3, Mode::ExtractOnly), "      * x");
    assert_eq!(render_entry("X y", 2, Mode::InjectAnchors), "    * [X y](#x-y)");
    for level in 0..50usize {
        let line = render_entry("x", level as u128, Mode::ExtractOnly);
        assert_eq!(line.len(), 2 * level + 3);
        assert!(line[..2 * level].chars().all(|c| c == ' '));
    }
}

#[test]
fn entry_shows_the_label_as_it_is() {
    assert_eq!(render_entry("[odd](label)", 0, Mode::ExtractOnly), "* [odd](label)");
    assert_eq!(render_entry("", 0, Mode::ExtractOnly), "* ");
    assert_eq!(render_entry("", 0, Mode::InjectAnchors), "* [](#)");
}
