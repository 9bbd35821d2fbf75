//! The renderer: one line of the table of contents for each heading record.

use vstd::prelude::*;
use vstd::string::StringExecFns;
use crate::anchor::{heading_anchor, slug};
use crate::document::{lines_of, records_of};
use crate::mode::Mode;

verus! {

/// The indentation of an entry at `level`: two spaces for each level.
pub open spec fn indent(level: nat) -> Seq<char> {
    Seq::new(2 * level, |i: int| ' ')
}

/// What an entry shows for the heading `label`: the label itself, or a link
/// from the label to the heading's anchor.
pub open spec fn toc_label(mode: Mode, label: Seq<char>) -> Seq<char> {
    match mode {
        Mode::ExtractOnly => label,
        Mode::InjectAnchors => "["@ + label + "](#"@ + slug(label) + ")"@,
    }
}

/// The entry for one heading record.
pub open spec fn toc_line(mode: Mode, record: (Seq<char>, nat)) -> Seq<char> {
    indent(record.1) + "* "@ + toc_label(mode, record.0)
}

/// The table of contents for `records`: one entry for each, in order.
pub open spec fn toc_lines(mode: Mode, records: Seq<(Seq<char>, nat)>) -> Seq<Seq<char>> {
    records.map_values(|record: (Seq<char>, nat)| toc_line(mode, record))
}

/// Renders the entry for the heading `label` at `level`.
pub fn render_entry(label: &str, level: u128, mode: Mode) -> (line: String)
    ensures
        line@ == toc_line(mode, (label@, level as nat)),
{
    let mut line = String::new();
    for done in 0..level
        invariant
            line@ == indent(done as nat),
    {
        proof {
            reveal_strlit("  ");
        }
        line.append("  ");
    }
    line.append("* ");
    match mode {
        Mode::ExtractOnly => {
            line.append(label);
        },
        Mode::InjectAnchors => {
            let anchor = heading_anchor(label);
            line.append("[");
            line.append(label);
            line.append("](#");
            line.append(anchor.as_str());
            line.append(")");
        },
    }
    line
}

/// Renders the table of contents for `toc` in the given mode.
pub fn render_toc(toc: &[(String, u128)], mode: Mode) -> (lines: Vec<String>)
    ensures
        lines.len() == toc.len(),
        lines_of(lines@) == toc_lines(mode, records_of(toc@)),
{
    let mut lines: Vec<String> = Vec::new();
    for at in 0..toc.len()
        invariant
            lines.len() == at,
            lines_of(lines@) == toc_lines(mode, records_of(toc@.take(at as int))),
    {
        let ghost before = lines@;
        let line = render_entry(toc[at].0.as_str(), toc[at].1, mode);
        lines.push(line);
        assert(lines_of(lines@) == lines_of(before).push(line@));
    }
    lines
}

/// Renders the table of contents for `toc` with every entry a link to its
/// heading's anchor.
pub fn generate_toc(toc: &[(String, u128)]) -> (lines: Vec<String>)
    ensures
        lines.len() == toc.len(),
        lines_of(lines@) == toc_lines(Mode::InjectAnchors, records_of(toc@)),
{
    render_toc(toc, Mode::InjectAnchors)
}

} // verus!
