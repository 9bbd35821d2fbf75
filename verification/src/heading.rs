//! Recognition of heading lines.

use vstd::prelude::*;
use vstd::string::StrSliceExecFns;
use crate::text::{is_whitespace, lemma_trim_start_space, trim, trimmed};

verus! {

/// The number of `#` characters that `line` starts with.
pub open spec fn hash_run(line: Seq<char>) -> nat
    decreases line.len(),
{
    if line.len() > 0 && line[0] == '#' {
        1 + hash_run(line.drop_first())
    } else {
        0
    }
}

/// The label and the level of `line` where it is a heading: a run of one or
/// more `#`, followed by text that is not blank.
pub open spec fn heading_of(line: Seq<char>) -> Option<(Seq<char>, nat)> {
    let level = hash_run(line);
    let label = trimmed(line.skip(level as int));
    if level == 0 || label.len() == 0 {
        None
    } else {
        Some((label, level))
    }
}

/// The run of `#` at the start of a line is as long as the line's first
/// `count` characters where these are all `#` and the next one is not.
pub proof fn lemma_hash_run(line: Seq<char>, count: nat)
    requires
        count <= line.len(),
        forall|i: int| 0 <= i < count ==> line[i] == '#',
        count < line.len() ==> line[count as int] != '#',
    ensures
        hash_run(line) == count,
    decreases count,
{
    if count > 0 {
        lemma_hash_run(line.drop_first(), (count - 1) as nat);
    }
}

/// A line of `level` times `#`.
pub open spec fn hashes(level: nat) -> Seq<char> {
    Seq::new(level, |i: int| '#')
}

/// One or more `#` in front of a text that is not blank, and that does not
/// itself go on with `#`, make a heading: its level is the number of the `#`,
/// and its label is the text without the white space around it.
pub proof fn lemma_heading_level(level: nat, text: Seq<char>)
    requires
        level >= 1,
        trimmed(text).len() > 0,
        text.len() > 0 ==> text[0] != '#',
    ensures
        heading_of(hashes(level) + text) == Some((trimmed(text), level)),
{
    let line = hashes(level) + text;
    lemma_hash_run(line, level);
    assert(line.skip(level as int) == text);
}

/// White space between the `#` and the text makes no difference.
pub proof fn lemma_space_after_hashes(level: nat, space: Seq<char>, text: Seq<char>)
    requires
        forall|i: int| 0 <= i < space.len() ==> is_whitespace(space[i]),
        text.len() > 0 ==> text[0] != '#',
    ensures
        heading_of(hashes(level) + space + text) == heading_of(hashes(level) + text),
{
    let spaced = hashes(level) + space + text;
    let close = hashes(level) + text;
    lemma_hash_run(spaced, level);
    lemma_hash_run(close, level);
    assert(spaced.skip(level as int) == space + text);
    assert(close.skip(level as int) == text);
    lemma_trim_start_space(space, text);
}

/// A line of nothing but `#` is no heading.
pub proof fn lemma_hashes_alone(level: nat)
    ensures
        heading_of(hashes(level)) is None,
{
    lemma_hash_run(hashes(level), level);
}

/// Splits a heading line into its label and its level.
pub fn heading_level(line: &str) -> (r: Option<(&str, usize)>)
    ensures
        match heading_of(line@) {
            Some((label, level)) => r matches Some((t, l)) && t@ == label && l == level,
            None => r is None,
        },
{
    let n = line.unicode_len();
    let mut level: usize = 0;
    while level < n && line.get_char(level) == '#'
        invariant
            n == line@.len(),
            level <= n,
            forall|i: int| 0 <= i < level ==> line@[i] == '#',
        decreases n - level,
    {
        level += 1;
    }
    proof {
        lemma_hash_run(line@, level as nat);
    }
    if level == 0 {
        return None;
    }
    let label = trim(line.substring_char(level, n));
    if label.is_empty() {
        None
    } else {
        Some((label, level))
    }
}

} // verus!
