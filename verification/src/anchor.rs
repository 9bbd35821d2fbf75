//! Anchor identifiers derived from heading labels.

use vstd::prelude::*;
use vstd::utf8::is_ascii_chars;
use crate::text::{ascii_lower, lowercase, to_lowercase};

verus! {

/// Whether `c` is an ASCII letter or digit.
pub open spec fn is_ascii_alphanumeric(c: char) -> bool {
    ('a' <= c <= 'z') || ('A' <= c <= 'Z') || ('0' <= c <= '9')
}

/// The character that stands for `c` in an anchor: `c` itself where it is an
/// ASCII letter or digit, a hyphen otherwise.
pub open spec fn anchor_char(c: char) -> char {
    if is_ascii_alphanumeric(c) {
        c
    } else {
        '-'
    }
}

/// `s` with every character replaced by its anchor character.
pub open spec fn hyphenated(s: Seq<char>) -> Seq<char> {
    s.map_values(|c: char| anchor_char(c))
}

/// The anchor identifier of a heading label: the label in lower case, with a
/// hyphen for every character that is not an ASCII letter or digit.
pub open spec fn slug(label: Seq<char>) -> Seq<char> {
    hyphenated(lowercase(label))
}

/// Whether every character of `label` is a lower-case ASCII letter, a digit
/// or a hyphen.
pub open spec fn is_slug(label: Seq<char>) -> bool {
    forall|i: int|
        0 <= i < label.len() ==> {
            let c = #[trigger] label[i];
            ('a' <= c <= 'z') || ('0' <= c <= '9') || c == '-'
        }
}

/// The character that stands for `c` in an anchor.
pub fn to_anchor_char(c: char) -> (kept: char)
    ensures
        kept == anchor_char(c),
{
    if ('a' <= c && c <= 'z') || ('A' <= c && c <= 'Z') || ('0' <= c && c <= '9') {
        c
    } else {
        '-'
    }
}

/// Replaces every character of `lowered` that is not an ASCII letter or digit
/// by a hyphen.
pub fn anchor_from_lowercase(lowered: &str) -> (anchor: String)
    ensures
        anchor@ == hyphenated(lowered@),
{
    let mut anchor = String::new();
    for c in it: lowered.chars()
        invariant
            it.seq() == lowered@,
            anchor@ == hyphenated(lowered@.take(it.index() as int)),
    {
        anchor.push(to_anchor_char(c));
    }
    anchor
}

/// Derives the anchor identifier of a heading label. A label of ASCII
/// characters has its letters in lower case and a hyphen for whatever is
/// neither a letter nor a digit; one that is a slug already is its own anchor.
pub fn heading_anchor(heading: &str) -> (anchor: String)
    ensures
        anchor@ == slug(heading@),
        is_ascii_chars(heading@) ==> anchor@ == heading@.map_values(
            |c: char| anchor_char(ascii_lower(c)),
        ),
        is_slug(heading@) ==> anchor@ == heading@,
{
    let lowered = to_lowercase(heading);
    anchor_from_lowercase(lowered.as_str())
}

} // verus!
