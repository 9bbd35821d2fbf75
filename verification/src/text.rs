//! Character and string vocabulary shared by the rest of the crate.

use vstd::prelude::*;
use vstd::string::StrSliceExecFns;
use vstd::utf8::is_ascii_chars;

verus! {

/// Whether `c` is white space: one of the characters that carry Unicode's
/// `White_Space` property.
pub open spec fn is_whitespace(c: char) -> bool {
    ||| '\u{9}' <= c <= '\u{d}'
    ||| c == ' '
    ||| c == '\u{85}'
    ||| c == '\u{a0}'
    ||| c == '\u{1680}'
    ||| '\u{2000}' <= c <= '\u{200a}'
    ||| c == '\u{2028}'
    ||| c == '\u{2029}'
    ||| c == '\u{202f}'
    ||| c == '\u{205f}'
    ||| c == '\u{3000}'
}

/// `s` without its leading white space.
pub open spec fn trim_start(s: Seq<char>) -> Seq<char>
    decreases s.len(),
{
    if s.len() > 0 && is_whitespace(s[0]) {
        trim_start(s.drop_first())
    } else {
        s
    }
}

/// `s` without its trailing white space.
pub open spec fn trim_end(s: Seq<char>) -> Seq<char>
    decreases s.len(),
{
    if s.len() > 0 && is_whitespace(s.last()) {
        trim_end(s.drop_last())
    } else {
        s
    }
}

/// `s` without the white space on either side.
pub open spec fn trimmed(s: Seq<char>) -> Seq<char> {
    trim_end(trim_start(s))
}

/// Leading white space ends at `count` where the first `count` characters
/// are white space and the next one is not.
pub proof fn lemma_trim_start(s: Seq<char>, count: nat)
    requires
        count <= s.len(),
        forall|i: int| 0 <= i < count ==> is_whitespace(s[i]),
        count < s.len() ==> !is_whitespace(s[count as int]),
    ensures
        trim_start(s) == s.skip(count as int),
    decreases count,
{
    if count > 0 {
        lemma_trim_start(s.drop_first(), (count - 1) as nat);
    }
}

/// Trailing white space starts at `count` where every character from there
/// on is white space and the one before is not.
pub proof fn lemma_trim_end(s: Seq<char>, count: nat)
    requires
        count <= s.len(),
        forall|i: int| count <= i < s.len() ==> is_whitespace(s[i]),
        count > 0 ==> !is_whitespace(s[count - 1]),
    ensures
        trim_end(s) == s.take(count as int),
    decreases s.len() - count,
{
    if count < s.len() {
        lemma_trim_end(s.drop_last(), count);
    }
}

/// White space in front of a text is trimmed away with the text's own.
pub proof fn lemma_trim_start_space(space: Seq<char>, text: Seq<char>)
    requires
        forall|i: int| 0 <= i < space.len() ==> is_whitespace(space[i]),
    ensures
        trim_start(space + text) == trim_start(text),
        trimmed(space + text) == trimmed(text),
    decreases space.len(),
{
    if space.len() > 0 {
        assert((space + text).drop_first() == space.drop_first() + text);
        lemma_trim_start_space(space.drop_first(), text);
    }
}

/// Whether `c` is white space.
pub fn is_space(c: char) -> (space: bool)
    ensures
        space == is_whitespace(c),
{
    ('\u{9}' <= c && c <= '\u{d}')
        || c == ' '
        || c == '\u{85}'
        || c == '\u{a0}'
        || c == '\u{1680}'
        || ('\u{2000}' <= c && c <= '\u{200a}')
        || c == '\u{2028}'
        || c == '\u{2029}'
        || c == '\u{202f}'
        || c == '\u{205f}'
        || c == '\u{3000}'
}

/// The slice of `s` that is left once the white space on both sides is gone.
pub fn trim(s: &str) -> (inner: &str)
    ensures
        inner@ == trimmed(s@),
{
    let len = s.unicode_len();
    let mut start: usize = 0;
    let mut end: usize = 0;
    let mut at: usize = 0;
    for c in it: s.chars()
        invariant
            it.seq() == s@,
            len == s@.len(),
            at == it.index(),
            start <= end <= at,
            forall|i: int| 0 <= i < start ==> is_whitespace(s@[i]),
            forall|i: int| end <= i < at ==> is_whitespace(s@[i]),
            start < end ==> !is_whitespace(s@[start as int]) && !is_whitespace(s@[end - 1]),
            start == end ==> start == at,
    {
        if !is_space(c) {
            end = at + 1;
        } else if start == end {
            start = at + 1;
            end = at + 1;
        }
        at += 1;
    }
    proof {
        let rest = s@.skip(start as int);
        lemma_trim_start(s@, start as nat);
        lemma_trim_end(rest, (end - start) as nat);
        assert(rest.take(end - start) == s@.subrange(start as int, end as int));
    }
    s.substring_char(start, end)
}

/// Whether `needle` occurs in `haystack` as a contiguous run of characters.
pub open spec fn is_substring(needle: Seq<char>, haystack: Seq<char>) -> bool {
    exists|i: int|
        0 <= i && i + needle.len() <= haystack.len() && #[trigger] haystack.subrange(
            i,
            i + needle.len(),
        ) == needle
}

/// `str::contains` with a string pattern: whether `needle` matches a
/// sub-slice of `haystack`.
#[verifier::external_body]
pub(crate) fn contains(haystack: &str, needle: &str) -> (found: bool)
    ensures
        found == is_substring(needle@, haystack@),
{
    haystack.contains(needle)
}

/// What `str::to_lowercase` returns for a string of these characters.
pub uninterp spec fn lowercase(s: Seq<char>) -> Seq<char>;

/// `A` to `Z` mapped to `a` to `z`, every other character kept.
pub open spec fn ascii_lower(c: char) -> char {
    if 'A' <= c <= 'Z' {
        ((c as u8) + 32) as char
    } else {
        c
    }
}

/// `str::to_lowercase`: the lowercase equivalent of `s` by Unicode's case
/// mapping. The mapping as a whole is only named; of a string of ASCII
/// characters it changes `A` to `Z` into `a` to `z` and nothing else.
#[verifier::external_body]
pub(crate) fn to_lowercase(s: &str) -> (r: String)
    ensures
        r@ == lowercase(s@),
        is_ascii_chars(s@) ==> r@ == s@.map_values(|c: char| ascii_lower(c)),
{
    s.to_lowercase()
}

/// `String::push`: appends `c` to the end of `s`.
pub assume_specification[ String::push ](s: &mut String, c: char)
    ensures
        final(s)@ == old(s)@.push(c),
;

} // verus!
