//! Facts about flattened sequences of sequences.

use vstd::prelude::*;

verus! {

/// Every element of every part occurs in the flattened whole.
pub proof fn lemma_flatten_holds_parts<A>(parts: Seq<Seq<A>>, part: int, at: int)
    requires
        0 <= part < parts.len(),
        0 <= at < parts[part].len(),
    ensures
        parts.flatten().contains(parts[part][at]),
    decreases parts.len(),
{
    let front = parts.drop_last();
    let whole = parts.flatten();
    assert(parts == front.push(parts.last()));
    front.lemma_flatten_push(parts.last());
    if part == parts.len() - 1 {
        assert(whole[front.flatten().len() + at] == parts[part][at]);
    } else {
        lemma_flatten_holds_parts(front, part, at);
        let found = choose|i: int|
            0 <= i < front.flatten().len() && front.flatten()[i] == front[part][at];
        assert(whole[found] == parts[part][at]);
    }
}

/// A flattened whole without elements has no part with elements.
pub proof fn lemma_flatten_empty<A>(parts: Seq<Seq<A>>, part: int)
    requires
        parts.flatten().len() == 0,
        0 <= part < parts.len(),
    ensures
        parts[part].len() == 0,
{
    parts.lemma_flatten_and_flatten_alt_are_equivalent();
    parts.lemma_flatten_length_ge_single_element_length(part);
}

} // verus!
