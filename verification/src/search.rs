//! Searching a sequence from a position on.

use vstd::prelude::*;

verus! {

/// The first position from `from` on whose element has the property.
pub open spec fn first_where<A>(s: Seq<A>, from: int, property: spec_fn(A) -> bool) -> Option<int>
    decreases s.len() - from,
{
    if from >= s.len() {
        None
    } else if property(s[from]) {
        Some(from)
    } else {
        first_where(s, from + 1, property)
    }
}

/// `first_where` gives a position that has the property, with none before it that has, and
/// gives none only where no position has.
pub proof fn lemma_first_where<A>(s: Seq<A>, from: int, property: spec_fn(A) -> bool)
    requires
        0 <= from,
    ensures
        match first_where(s, from, property) {
            Some(found) => {
                &&& from <= found < s.len()
                &&& property(s[found])
                &&& forall|i: int| from <= i < found ==> !property(#[trigger] s[i])
            },
            None => forall|i: int| from <= i < s.len() ==> !property(#[trigger] s[i]),
        },
    decreases s.len() - from,
{
    if from < s.len() && !property(s[from]) {
        lemma_first_where(s, from + 1, property);
    }
}

/// A position that has the property, with none before it that has, is the one that `first_where`
/// gives.
pub proof fn lemma_first_where_is<A>(s: Seq<A>, from: int, property: spec_fn(A) -> bool, found: int)
    requires
        0 <= from <= found < s.len(),
        property(s[found]),
        forall|i: int| from <= i < found ==> !property(#[trigger] s[i]),
    ensures
        first_where(s, from, property) == Some(found),
{
    lemma_first_where(s, from, property);
}

/// Where no position has the property, `first_where` gives none.
pub proof fn lemma_first_where_none<A>(s: Seq<A>, from: int, property: spec_fn(A) -> bool)
    requires
        0 <= from,
        forall|i: int| from <= i < s.len() ==> !property(#[trigger] s[i]),
    ensures
        first_where(s, from, property) is None,
{
    lemma_first_where(s, from, property);
}

} // verus!
