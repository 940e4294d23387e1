use vstd::prelude::*;

verus! {

/// Index of the first element of `s` that `wanted` holds of; the length of
/// `s` where it holds of none.
pub open spec fn first_match<A>(s: Seq<A>, wanted: spec_fn(A) -> bool) -> int
    decreases s.len(),
{
    if s.len() == 0 {
        0
    } else if wanted(s[0]) {
        0
    } else {
        1 + first_match(s.drop_first(), wanted)
    }
}

/// The first match is in range, is a match where there is one, and has no
/// match before it.
pub proof fn lemma_first_match<A>(s: Seq<A>, wanted: spec_fn(A) -> bool)
    ensures
        0 <= first_match(s, wanted) <= s.len(),
        first_match(s, wanted) < s.len() ==> wanted(s[first_match(s, wanted)]),
        forall|j: int| 0 <= j < first_match(s, wanted) ==> !wanted(#[trigger] s[j]),
    decreases s.len(),
{
    if s.len() > 0 && !wanted(s[0]) {
        let rest = s.drop_first();
        lemma_first_match(rest, wanted);
        let r = first_match(rest, wanted);
        assert forall|j: int| 0 <= j < 1 + r implies !wanted(#[trigger] s[j]) by {
            if j > 0 {
                assert(rest[j - 1] == s[j]);
            }
        }
        if r < rest.len() {
            assert(rest[r] == s[r + 1]);
        }
    }
}

/// An index at which a match or the end stands, with no match before it, is
/// that of the first match.
pub proof fn lemma_first_match_is<A>(s: Seq<A>, wanted: spec_fn(A) -> bool, i: int)
    requires
        0 <= i <= s.len(),
        forall|j: int| 0 <= j < i ==> !wanted(#[trigger] s[j]),
        i < s.len() ==> wanted(s[i]),
    ensures
        first_match(s, wanted) == i,
{
    lemma_first_match(s, wanted);
}

} // verus!
