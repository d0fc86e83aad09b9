//! The least position with a property, as the searches of this crate find
//! it.
use vstd::prelude::*;

verus! {

/// The least position in `[lo, hi)` with property `p`, or `None` when no
/// position there has it.
pub open spec fn least_index(p: spec_fn(int) -> bool, lo: int, hi: int) -> Option<int> {
    if exists|i: int| lo <= i < hi && #[trigger] p(i) {
        Some(choose|i: int| lo <= i < hi && #[trigger] p(i) && forall|j: int| lo <= j < i ==> !#[trigger] p(j))
    } else {
        None
    }
}

/// If position `w` in `[lo, hi)` has property `p`, a least position in
/// `[lo, hi)` does.
pub proof fn lemma_least_witness(p: spec_fn(int) -> bool, lo: int, hi: int, w: int) -> (m: int)
    requires
        lo <= w < hi,
        p(w),
    ensures
        lo <= m <= w,
        p(m),
        forall|j: int| lo <= j < m ==> !#[trigger] p(j),
    decreases w - lo,
{
    if p(lo) {
        lo
    } else {
        lemma_least_witness(p, lo + 1, hi, w)
    }
}

/// What [`least_index`] finds: a position with the property and none
/// before it, or, when it finds none, no position with the property.
pub proof fn lemma_least_index(p: spec_fn(int) -> bool, lo: int, hi: int)
    ensures
        match least_index(p, lo, hi) {
            Some(m) => lo <= m < hi && p(m) && forall|j: int| lo <= j < m ==> !#[trigger] p(j),
            None => forall|i: int| lo <= i < hi ==> !#[trigger] p(i),
        },
{
    if exists|i: int| lo <= i < hi && #[trigger] p(i) {
        let w = choose|i: int| lo <= i < hi && #[trigger] p(i);
        let m = lemma_least_witness(p, lo, hi, w);
        assert(lo <= m < hi && p(m) && forall|j: int| lo <= j < m ==> !#[trigger] p(j));
    }
}

/// A position with the property and none before it is what
/// [`least_index`] finds.
pub proof fn lemma_least_index_is(p: spec_fn(int) -> bool, lo: int, hi: int, i: int)
    requires
        lo <= i < hi,
        p(i),
        forall|j: int| lo <= j < i ==> !#[trigger] p(j),
    ensures
        least_index(p, lo, hi) == Some(i),
{
    lemma_least_index(p, lo, hi);
    let m = least_index(p, lo, hi).unwrap();
    if m < i {
        assert(!p(m));
    } else if m > i {
        assert(!p(i));
    }
}

} // verus!
