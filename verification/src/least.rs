//! The first position at which a property holds.

use vstd::prelude::*;

verus! {

/// Whether `i` is the least position below `n` at which `p` holds.
pub open spec fn is_least(p: spec_fn(int) -> bool, n: int, i: int) -> bool {
    &&& 0 <= i < n
    &&& p(i)
    &&& forall|m: int| 0 <= m < i ==> !#[trigger] p(m)
}

/// The least position below `n` at which `p` holds, if there is one.
pub open spec fn least(p: spec_fn(int) -> bool, n: int) -> Option<int> {
    if exists|i: int| is_least(p, n, i) {
        Some(choose|i: int| is_least(p, n, i))
    } else {
        None
    }
}

/// A position at which `p` holds, and below which it does not, is the least.
pub proof fn lemma_least_found(p: spec_fn(int) -> bool, n: int, i: int)
    requires
        is_least(p, n, i),
    ensures
        least(p, n) == Some(i),
{
    let c = choose|c: int| is_least(p, n, c);
    assert(is_least(p, n, c));
    if c < i {
        assert(!p(c));
    }
    if i < c {
        assert(!p(i));
    }
}

/// Where `p` holds nowhere below `n`, there is no least position.
pub proof fn lemma_least_absent(p: spec_fn(int) -> bool, n: int)
    requires
        forall|m: int| 0 <= m < n ==> !#[trigger] p(m),
    ensures
        least(p, n) is None,
{
    if exists|i: int| is_least(p, n, i) {
        let c = choose|c: int| is_least(p, n, c);
        assert(!p(c));
    }
}

/// What `least` gives: a position at which `p` holds first, or nothing where
/// `p` holds nowhere.
pub proof fn lemma_least(p: spec_fn(int) -> bool, n: int)
    ensures
        match least(p, n) {
            Some(i) => is_least(p, n, i),
            None => forall|m: int| 0 <= m < n ==> !#[trigger] p(m),
        },
{
    if least(p, n) is None {
        assert forall|m: int| 0 <= m < n implies !#[trigger] p(m) by {
            if p(m) {
                lemma_least_below(p, n, m);
            }
        }
    }
}

/// Where `p` holds at a position below `n`, a least one exists.
pub proof fn lemma_least_below(p: spec_fn(int) -> bool, n: int, i: int)
    requires
        0 <= i < n,
        p(i),
    ensures
        exists|c: int| is_least(p, n, c),
    decreases i,
{
    if exists|m: int| 0 <= m < i && #[trigger] p(m) {
        let m = choose|m: int| 0 <= m < i && #[trigger] p(m);
        lemma_least_below(p, n, m);
    } else {
        assert(is_least(p, n, i));
    }
}

} // verus!
