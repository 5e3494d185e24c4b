//! Selections over rows: the first row in an order, and counts.

use vstd::prelude::*;

verus! {

/// The position of the kept element that comes before every other kept one.
/// Of two kept elements neither of which comes before the other, the one that
/// stands first.
pub open spec fn first_by<T>(
    s: Seq<T>,
    keep: spec_fn(T) -> bool,
    before: spec_fn(T, T) -> bool,
) -> Option<int>
    decreases s.len(),
{
    if s.len() == 0 {
        None
    } else {
        let last = s.last();
        match first_by(s.drop_last(), keep, before) {
            None => if keep(last) {
                Some(s.len() - 1)
            } else {
                None
            },
            Some(k) => if keep(last) && before(last, s[k]) {
                Some(s.len() - 1)
            } else {
                Some(k)
            },
        }
    }
}

/// A strict order in which any two different ranks are comparable.
pub open spec fn strict_order<T>(before: spec_fn(T, T) -> bool) -> bool {
    &&& forall|a: T| !#[trigger] before(a, a)
    &&& forall|a: T, b: T, c: T| #[trigger]
        before(a, b) && #[trigger] before(b, c) ==> before(a, c)
    &&& forall|a: T, b: T, c: T| #[trigger]
        before(a, c) && !#[trigger] before(b, c) ==> before(a, b)
}

/// `first_by` finds a kept element, none kept comes before it, and it finds
/// one whenever one is kept.
pub proof fn lemma_first_by<T>(
    s: Seq<T>,
    keep: spec_fn(T) -> bool,
    before: spec_fn(T, T) -> bool,
)
    requires
        strict_order(before),
    ensures
        match first_by(s, keep, before) {
            Some(k) => 0 <= k < s.len() && keep(s[k]) && (forall|j: int|
                0 <= j < s.len() && keep(#[trigger] s[j]) ==> !before(s[j], s[k])),
            None => forall|j: int| 0 <= j < s.len() ==> !keep(#[trigger] s[j]),
        },
    decreases s.len(),
{
    if s.len() > 0 {
        let front = s.drop_last();
        lemma_first_by(front, keep, before);
        assert forall|j: int| 0 <= j < front.len() implies front[j] == #[trigger] s[j] by {}
        match first_by(front, keep, before) {
            None => {},
            Some(k) => {
                assert(front[k] == s[k]);
                if keep(s.last()) && before(s.last(), s[k]) {
                    assert forall|j: int| 0 <= j < s.len() && keep(#[trigger] s[j]) implies !before(
                        s[j],
                        s.last(),
                    ) by {
                        if j < front.len() {
                            assert(keep(front[j]));
                            if before(s[j], s.last()) {
                                assert(before(s[j], s[k]));
                            }
                        }
                    }
                } else {
                    assert forall|j: int| 0 <= j < s.len() && keep(#[trigger] s[j]) implies !before(
                        s[j],
                        s[k],
                    ) by {
                        if j < front.len() {
                            assert(keep(front[j]));
                        }
                    }
                }
            },
        }
    }
}

/// The position that `first_by` gives is one of the sequence.
pub proof fn lemma_first_by_index<T>(
    s: Seq<T>,
    keep: spec_fn(T) -> bool,
    before: spec_fn(T, T) -> bool,
)
    ensures
        match first_by(s, keep, before) {
            Some(k) => 0 <= k < s.len() && keep(s[k]),
            None => forall|j: int| 0 <= j < s.len() ==> !keep(#[trigger] s[j]),
        },
    decreases s.len(),
{
    if s.len() > 0 {
        let front = s.drop_last();
        lemma_first_by_index(front, keep, before);
        assert forall|j: int| 0 <= j < front.len() implies front[j] == #[trigger] s[j] by {}
    }
}

/// How many elements are kept.
pub open spec fn count_where<T>(s: Seq<T>, keep: spec_fn(T) -> bool) -> nat
    decreases s.len(),
{
    if s.len() == 0 {
        0
    } else {
        count_where(s.drop_last(), keep) + if keep(s.last()) {
            1nat
        } else {
            0nat
        }
    }
}

pub proof fn lemma_count_where<T>(s: Seq<T>, keep: spec_fn(T) -> bool)
    ensures
        count_where(s, keep) <= s.len(),
    decreases s.len(),
{
    if s.len() > 0 {
        lemma_count_where(s.drop_last(), keep);
    }
}

} // verus!
