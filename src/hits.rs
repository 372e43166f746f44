//! Choosing the nearest forward crossing among candidate hits.
//!
//! A hit is described by an order key: a `u64` whose integer order is the
//! order of the distances along the ray (for a non-negative IEEE double the
//! bit pattern has this property). `None` marks a candidate that was missed.

use vstd::prelude::*;

verus! {

/// `i` holds a hit whose key is no larger than any other hit's key, and
/// strictly smaller than the key of every earlier hit: the first of the
/// nearest hits.
pub open spec fn is_nearest(hits: Seq<Option<u64>>, i: int) -> bool {
    &&& 0 <= i < hits.len()
    &&& hits[i] is Some
    &&& forall|j: int|
        0 <= j < hits.len() && hits[j] is Some ==> hits[i]->0 <= hits[j]->0
    &&& forall|j: int| 0 <= j < i && hits[j] is Some ==> hits[i]->0 < hits[j]->0
}

/// Some candidate is a hit.
pub open spec fn any_hit(hits: Seq<Option<u64>>) -> bool {
    exists|j: int| 0 <= j < hits.len() && hits[j] is Some
}

/// Index of the nearest hit, the earliest one on an exact tie; `None` when
/// every candidate missed.
pub fn nearest_hit(hits: &[Option<u64>]) -> (r: Option<usize>)
    ensures
        r is None <==> !any_hit(hits@),
        r matches Some(i) ==> is_nearest(hits@, i as int),
{
    let mut best: Option<usize> = None;
    let mut i: usize = 0;
    while i < hits.len()
        invariant
            i <= hits@.len(),
            best is None <==> (forall|j: int| 0 <= j < i ==> hits@[j] is None),
            best matches Some(b) ==> is_nearest(hits@.subrange(0, i as int), b as int),
        decreases hits@.len() - i,
    {
        if let Some(t) = hits[i] {
            match best {
                None => {
                    best = Some(i);
                },
                Some(b) => {
                    if let Some(bt) = hits[b] {
                        if t < bt {
                            best = Some(i);
                        }
                    }
                },
            }
        }
        proof {
            let p = hits@.subrange(0, i as int);
            let q = hits@.subrange(0, i + 1);
            assert forall|j: int| 0 <= j < i implies q[j] == p[j] by {}
            assert(q[i as int] == hits@[i as int]);
        }
        i = i + 1;
    }
    proof {
        assert(hits@.subrange(0, hits@.len() as int) =~= hits@);
        if best is None {
            assert(!any_hit(hits@));
        }
    }
    best
}

/// Whether any candidate is a hit: the shadow test asks only this.
pub fn has_hit(hits: &[Option<u64>]) -> (r: bool)
    ensures
        r == any_hit(hits@),
{
    nearest_hit(hits).is_some()
}

} // verus!
