//! The nearest of several hits along one ray.
use vstd::prelude::*;
use crate::scalar::Scalar;

verus! {

/// Two hits could not be told apart by distance: one of several hits has a
/// ray parameter that is not a number.
#[derive(Debug, Clone, Copy, PartialEq, Eq, Structural)]
pub struct Incomparable;

/// Number of candidates that have a hit, among the first `upto`.
spec fn count_hits(hits: Seq<Option<Scalar>>, upto: int) -> int
    decreases upto,
{
    if upto <= 0 {
        0
    } else {
        count_hits(hits, upto - 1) + if hits[upto - 1] is Some {
            1int
        } else {
            0int
        }
    }
}

/// Every hit is a number. A hit without rivals need not be: nothing is
/// compared with it.
pub open spec fn comparable(hits: Seq<Option<Scalar>>) -> bool {
    forall|i: int, j: int|
        0 <= i < hits.len() && 0 <= j < hits.len() && i != j && hits[i] is Some && hits[j] is Some
            ==> (#[trigger] hits[i]).unwrap() is Num && (#[trigger] hits[j]).unwrap() is Num
}

/// Candidate `i` has the nearest hit: no other hit has a smaller ray
/// parameter, and every hit of a candidate before it has a larger one.
pub open spec fn is_nearest(hits: Seq<Option<Scalar>>, i: int) -> bool {
    &&& 0 <= i < hits.len()
    &&& hits[i] is Some
    &&& forall|j: int|
        0 <= j < hits.len() && j != i && (#[trigger] hits[j]) is Some ==> hits[i].unwrap().spec_le(
            hits[j].unwrap(),
        )
    &&& forall|j: int|
        0 <= j < i && (#[trigger] hits[j]) is Some ==> hits[i].unwrap().spec_lt(hits[j].unwrap())
}

/// No candidate has a hit.
pub open spec fn all_missed(hits: Seq<Option<Scalar>>) -> bool {
    forall|j: int| 0 <= j < hits.len() ==> (#[trigger] hits[j]) is None
}

/// Picks the nearest hit on a ray. `hits` holds, for each candidate in the
/// order of the scan, the ray parameter of its hit, or `None` where the ray
/// misses it. The result is the place of the candidate whose hit comes
/// first; among hits at the same parameter the earliest candidate wins.
pub fn nearest(hits: &Vec<Option<Scalar>>) -> (found: Result<Option<usize>, Incomparable>)
    ensures
        found is Err <==> !comparable(hits@),
        found matches Ok(None) ==> all_missed(hits@),
        found matches Ok(Some(i)) ==> is_nearest(hits@, i as int),
{
    let mut best: Option<usize> = None;
    let mut first: Option<usize> = None;
    let mut nan: Option<usize> = None;
    let mut several = false;
    let mut k: usize = 0;
    while k < hits.len()
        invariant
            k <= hits.len(),
            first is None <==> count_hits(hits@, k as int) == 0,
            first matches Some(i) ==> i < k && hits@[i as int] is Some,
            several <==> count_hits(hits@, k as int) >= 2,
            nan is None <==> forall|j: int| 0 <= j < k ==> !is_nan_hit(#[trigger] hits@[j]),
            nan matches Some(i) ==> i < k && is_nan_hit(hits@[i as int]),
            best is None <==> forall|j: int| 0 <= j < k ==> !is_number_hit(#[trigger] hits@[j]),
            best matches Some(i) ==> {
                &&& i < k
                &&& is_number_hit(hits@[i as int])
                &&& forall|j: int|
                    0 <= j < k && is_number_hit(#[trigger] hits@[j]) ==> hits@[i as int].unwrap().key()
                        <= hits@[j].unwrap().key()
                &&& forall|j: int|
                    0 <= j < i && is_number_hit(#[trigger] hits@[j]) ==> hits@[i as int].unwrap().key()
                        < hits@[j].unwrap().key()
            },
        decreases hits.len() - k,
    {
        proof {
            lemma_count_hits(hits@, k as int);
        }
        match hits[k] {
            None => {},
            Some(t) => {
                if first.is_some() {
                    several = true;
                } else {
                    first = Some(k);
                }
                match t {
                    Scalar::Nan => {
                        nan = Some(k);
                    },
                    Scalar::Num(key) => {
                        match best {
                            None => {
                                best = Some(k);
                            },
                            Some(i) => {
                                if let Some(Scalar::Num(least)) = hits[i] {
                                    if key < least {
                                        best = Some(k);
                                    }
                                }
                            },
                        }
                    },
                }
            },
        }
        k = k + 1;
    }
    match nan {
        Some(n) => {
            if several {
                proof {
                    if comparable(hits@) {
                        assert forall|j: int| 0 <= j < hits@.len() && j != n implies hits@[j]
                            is None by {
                            if hits@[j] is Some {
                                assert(hits@[n as int].unwrap() is Num);
                            }
                        }
                        lemma_single_hit(hits@, hits@.len() as int, n as int);
                    }
                }
                Err(Incomparable)
            } else {
                proof {
                    assert forall|j: int| 0 <= j < hits@.len() && j != n implies (
                    #[trigger] hits@[j]) is None by {
                        if hits@[j] is Some {
                            lemma_two_hits(hits@, hits@.len() as int, n as int, j);
                        }
                    }
                    lemma_one_hit(hits@, hits@.len() as int, n as int);
                }
                Ok(first)
            }
        },
        None => {
            proof {
                // Every hit is a number, so what holds of the numbers
                // holds of the hits.
                assert forall|j: int|
                    0 <= j < hits@.len() && (#[trigger] hits@[j]) is Some implies is_number_hit(
                    hits@[j],
                ) by {
                    assert(!is_nan_hit(hits@[j]));
                }
            }
            Ok(best)
        },
    }
}

/// The candidate has a hit whose ray parameter is a number.
spec fn is_number_hit(hit: Option<Scalar>) -> bool {
    hit is Some && hit.unwrap() is Num
}

/// The candidate has a hit whose ray parameter is not a number.
spec fn is_nan_hit(hit: Option<Scalar>) -> bool {
    hit is Some && hit.unwrap() is Nan
}

/// The count of hits stays within the number of candidates.
proof fn lemma_count_hits(hits: Seq<Option<Scalar>>, upto: int)
    requires
        0 <= upto <= hits.len(),
    ensures
        0 <= count_hits(hits, upto) <= upto,
    decreases upto,
{
    if upto > 0 {
        lemma_count_hits(hits, upto - 1);
    }
}

/// Where one candidate alone has a hit, the count is one.
proof fn lemma_single_hit(hits: Seq<Option<Scalar>>, upto: int, only: int)
    requires
        0 <= upto <= hits.len(),
        0 <= only < hits.len(),
        hits[only] is Some,
        forall|j: int| 0 <= j < hits.len() && j != only ==> hits[j] is None,
    ensures
        count_hits(hits, upto) == if only < upto {
            1int
        } else {
            0int
        },
    decreases upto,
{
    if upto > 0 {
        lemma_single_hit(hits, upto - 1, only);
    }
}

/// A candidate with a hit makes a count of one at least.
proof fn lemma_one_hit(hits: Seq<Option<Scalar>>, upto: int, a: int)
    requires
        0 <= a < upto <= hits.len(),
        hits[a] is Some,
    ensures
        count_hits(hits, upto) >= 1,
    decreases upto,
{
    lemma_count_hits(hits, upto - 1);
    if a < upto - 1 {
        lemma_one_hit(hits, upto - 1, a);
    }
}

/// Two candidates with a hit make a count of two at least.
proof fn lemma_two_hits(hits: Seq<Option<Scalar>>, upto: int, a: int, b: int)
    requires
        0 <= upto <= hits.len(),
        0 <= a < hits.len(),
        0 <= b < hits.len(),
        a != b,
        hits[a] is Some,
        hits[b] is Some,
    ensures
        count_hits(hits, upto) >= (if a < upto {
            1int
        } else {
            0int
        }) + (if b < upto {
            1int
        } else {
            0int
        }),
    decreases upto,
{
    if upto > 0 {
        lemma_two_hits(hits, upto - 1, a, b);
    }
}

} // verus!
