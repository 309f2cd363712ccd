//! Ordering of candidates and selection of the best of them.
//!
//! Both the similarity lookup and the listing of the cache rank a set of
//! entries and keep the first few. An entry takes part as a [`Ranked`]: its
//! identifier and two numbers. The larger `major` comes first, then the larger
//! `minor`, then the smaller identifier, so no two entries with different
//! identifiers ever tie and a ranking of a given set is unique.

use vstd::prelude::*;

verus! {

/// One entry of a ranking.
#[derive(Clone, Copy, Debug, PartialEq, Eq, Structural)]
pub struct Ranked {
    pub id: u128,
    pub major: i64,
    pub minor: u64,
}

/// Whether `a` comes before `b` in a ranking.
pub open spec fn before(a: Ranked, b: Ranked) -> bool {
    ||| a.major > b.major
    ||| a.major == b.major && a.minor > b.minor
    ||| a.major == b.major && a.minor == b.minor && a.id < b.id
}

/// Every entry comes before all that follow it.
pub open spec fn in_order(s: Seq<Ranked>) -> bool {
    forall|i: int, j: int| 0 <= i < j < s.len() ==> before(#[trigger] s[i], #[trigger] s[j])
}

/// No identifier occurs twice.
pub open spec fn distinct_ids(s: Seq<Ranked>) -> bool {
    forall|i: int, j: int| 0 <= i < j < s.len() ==> (#[trigger] s[i]).id != (#[trigger] s[j]).id
}

/// How many entries a ranking of `count` candidates keeps under `limit`,
/// where a limit of zero keeps all.
pub open spec fn kept(count: nat, limit: nat) -> nat {
    if limit == 0 || count <= limit {
        count
    } else {
        limit
    }
}

/// `top` is the ranking of `items` cut to `limit`: it is in order, holds only
/// candidates, has the length that the limit allows (and then holds them all
/// if it is as long as `items`), and every candidate it leaves out comes after
/// all it holds.
pub open spec fn is_top_of(top: Seq<Ranked>, items: Seq<Ranked>, limit: nat) -> bool {
    &&& in_order(top)
    &&& top.len() == kept(items.len(), limit)
    &&& forall|i: int| 0 <= i < top.len() ==> items.contains(#[trigger] top[i])
    &&& top.len() == items.len() ==> forall|i: int|
        0 <= i < items.len() ==> top.contains(#[trigger] items[i])
    &&& forall|x: Ranked, i: int|
        items.contains(x) && !top.contains(x) && 0 <= i < top.len() ==> #[trigger] before(
            top[i],
            x,
        )
}

/// Executable form of [`before`].
pub fn comes_before(a: &Ranked, b: &Ranked) -> (r: bool)
    ensures
        r == before(*a, *b),
{
    a.major > b.major || (a.major == b.major && (a.minor > b.minor || (a.minor == b.minor && a.id
        < b.id)))
}

/// `last` is the entry of `items` that every other entry comes before, or
/// nothing when there are no entries.
pub open spec fn is_last_of(last: Option<Ranked>, items: Seq<Ranked>) -> bool {
    match last {
        None => items.len() == 0,
        Some(x) => {
            &&& items.contains(x)
            &&& forall|i: int|
                0 <= i < items.len() && items[i] != x ==> before(#[trigger] items[i], x)
        },
    }
}

/// The entry that comes last in the ranking of `items`.
pub fn last_of(items: &Vec<Ranked>) -> (last: Option<Ranked>)
    requires
        distinct_ids(items@),
    ensures
        is_last_of(last, items@),
{
    let mut last: Option<Ranked> = None;
    let mut i: usize = 0;
    while i < items.len()
        invariant
            i <= items.len(),
            distinct_ids(items@),
            is_last_of(last, items@.take(i as int)),
        decreases items.len() - i,
    {
        let x = items[i];
        let ghost seen = items@.take(i as int);
        let ghost next = items@.take(i + 1);
        proof {
            assert(next =~= seen.push(x));
        }
        match last {
            None => {
                last = Some(x);
                proof {
                    assert(next[0] == x);
                }
            },
            Some(y) => {
                proof {
                    let j = choose|j: int| 0 <= j < seen.len() && seen[j] == y;
                    assert(items@[j].id != items@[i as int].id);
                    assert(next[j] == y);
                    assert(next[i as int] == x);
                }
                if comes_before(&y, &x) {
                    last = Some(x);
                    proof {
                        assert forall|k: int| 0 <= k < next.len() && next[k] != x implies before(
                            #[trigger] next[k],
                            x,
                        ) by {
                            if next[k] != y {
                                assert(seen[k] == next[k]);
                            }
                        }
                    }
                } else {
                    proof {
                        assert forall|k: int| 0 <= k < next.len() && next[k] != y implies before(
                            #[trigger] next[k],
                            y,
                        ) by {
                            if k < seen.len() {
                                assert(seen[k] == next[k]);
                            }
                        }
                    }
                }
            },
        }
        i += 1;
    }
    proof {
        assert(items@.take(items@.len() as int) =~= items@);
    }
    last
}

/// Ranks `items` and keeps the first `limit` of them, or all when `limit` is 0.
pub fn rank_top(items: &Vec<Ranked>, limit: usize) -> (top: Vec<Ranked>)
    requires
        distinct_ids(items@),
    ensures
        is_top_of(top@, items@, limit as nat),
{
    let mut sorted: Vec<Ranked> = Vec::new();
    let mut n: usize = 0;
    while n < items.len()
        invariant
            n <= items.len(),
            distinct_ids(items@),
            sorted@.len() == n,
            in_order(sorted@),
            forall|i: int| 0 <= i < n ==> sorted@.contains(#[trigger] items@[i]),
            forall|j: int|
                0 <= j < sorted@.len() ==> exists|i: int|
                    0 <= i < n && items@[i] == #[trigger] sorted@[j],
        decreases items.len() - n,
    {
        let x = items[n];
        let mut p: usize = 0;
        while p < sorted.len() && !comes_before(&x, &sorted[p])
            invariant
                p <= sorted.len(),
                forall|j: int| 0 <= j < p ==> !before(x, #[trigger] sorted@[j]),
            decreases sorted.len() - p,
        {
            p += 1;
        }
        let ghost prev = sorted@;
        proof {
            assert forall|j: int| 0 <= j < p implies before(#[trigger] prev[j], x) by {
                let i = choose|i: int| 0 <= i < n && items@[i] == prev[j];
                assert(items@[i].id != items@[n as int].id);
            }
            assert forall|j: int| p <= j < prev.len() implies before(x, #[trigger] prev[j]) by {
                if j > p {
                    assert(before(prev[p as int], prev[j]));
                }
            }
        }
        sorted.insert(p, x);
        proof {
            let cur = sorted@;
            assert(cur == prev.insert(p as int, x));
            assert forall|i: int, j: int| 0 <= i < j < cur.len() implies before(
                #[trigger] cur[i],
                #[trigger] cur[j],
            ) by {
                if i < p && j > p {
                    assert(before(prev[i], prev[j - 1]));
                } else if i < p && j < p {
                    assert(before(prev[i], prev[j]));
                } else if i > p {
                    assert(before(prev[i - 1], prev[j - 1]));
                } else if i == p {
                    assert(before(x, prev[j - 1]));
                } else {
                    assert(before(prev[i], x));
                }
            }
            assert forall|i: int| 0 <= i < n + 1 implies cur.contains(#[trigger] items@[i]) by {
                if i < n {
                    let q = choose|q: int| 0 <= q < prev.len() && prev[q] == items@[i];
                    if q < p {
                        assert(cur[q] == items@[i]);
                    } else {
                        assert(cur[q + 1] == items@[i]);
                    }
                } else {
                    assert(cur[p as int] == items@[i]);
                }
            }
            assert forall|j: int| 0 <= j < cur.len() implies exists|i: int|
                0 <= i < n + 1 && items@[i] == #[trigger] cur[j] by {
                if j < p {
                    let i = choose|i: int| 0 <= i < n && items@[i] == prev[j];
                    assert(items@[i] == cur[j]);
                } else if j == p {
                    assert(items@[n as int] == cur[j]);
                } else {
                    let i = choose|i: int| 0 <= i < n && items@[i] == prev[j - 1];
                    assert(items@[i] == cur[j]);
                }
            }
        }
        n += 1;
    }
    let ghost full = sorted@;
    if limit > 0 && sorted.len() > limit {
        sorted.truncate(limit);
    }
    proof {
        let top = sorted@;
        assert forall|i: int| 0 <= i < top.len() implies items@.contains(#[trigger] top[i]) by {
            assert(top[i] == full[i]);
            let k = choose|k: int| 0 <= k < n && items@[k] == full[i];
            assert(items@[k] == top[i]);
        }
        assert forall|x: Ranked, i: int|
            items@.contains(x) && !top.contains(x) && 0 <= i < top.len() implies #[trigger] before(
            top[i],
            x,
        ) by {
            let k = choose|k: int| 0 <= k < items@.len() && items@[k] == x;
            assert(full.contains(items@[k]));
            let q = choose|q: int| 0 <= q < full.len() && full[q] == x;
            if q < top.len() {
                assert(top[q] == x);
            }
            assert(before(full[i], full[q]));
        }
    }
    sorted
}

/// A ranking of a set of candidates is unique: two sequences that are both the
/// top of the same candidates under the same limit are equal.
pub proof fn lemma_top_unique(a: Seq<Ranked>, b: Seq<Ranked>, items: Seq<Ranked>, limit: nat)
    requires
        is_top_of(a, items, limit),
        is_top_of(b, items, limit),
    ensures
        a == b,
{
    assert(a.len() == b.len());
    assert forall|i: int| 0 <= i < a.len() implies a[i] == b[i] by {
        lemma_top_agree(a, b, items, limit, i);
    }
    assert(a =~= b);
}

/// Two tops of the same candidates agree at every place, by induction over
/// the places before it.
proof fn lemma_top_agree(a: Seq<Ranked>, b: Seq<Ranked>, items: Seq<Ranked>, limit: nat, i: int)
    requires
        is_top_of(a, items, limit),
        is_top_of(b, items, limit),
        0 <= i < a.len(),
    ensures
        a[i] == b[i],
    decreases i,
{
    assert forall|k: int| 0 <= k < i implies a[k] == b[k] by {
        lemma_top_agree(a, b, items, limit, k);
    }
    // Neither entry comes before the other, so they are the same.
    lemma_position(a, b, items, limit, i);
    lemma_position(b, a, items, limit, i);
}

/// With equal prefixes below `i`, the entry of `a` at `i` does not come after
/// the entry of `b` at `i`.
proof fn lemma_position(a: Seq<Ranked>, b: Seq<Ranked>, items: Seq<Ranked>, limit: nat, i: int)
    requires
        is_top_of(a, items, limit),
        is_top_of(b, items, limit),
        0 <= i < a.len(),
        forall|k: int| 0 <= k < i ==> a[k] == b[k],
    ensures
        a[i] == b[i] || before(a[i], b[i]),
{
    let x = b[i];
    assert(items.contains(x));
    if a.contains(x) {
        let q = choose|q: int| 0 <= q < a.len() && a[q] == x;
        if q < i {
            assert(b[q] == x);
            assert(before(b[q], b[i]));
        } else if q > i {
            assert(before(a[i], a[q]));
        }
    } else {
        assert(before(a[i], x));
    }
}

} // verus!
