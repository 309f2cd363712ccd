//! What holds of the cache over several operations.

use crate::heuristic::{CacheConfig, CachedHeuristic};
use crate::model::{is_oldest, lemma_oldest_unique, oldest, recency, CacheModel, MatchQuery, Slot};
use crate::ranking::before;
use crate::scalar::Scalar;
use crate::scorer::warmed;
use crate::service::{countable, recorded};
use vstd::prelude::*;
use vstd::relations::{is_least, total_ordering};

verus! {

/// The first index of the heuristics that a cache of this capacity still
/// holds after `count` were added.
pub open spec fn first_kept(count: int, capacity: usize) -> int {
    if count > capacity {
        count - capacity
    } else {
        0
    }
}

/// Access times as the cache sees them do not decrease along `heuristics`.
pub open spec fn in_order_of_access(heuristics: Seq<CachedHeuristic>, now_ms: i64) -> bool {
    forall|a: int, b: int|
        0 <= a < b < heuristics.len() ==> (#[trigger] heuristics[a]).spec_stamped(
            now_ms,
        ).last_accessed_ms <= (#[trigger] heuristics[b]).spec_stamped(now_ms).last_accessed_ms
}

/// No two of `heuristics` share an identifier.
pub open spec fn distinct(heuristics: Seq<CachedHeuristic>) -> bool {
    forall|a: int, b: int|
        0 <= a < b < heuristics.len() ==> (#[trigger] heuristics[a]).id != (
        #[trigger] heuristics[b]).id
}

/// The state of a new cache after distinct heuristics were added in the order
/// of their access times: it holds exactly the last ones, as many as its
/// capacity allows, each as it was stamped and with the tick of its position.
proof fn lemma_filled(config: CacheConfig, heuristics: Seq<CachedHeuristic>, now_ms: i64)
    requires
        config.max_heuristics >= 1,
        heuristics.len() < u64::MAX,
        distinct(heuristics),
        in_order_of_access(heuristics, now_ms),
    ensures
        ({
            let cache = warmed(CacheModel::empty(config), heuristics, now_ms);
            let lo = first_kept(heuristics.len() as int, config.max_heuristics);
            &&& cache.config == config
            &&& cache.next_tick == heuristics.len()
            &&& cache.heuristics.dom().finite()
            &&& cache.heuristics.len() == heuristics.len() - lo
            &&& forall|i: int|
                0 <= i < heuristics.len() ==> (cache.heuristics.contains_key(
                    (#[trigger] heuristics[i]).id,
                ) <==> lo <= i)
            &&& forall|i: int|
                lo <= i < heuristics.len() ==> cache.heuristics[(#[trigger] heuristics[i]).id]
                    == (Slot { heuristic: heuristics[i].spec_stamped(now_ms), tick: i as u64 })
            &&& forall|id: u128|
                cache.heuristics.contains_key(id) ==> exists|i: int|
                    lo <= i < heuristics.len() && (#[trigger] heuristics[i]).id == id
        }),
    decreases heuristics.len(),
{
    let n = heuristics.len() as int;
    if n == 0 {
        assert(warmed(CacheModel::empty(config), heuristics, now_ms) == CacheModel::empty(config));
    } else {
        let earlier = heuristics.drop_last();
        let m0 = warmed(CacheModel::empty(config), earlier, now_ms);
        let n0 = n - 1;
        let lo0 = first_kept(n0, config.max_heuristics);
        let lo = first_kept(n, config.max_heuristics);
        assert(distinct(earlier)) by {
            assert forall|a: int, b: int| 0 <= a < b < earlier.len() implies (
            #[trigger] earlier[a]).id != (#[trigger] earlier[b]).id by {
                assert(heuristics[a].id != heuristics[b].id);
            }
        }
        assert(in_order_of_access(earlier, now_ms)) by {
            assert forall|a: int, b: int| 0 <= a < b < earlier.len() implies (
            #[trigger] earlier[a]).spec_stamped(now_ms).last_accessed_ms <= (
            #[trigger] earlier[b]).spec_stamped(now_ms).last_accessed_ms by {
                assert(heuristics[a].spec_stamped(now_ms).last_accessed_ms
                    <= heuristics[b].spec_stamped(now_ms).last_accessed_ms);
            }
        }
        lemma_filled(config, earlier, now_ms);
        assert forall|i: int| 0 <= i < n0 implies #[trigger] earlier[i] == heuristics[i] by {}
        let h = heuristics[n0].spec_stamped(now_ms);
        assert(heuristics.last() == heuristics[n0]);
        assert(h.id == heuristics[n0].id);
        let cache = m0.with_heuristic(h);
        assert(cache == warmed(CacheModel::empty(config), heuristics, now_ms));
        assert(!m0.heuristics.contains_key(h.id)) by {
            if m0.heuristics.contains_key(h.id) {
                let i = choose|i: int| lo0 <= i < n0 && (#[trigger] earlier[i]).id == h.id;
                assert(heuristics[i].id != heuristics[n0].id);
            }
        }
        if m0.heuristics.len() >= config.max_heuristics {
            let v = heuristics[lo0].id;
            assert(m0.heuristics.contains_key(earlier[lo0].id));
            assert forall|other: u128|
                m0.heuristics.contains_key(other) && other != v implies before(
                #[trigger] recency(m0.heuristics, other),
                recency(m0.heuristics, v),
            ) by {
                let i = choose|i: int| lo0 <= i < n0 && (#[trigger] earlier[i]).id == other;
                assert(m0.heuristics[earlier[i].id].tick == i as u64);
                assert(m0.heuristics[earlier[lo0].id].tick == lo0 as u64);
                assert(heuristics[lo0].spec_stamped(now_ms).last_accessed_ms
                    <= heuristics[i].spec_stamped(now_ms).last_accessed_ms);
            }
            assert(is_oldest(m0.heuristics, v));
            lemma_oldest_unique(m0.heuristics, v, v);
            assert(m0.with_room() == m0.heuristics.remove(v));
            assert forall|i: int| 0 <= i < n implies (cache.heuristics.contains_key(
                (#[trigger] heuristics[i]).id,
            ) <==> lo <= i) by {
                if i < n0 {
                    assert(earlier[i].id == heuristics[i].id);
                    if i != lo0 {
                        if i < lo0 {
                            assert(heuristics[i].id != heuristics[lo0].id);
                        } else {
                            assert(heuristics[lo0].id != heuristics[i].id);
                        }
                    }
                    assert(heuristics[i].id != heuristics[n0].id);
                }
            }
            assert forall|i: int| lo <= i < n implies cache.heuristics[(
            #[trigger] heuristics[i]).id] == (Slot {
                heuristic: heuristics[i].spec_stamped(now_ms),
                tick: i as u64,
            }) by {
                if i < n0 {
                    assert(earlier[i].id == heuristics[i].id);
                    assert(heuristics[lo0].id != heuristics[i].id);
                    assert(heuristics[i].id != heuristics[n0].id);
                }
            }
            assert forall|id: u128| cache.heuristics.contains_key(id) implies exists|i: int|
                lo <= i < n && (#[trigger] heuristics[i]).id == id by {
                if id == h.id {
                    assert(heuristics[n0].id == id);
                } else {
                    let i = choose|i: int| lo0 <= i < n0 && (#[trigger] earlier[i]).id == id;
                    assert(heuristics[i].id == id);
                    assert(i != lo0);
                }
            }
        } else {
            assert(m0.with_room() == m0.heuristics);
            assert forall|i: int| 0 <= i < n implies (cache.heuristics.contains_key(
                (#[trigger] heuristics[i]).id,
            ) <==> lo <= i) by {
                if i < n0 {
                    assert(earlier[i].id == heuristics[i].id);
                    assert(heuristics[i].id != heuristics[n0].id);
                }
            }
            assert forall|i: int| lo <= i < n implies cache.heuristics[(
            #[trigger] heuristics[i]).id] == (Slot {
                heuristic: heuristics[i].spec_stamped(now_ms),
                tick: i as u64,
            }) by {
                if i < n0 {
                    assert(earlier[i].id == heuristics[i].id);
                    assert(heuristics[i].id != heuristics[n0].id);
                }
            }
            assert forall|id: u128| cache.heuristics.contains_key(id) implies exists|i: int|
                lo <= i < n && (#[trigger] heuristics[i]).id == id by {
                if id == h.id {
                    assert(heuristics[n0].id == id);
                } else {
                    let i = choose|i: int| lo0 <= i < n0 && (#[trigger] earlier[i]).id == id;
                    assert(heuristics[i].id == id);
                }
            }
        }
    }
}

/// Eviction follows the order of use. When distinct heuristics are added to a
/// new cache of capacity N in the order of their access times, then of N + k
/// heuristics the first k, which are the least recently used, are absent
/// afterwards and the other N are present.
pub proof fn lemma_lru_eviction(
    config: CacheConfig,
    heuristics: Seq<CachedHeuristic>,
    now_ms: i64,
    i: int,
)
    requires
        config.max_heuristics >= 1,
        heuristics.len() < u64::MAX,
        distinct(heuristics),
        in_order_of_access(heuristics, now_ms),
        0 <= i < heuristics.len(),
    ensures
        warmed(CacheModel::empty(config), heuristics, now_ms).heuristics.contains_key(heuristics[i].id)
            <==> heuristics.len() - i <= config.max_heuristics,
        warmed(CacheModel::empty(config), heuristics, now_ms).heuristics.len() == if heuristics.len()
            > config.max_heuristics {
            config.max_heuristics as int
        } else {
            heuristics.len() as int
        },
{
    lemma_filled(config, heuristics, now_ms);
}

/// A map that holds heuristics has a least recently used one.
pub proof fn lemma_oldest_exists(m: Map<u128, Slot>)
    requires
        m.dom().finite(),
        m.len() > 0,
    ensures
        is_oldest(m, oldest(m)),
{
    let r = |a: u128, b: u128| a == b || before(recency(m, b), recency(m, a));
    assert(total_ordering(r)) by {
        assert forall|x: u128, y: u128| #[trigger] r(x, y) && #[trigger] r(y, x) implies x
            == y by {}
        assert forall|x: u128, y: u128, z: u128| #[trigger]
            r(x, y) && #[trigger] r(y, z) implies r(x, z) by {}
        assert forall|x: u128, y: u128| #[trigger] r(x, y) || #[trigger] r(y, x) by {
            if x != y {
                assert(recency(m, x).id != recency(m, y).id);
            }
        }
    }
    m.dom().find_unique_minimal_ensures(r);
    let min = m.dom().find_unique_minimal(r);
    m.dom().lemma_minimal_equivalent_least(r, min);
    assert(is_least(r, min, m.dom()));
    assert forall|other: u128| m.contains_key(other) && other != min implies before(
        #[trigger] recency(m, other),
        recency(m, min),
    ) by {
        assert(r(min, other));
    }
    assert(is_oldest(m, min));
}

/// Adding a heuristic keeps a cache valid.
pub proof fn lemma_add_keeps_valid(model: CacheModel, heuristic: CachedHeuristic)
    requires
        model.is_valid(),
    ensures
        model.with_heuristic(heuristic).is_valid(),
        model.with_heuristic(heuristic).heuristics.contains_key(heuristic.id),
        model.with_heuristic(heuristic).heuristics[heuristic.id].heuristic == heuristic,
{
    if model.heuristics.len() > 0 {
        lemma_oldest_exists(model.heuristics);
    }
}

/// A touch moves a heuristic to the most recent place. When the least
/// recently used heuristic of a full cache is touched at a time that is not
/// before any access in the cache, and a new heuristic is added after that,
/// then the heuristic that was second to the touched one leaves the cache and
/// every other one stays, the touched one among them.
pub proof fn lemma_touch_moves_to_most_recent(
    model: CacheModel,
    touched: u128,
    second: u128,
    now_ms: i64,
    added: CachedHeuristic,
)
    requires
        model.is_valid(),
        model.next_tick < u64::MAX,
        model.heuristics.len() >= model.config.max_heuristics,
        is_oldest(model.heuristics, touched),
        is_oldest(model.heuristics.remove(touched), second),
        forall|id: u128| #[trigger]
            model.heuristics.contains_key(id) ==> model.heuristics[id].heuristic.last_accessed_ms
                <= now_ms,
        !model.heuristics.contains_key(added.id),
    ensures
        ({
            let after = model.with_touch(touched, now_ms).with_heuristic(added);
            &&& !after.heuristics.contains_key(second)
            &&& after.heuristics.contains_key(touched)
            &&& after.heuristics.contains_key(added.id)
            &&& forall|id: u128|
                model.heuristics.contains_key(id) && id != second
                    ==> #[trigger] after.heuristics.contains_key(id)
        }),
{
    let m = model.heuristics;
    let rest = m.remove(touched);
    let t = model.with_touch(touched, now_ms);
    assert(t.heuristics.dom() =~= m.dom());
    assert forall|other: u128| t.heuristics.contains_key(other) && other != second implies before(
        #[trigger] recency(t.heuristics, other),
        recency(t.heuristics, second),
    ) by {
        assert(recency(t.heuristics, second) == recency(rest, second));
        if other == touched {
            assert(m[second].tick < model.next_tick);
        } else {
            assert(rest.contains_key(other));
            assert(recency(t.heuristics, other) == recency(rest, other));
        }
    }
    assert(is_oldest(t.heuristics, second));
    lemma_oldest_unique(t.heuristics, second, second);
}

/// Whether `id` is the identifier of one of the first `n` of `returned`.
pub open spec fn is_among(returned: Seq<CachedHeuristic>, n: int, id: u128) -> bool {
    exists|j: int| 0 <= j < n && (#[trigger] returned[j]).id == id
}

/// The state of a cache while heuristics that storage returned are added to
/// it: the ones added so far are all there, stamped with the time of the
/// warming and with ticks of the warming, and whatever else is there was
/// there before, with an earlier tick and an access not after the warming.
spec fn is_warming(
    model: CacheModel,
    returned: Seq<CachedHeuristic>,
    now_ms: i64,
    n: int,
    cache: CacheModel,
) -> bool {
    &&& cache.is_valid()
    &&& cache.config == model.config
    &&& cache.next_tick == model.next_tick + n
    &&& forall|j: int|
        0 <= j < n ==> {
            &&& cache.heuristics.contains_key((#[trigger] returned[j]).id)
            &&& cache.heuristics[returned[j].id].heuristic.cached_at_ms == now_ms
            &&& cache.heuristics[returned[j].id].heuristic.last_accessed_ms == now_ms
            &&& cache.heuristics[returned[j].id].tick >= model.next_tick
        }
    &&& forall|id: u128| #[trigger]
        cache.heuristics.contains_key(id) ==> is_among(returned, n, id) || (
        cache.heuristics[id].tick < model.next_tick
            && cache.heuristics[id].heuristic.last_accessed_ms <= now_ms)
}

proof fn lemma_warming(model: CacheModel, returned: Seq<CachedHeuristic>, now_ms: i64, n: int)
    requires
        model.is_valid(),
        returned.len() <= model.config.max_heuristics,
        model.next_tick + returned.len() < u64::MAX,
        forall|id: u128| #[trigger]
            model.heuristics.contains_key(id) ==> model.heuristics[id].heuristic.last_accessed_ms
                <= now_ms,
        forall|j: int| 0 <= j < returned.len() ==> (#[trigger] returned[j]).cached_at_ms == 0,
        0 <= n <= returned.len(),
    ensures
        is_warming(model, returned, now_ms, n, warmed(model, returned.take(n), now_ms)),
    decreases n,
{
    if n == 0 {
        assert(returned.take(0).len() == 0);
        assert(warmed(model, returned.take(0), now_ms) == model);
        assert forall|id: u128| #[trigger] model.heuristics.contains_key(id) implies is_among(
            returned,
            0,
            id,
        ) || (model.heuristics[id].tick < model.next_tick
            && model.heuristics[id].heuristic.last_accessed_ms <= now_ms) by {}
    } else {
        lemma_warming(model, returned, now_ms, n - 1);
        let k = n - 1;
        let m0 = warmed(model, returned.take(k), now_ms);
        let h = returned[k].spec_stamped(now_ms);
        assert(returned.take(n).drop_last() =~= returned.take(k));
        assert(returned.take(n).last() == returned[k]);
        let m1 = m0.with_heuristic(h);
        assert(m1 == warmed(model, returned.take(n), now_ms));
        lemma_add_keeps_valid(m0, h);
        let room = m0.with_room();
        // Making room never costs a heuristic of the warming.
        assert forall|j: int| 0 <= j < k implies room.contains_key((#[trigger] returned[j]).id)
            && room[returned[j].id] == m0.heuristics[returned[j].id] by {
            if m0.heuristics.len() > 0 && m0.heuristics.len() >= m0.config.max_heuristics {
                lemma_oldest_exists(m0.heuristics);
                let v = oldest(m0.heuristics);
                if v == returned[j].id {
                    lemma_some_entry_is_older(model, returned, now_ms, k, m0);
                    let x = choose|x: u128|
                        m0.heuristics.contains_key(x) && !is_among(returned, k, x);
                    assert(x != v);
                    assert(before(recency(m0.heuristics, x), recency(m0.heuristics, v)));
                }
            }
        }
        assert forall|j: int| 0 <= j < n implies {
            &&& m1.heuristics.contains_key((#[trigger] returned[j]).id)
            &&& m1.heuristics[returned[j].id].heuristic.cached_at_ms == now_ms
            &&& m1.heuristics[returned[j].id].heuristic.last_accessed_ms == now_ms
            &&& m1.heuristics[returned[j].id].tick >= model.next_tick
        } by {
            if j < k && returned[j].id != h.id {
                assert(room.contains_key(returned[j].id));
            }
        }
        assert forall|id: u128| #[trigger] m1.heuristics.contains_key(id) implies is_among(
            returned,
            n,
            id,
        ) || (m1.heuristics[id].tick < model.next_tick
            && m1.heuristics[id].heuristic.last_accessed_ms <= now_ms) by {
            if id == h.id {
                assert(returned[k].id == id);
            } else {
                assert(m0.heuristics.contains_key(id));
                if is_among(returned, k, id) {
                    let j = choose|j: int| 0 <= j < k && (#[trigger] returned[j]).id == id;
                    assert(returned[j].id == id);
                }
            }
        }
    }
}

/// While fewer heuristics were added than the cache has room for, a full
/// cache holds a heuristic that is not of the warming.
proof fn lemma_some_entry_is_older(
    model: CacheModel,
    returned: Seq<CachedHeuristic>,
    now_ms: i64,
    k: int,
    cache: CacheModel,
)
    requires
        is_warming(model, returned, now_ms, k, cache),
        0 <= k < returned.len(),
        returned.len() <= cache.config.max_heuristics,
        cache.heuristics.len() >= cache.config.max_heuristics,
    ensures
        exists|x: u128| cache.heuristics.contains_key(x) && !is_among(returned, k, x),
{
    let ids = returned.take(k).map_values(|h: CachedHeuristic| h.id);
    if forall|x: u128| #[trigger] cache.heuristics.contains_key(x) ==> is_among(returned, k, x) {
        assert(cache.heuristics.dom().subset_of(ids.to_set())) by {
            assert forall|x: u128| cache.heuristics.dom().contains(x) implies ids.to_set().contains(
                x,
            ) by {
                assert(cache.heuristics.contains_key(x));
                assert(is_among(returned, k, x));
                let j = choose|j: int| 0 <= j < k && (#[trigger] returned[j]).id == x;
                assert(returned.take(k)[j] == returned[j]);
                assert(ids[j] == x);
                assert(ids.contains(x));
            }
        }
        vstd::seq_lib::seq_to_set_is_finite(ids);
        ids.lemma_cardinality_of_set();
        vstd::set_lib::lemma_len_subset(cache.heuristics.dom(), ids.to_set());
        assert(false);
    }
}

/// Warming fills the cache. When the heuristics that storage returned, which
/// carry no insertion time, are no more than the cache has room for, and the
/// warming happens at a time that is not before any access in the cache, then
/// every one of them is in the cache afterwards, inserted at the time of the
/// warming.
pub proof fn lemma_warming_keeps_returned(
    model: CacheModel,
    returned: Seq<CachedHeuristic>,
    now_ms: i64,
    i: int,
)
    requires
        model.is_valid(),
        returned.len() <= model.config.max_heuristics,
        model.next_tick + returned.len() < u64::MAX,
        forall|id: u128| #[trigger]
            model.heuristics.contains_key(id) ==> model.heuristics[id].heuristic.last_accessed_ms
                <= now_ms,
        forall|j: int| 0 <= j < returned.len() ==> (#[trigger] returned[j]).cached_at_ms == 0,
        0 <= i < returned.len(),
    ensures
        warmed(model, returned, now_ms).heuristics.contains_key(returned[i].id),
        warmed(model, returned, now_ms).heuristics[returned[i].id].heuristic.cached_at_ms
            == now_ms,
        warmed(model, returned, now_ms).heuristics[returned[i].id].heuristic.id == returned[i].id,
{
    lemma_warming(model, returned, now_ms, returned.len() as int);
    assert(returned.take(returned.len() as int) =~= returned);
}

/// What a lookup by similarity returns has passed every filter: each
/// heuristic that it names is in the cache, has not expired, has a confidence
/// that is not below the one asked for and an embedding, and its similarity
/// is at least the one asked for.
pub proof fn lemma_answer_passes_filters(
    model: CacheModel,
    q: MatchQuery,
    sims: Map<u128, Scalar>,
    found: Seq<(u128, Scalar)>,
    i: int,
)
    requires
        model.is_answer(q, sims, found),
        0 <= i < found.len(),
    ensures
        model.heuristics.contains_key(found[i].0),
        !model.heuristics[found[i].0].heuristic.spec_is_expired(
            q.now_ms,
            model.config.heuristic_ttl_ms,
        ),
        !model.heuristics[found[i].0].heuristic.confidence.spec_below(q.min_confidence),
        model.heuristics[found[i].0].heuristic.condition_embedding@.len() > 0,
        found[i].1.spec_at_least(q.min_similarity),
        !found[i].1.is_nan(),
{
    assert(model.is_hit(q, sims, found[i].0));
}

/// An expired heuristic is invisible. No lookup by similarity returns a
/// heuristic whose lifetime has passed, whatever its similarity, and no
/// lookup by confidence lists it.
pub proof fn lemma_expired_is_invisible(
    model: CacheModel,
    q: MatchQuery,
    sims: Map<u128, Scalar>,
    found: Seq<(u128, Scalar)>,
    list: Seq<&CachedHeuristic>,
    id: u128,
)
    requires
        model.is_valid(),
        model.heuristics.contains_key(id),
        model.heuristics[id].heuristic.spec_is_expired(q.now_ms, model.config.heuristic_ttl_ms),
        model.is_answer(q, sims, found),
        model.is_confident_list(list, q.min_confidence, q.now_ms),
    ensures
        forall|i: int| 0 <= i < found.len() ==> (#[trigger] found[i]).0 != id,
        forall|i: int| 0 <= i < list.len() ==> (#[trigger] list[i]).id != id,
{
    assert forall|i: int| 0 <= i < found.len() implies (#[trigger] found[i]).0 != id by {
        assert(model.is_hit(q, sims, found[i].0));
    }
}

/// The confidence filter holds. No lookup by similarity returns a heuristic
/// whose confidence is below the one asked for.
pub proof fn lemma_confidence_filter(
    model: CacheModel,
    q: MatchQuery,
    sims: Map<u128, Scalar>,
    found: Seq<(u128, Scalar)>,
    id: u128,
)
    requires
        model.heuristics.contains_key(id),
        model.heuristics[id].heuristic.confidence.spec_below(q.min_confidence),
        model.is_answer(q, sims, found),
    ensures
        forall|i: int| 0 <= i < found.len() ==> (#[trigger] found[i]).0 != id,
{
    assert forall|i: int| 0 <= i < found.len() implies (#[trigger] found[i]).0 != id by {
        assert(model.is_hit(q, sims, found[i].0));
    }
}

/// The bookkeeping of a match counts exactly once and touches exactly once:
/// a similarity of one or more raises the misses by one and leaves the hits,
/// any other raises the hits by one and leaves the misses, and either way the
/// heuristics are those after one touch.
pub proof fn lemma_bookkeeping_counts_once(
    model: CacheModel,
    id: u128,
    similarity: Scalar,
    now_ms: i64,
)
    requires
        countable(model, id, similarity),
    ensures
        ({
            let after = recorded(model, Some(id), similarity, now_ms);
            let one = Scalar { bits: crate::scalar::ONE_BITS };
            &&& similarity.spec_at_least(one) ==> after.total_misses == model.total_misses + 1
                && after.total_hits == model.total_hits
            &&& !similarity.spec_at_least(one) ==> after.total_hits == model.total_hits + 1
                && after.total_misses == model.total_misses
            &&& after.heuristics == model.with_touch(id, now_ms).heuristics
            &&& model.heuristics.contains_key(id) ==> after.heuristics[id].heuristic.hit_count
                == model.heuristics[id].heuristic.hit_count + 1
        }),
{
}

} // verus!
