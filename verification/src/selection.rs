//! Which target deserves the worker: the snapshots that count, the pool of
//! candidates among them, and the winner of a pool.

use crate::allowances::AllowanceInfo;
use vstd::prelude::*;

verus! {

/// `a` strictly beats `b`: it is less difficult, or as difficult and of
/// higher priority.
pub open spec fn outranks(a: AllowanceInfo, b: AllowanceInfo) -> bool {
    a.difficulty < b.difficulty || (a.difficulty == b.difficulty && a.priority() > b.priority())
}

/// Among the first `n` of `pool`, the one at `w` wins: none of them beats
/// it, and it beats each that comes after it.
pub open spec fn wins_among(pool: Seq<AllowanceInfo>, n: int, w: int) -> bool {
    &&& 0 <= w < n <= pool.len()
    &&& forall|k: int| 0 <= k < n ==> !outranks(#[trigger] pool[k], pool[w])
    &&& forall|k: int| w < k < n ==> outranks(pool[w], #[trigger] pool[k])
}

/// The one at `w` wins the pool: it has the least difficulty in it and,
/// among those of that difficulty, the highest priority; where several
/// agree in both, it is the last of them.
pub open spec fn is_winner(pool: Seq<AllowanceInfo>, w: int) -> bool {
    wins_among(pool, pool.len() as int, w)
}

/// The place of the winner, where the pool has one.
pub open spec fn winner(pool: Seq<AllowanceInfo>) -> Option<int> {
    if pool.len() == 0 {
        None
    } else {
        Some(choose|w: int| is_winner(pool, w))
    }
}

/// A pool has at most one winner.
pub proof fn lemma_winner_unique(pool: Seq<AllowanceInfo>, v: int, w: int)
    requires
        is_winner(pool, v),
        is_winner(pool, w),
    ensures
        v == w,
{
    if v < w {
        assert(outranks(pool[v], pool[w]));
        assert(!outranks(pool[v], pool[w]));
    } else if w < v {
        assert(outranks(pool[w], pool[v]));
        assert(!outranks(pool[w], pool[v]));
    }
}

/// Among the first `n` of a pool, one wins.
pub proof fn lemma_one_wins_among(pool: Seq<AllowanceInfo>, n: int) -> (w: int)
    requires
        0 < n <= pool.len(),
    ensures
        wins_among(pool, n, w),
    decreases n,
{
    if n == 1 {
        0
    } else {
        let best = lemma_one_wins_among(pool, n - 1);
        if outranks(pool[best], pool[n - 1]) {
            best
        } else {
            n - 1
        }
    }
}

/// A pool that is not empty has a winner, and `winner` names it.
pub proof fn lemma_winner_exists(pool: Seq<AllowanceInfo>)
    requires
        pool.len() > 0,
    ensures
        winner(pool) matches Some(w) && is_winner(pool, w),
{
    let w = lemma_one_wins_among(pool, pool.len() as int);
    assert(is_winner(pool, w));
}

/// The order of a pool does not decide who wins it: two pools of the same
/// snapshots have winners of the same difficulty and priority, and the
/// same winner where no two different snapshots agree in both.
pub proof fn lemma_winner_ignores_order(
    first: Seq<AllowanceInfo>,
    second: Seq<AllowanceInfo>,
    v: int,
    w: int,
)
    requires
        first.to_multiset() =~= second.to_multiset(),
        is_winner(first, v),
        is_winner(second, w),
    ensures
        first[v].difficulty == second[w].difficulty,
        first[v].priority() == second[w].priority(),
        (forall|i: int, j: int|
            0 <= i < first.len() && 0 <= j < first.len() && first[i].difficulty
                == first[j].difficulty && first[i].priority() == first[j].priority()
                ==> first[i] == first[j]) ==> first[v] == second[w],
{
    broadcast use vstd::seq_lib::to_multiset_contains;

    assert(first.contains(first[v]));
    assert(second.contains(second[w]));
    assert(first.to_multiset().contains(first[v]));
    assert(second.to_multiset().contains(first[v]));
    assert(second.contains(first[v]));
    assert(second.to_multiset().contains(second[w]));
    assert(first.to_multiset().contains(second[w]));
    assert(first.contains(second[w]));
    let i = choose|i: int| 0 <= i < first.len() && first[i] == second[w];
    let j = choose|j: int| 0 <= j < second.len() && second[j] == first[v];
    assert(!outranks(first[i], first[v]));
    assert(!outranks(second[j], second[w]));
}

/// Whether `candidate` strictly beats `current`.
pub fn beats(candidate: &AllowanceInfo, current: &AllowanceInfo) -> (better: bool)
    ensures
        better == outranks(*candidate, *current),
{
    current.difficulty() > candidate.difficulty() || (current.difficulty()
        == candidate.difficulty() && current.priority() < candidate.priority())
}

/// The winner of a pool: `None` of an empty one.
pub fn choose_winner(pool: &Vec<AllowanceInfo>) -> (place: Option<usize>)
    ensures
        place is Some <==> pool.len() > 0,
        place matches Some(w) ==> is_winner(pool@, w as int),
        match place {
            Some(w) => winner(pool@) == Some(w as int),
            None => winner(pool@) is None,
        },
{
    if pool.len() == 0 {
        return None;
    }
    let mut best: usize = 0;
    let mut k: usize = 1;
    while k < pool.len()
        invariant
            1 <= k <= pool.len(),
            wins_among(pool@, k as int, best as int),
        decreases pool.len() - k,
    {
        if !beats(&pool[best], &pool[k]) {
            best = k;
        }
        k += 1;
    }
    proof {
        let chosen = choose|w: int| is_winner(pool@, w);
        assert(is_winner(pool@, best as int));
        lemma_winner_unique(pool@, chosen, best as int);
    }
    Some(best)
}

/// A snapshot may enter the pool: its target may start and, where a
/// running target sets a bound, it is strictly less difficult than that.
pub open spec fn eligible(info: AllowanceInfo, bound: Option<u128>) -> bool {
    info.ready_to_mine() && (bound matches Some(limit) ==> info.difficulty < limit)
}

/// The pool: the eligible ones among `fresh`, in their order.
pub open spec fn candidates(fresh: Seq<AllowanceInfo>, bound: Option<u128>) -> Seq<AllowanceInfo> {
    fresh.filter(|info: AllowanceInfo| eligible(info, bound))
}

/// Builds the pool of candidates.
pub fn candidate_pool(fresh: &Vec<AllowanceInfo>, bound: Option<u128>) -> (pool: Vec<AllowanceInfo>)
    ensures
        pool@ == candidates(fresh@, bound),
{
    let mut pool: Vec<AllowanceInfo> = Vec::new();
    let ghost pred = |info: AllowanceInfo| eligible(info, bound);
    let mut i: usize = 0;
    assert(fresh@.take(0).filter(pred) =~= Seq::<AllowanceInfo>::empty());
    while i < fresh.len()
        invariant
            i <= fresh.len(),
            pred == (|info: AllowanceInfo| eligible(info, bound)),
            pool@ == fresh@.take(i as int).filter(pred),
        decreases fresh.len() - i,
    {
        let info = &fresh[i];
        let keep = info.ready_to_mine() && match bound {
            Some(limit) => info.difficulty() < limit,
            None => true,
        };
        proof {
            assert(fresh@.take(i + 1) =~= fresh@.take(i as int).push(fresh@[i as int]));
            fresh@.take(i as int).lemma_filter_push(fresh@[i as int], pred);
            assert(keep == pred(fresh@[i as int]));
        }
        if keep {
            pool.push(info.duplicate());
        }
        i += 1;
    }
    assert(fresh@.take(fresh.len() as int) =~= fresh@);
    pool
}

/// The snapshot at `j` is a later one of the target of the snapshot at `i`.
pub open spec fn later_of(all: Seq<AllowanceInfo>, i: int, j: int) -> bool {
    i < j < all.len() && all[j].identity() == all[i].identity()
}

/// A later snapshot of the same target follows the one at `i`.
pub open spec fn superseded(all: Seq<AllowanceInfo>, i: int) -> bool {
    exists|j: int| later_of(all, i, j)
}

/// Of the first `n` snapshots, those that no later one supersedes.
pub open spec fn latest_of_first(all: Seq<AllowanceInfo>, n: int) -> Seq<AllowanceInfo>
    decreases n,
{
    if n <= 0 {
        Seq::empty()
    } else if superseded(all, n - 1) {
        latest_of_first(all, n - 1)
    } else {
        latest_of_first(all, n - 1).push(all[n - 1])
    }
}

/// The snapshots that count: of each target the one that came last, in
/// the order in which they came.
pub open spec fn latest(all: Seq<AllowanceInfo>) -> Seq<AllowanceInfo> {
    latest_of_first(all, all.len() as int)
}

fn is_superseded(all: &Vec<AllowanceInfo>, i: usize) -> (found: bool)
    requires
        i < all.len(),
    ensures
        found == superseded(all@, i as int),
{
    let mut j: usize = i + 1;
    while j < all.len()
        invariant
            i < j <= all.len(),
            forall|k: int| i < k < j ==> !later_of(all@, i as int, k),
        decreases all.len() - j,
    {
        if all[j].same_target(&all[i]) {
            assert(later_of(all@, i as int, j as int));
            return true;
        }
        j += 1;
    }
    false
}

/// Keeps of each target the snapshot that came last.
pub fn latest_snapshots(drained: &Vec<AllowanceInfo>) -> (fresh: Vec<AllowanceInfo>)
    ensures
        fresh@ == latest(drained@),
{
    let mut fresh: Vec<AllowanceInfo> = Vec::new();
    let mut i: usize = 0;
    while i < drained.len()
        invariant
            i <= drained.len(),
            fresh@ == latest_of_first(drained@, i as int),
        decreases drained.len() - i,
    {
        if !is_superseded(drained, i) {
            fresh.push(drained[i].duplicate());
        }
        i += 1;
    }
    fresh
}

/// What `latest_of_first` keeps is what no later snapshot supersedes.
pub proof fn lemma_latest_members(all: Seq<AllowanceInfo>, n: int, info: AllowanceInfo)
    requires
        0 <= n <= all.len(),
    ensures
        latest_of_first(all, n).contains(info) <==> exists|k: int|
            0 <= k < n && #[trigger] all[k] == info && !superseded(all, k),
    decreases n,
{
    if n > 0 {
        lemma_latest_members(all, n - 1, info);
        let before = latest_of_first(all, n - 1);
        let now = latest_of_first(all, n);
        if superseded(all, n - 1) {
            if exists|k: int| 0 <= k < n && #[trigger] all[k] == info && !superseded(all, k) {
                let k = choose|k: int| 0 <= k < n && #[trigger] all[k] == info && !superseded(all, k);
                assert(0 <= k < n - 1 && all[k] == info && !superseded(all, k));
            }
        } else {
            assert(now == before.push(all[n - 1]));
            if now.contains(info) {
                let p = choose|p: int| 0 <= p < now.len() && now[p] == info;
                if p < before.len() {
                    assert(before[p] == info);
                    assert(before.contains(info));
                    let k = choose|k: int|
                        0 <= k < n - 1 && #[trigger] all[k] == info && !superseded(all, k);
                    assert(0 <= k < n && all[k] == info && !superseded(all, k));
                } else {
                    assert(all[n - 1] == info);
                }
            }
            if exists|k: int| 0 <= k < n && #[trigger] all[k] == info && !superseded(all, k) {
                let k = choose|k: int| 0 <= k < n && #[trigger] all[k] == info && !superseded(all, k);
                if k < n - 1 {
                    assert(before.contains(info));
                    let p = choose|p: int| 0 <= p < before.len() && before[p] == info;
                    assert(now[p] == info);
                } else {
                    assert(now[before.len() as int] == info);
                }
            }
        }
    } else {
        assert(latest_of_first(all, n).len() == 0);
    }
}

/// Each snapshot that `latest_of_first` keeps stands at a place of its
/// own among the first `n`, the places in rising order, and nothing
/// supersedes it.
pub proof fn lemma_latest_places(all: Seq<AllowanceInfo>, n: int) -> (places: Seq<int>)
    requires
        0 <= n <= all.len(),
    ensures
        places.len() == latest_of_first(all, n).len(),
        forall|p: int|
            0 <= p < places.len() ==> 0 <= #[trigger] places[p] < n && all[places[p]]
                == latest_of_first(all, n)[p] && !superseded(all, places[p]),
        forall|p: int, q: int| 0 <= p < q < places.len() ==> places[p] < places[q],
    decreases n,
{
    if n <= 0 {
        Seq::empty()
    } else {
        let before = lemma_latest_places(all, n - 1);
        if superseded(all, n - 1) {
            before
        } else {
            before.push(n - 1)
        }
    }
}

/// Among the snapshots that count, no two are of the same target.
pub proof fn lemma_latest_one_per_target(all: Seq<AllowanceInfo>, p: int, q: int)
    requires
        0 <= p < q < latest(all).len(),
    ensures
        latest(all)[p].identity() != latest(all)[q].identity(),
{
    let places = lemma_latest_places(all, all.len() as int);
    assert(places[p] < places[q]);
    if latest(all)[p].identity() == latest(all)[q].identity() {
        assert(later_of(all, places[p], places[q]));
        assert(superseded(all, places[p]));
    }
}

/// The snapshots that count are the last of their targets: one of them
/// is of the target of any snapshot that came.
pub proof fn lemma_latest_covers(all: Seq<AllowanceInfo>, i: int) -> (k: int)
    requires
        0 <= i < all.len(),
    ensures
        i <= k < all.len(),
        all[k].identity() == all[i].identity(),
        !superseded(all, k),
        latest(all).contains(all[k]),
    decreases all.len() - i,
{
    if superseded(all, i) {
        let j = choose|j: int| later_of(all, i, j);
        lemma_latest_covers(all, j)
    } else {
        lemma_latest_members(all, all.len() as int, all[i]);
        i
    }
}

/// With a running target, whoever wins the pool beats it: the pool holds
/// only what is strictly less difficult.
pub proof fn lemma_pool_winner_beats(fresh: Seq<AllowanceInfo>, current: AllowanceInfo, w: int)
    requires
        is_winner(candidates(fresh, Some(current.difficulty)), w),
    ensures
        outranks(candidates(fresh, Some(current.difficulty))[w], current),
        candidates(fresh, Some(current.difficulty))[w].difficulty < current.difficulty,
{
    let pred = |info: AllowanceInfo| eligible(info, Some(current.difficulty));
    fresh.lemma_filter_pred(pred, w);
}

/// A pool is empty exactly when nothing in `fresh` is eligible.
pub proof fn lemma_pool_empty(fresh: Seq<AllowanceInfo>, bound: Option<u128>)
    ensures
        candidates(fresh, bound).len() == 0 <==> forall|i: int|
            0 <= i < fresh.len() ==> !eligible(#[trigger] fresh[i], bound),
{
    let pred = |info: AllowanceInfo| eligible(info, bound);
    let pool = candidates(fresh, bound);
    if pool.len() > 0 {
        fresh.lemma_filter_pred(pred, 0);
        fresh.lemma_filter_contains_rev(pred, pool[0]);
        assert(fresh.contains(pool[0]));
    }
    assert forall|i: int| 0 <= i < fresh.len() && eligible(#[trigger] fresh[i], bound) implies pool.len()
        > 0 by {
        fresh.lemma_filter_contains(pred, i);
        assert(pool.contains(fresh[i]));
    }
}

/// The first place in `fresh` of a snapshot with this identity.
pub open spec fn place_of(fresh: Seq<AllowanceInfo>, identity: Seq<char>) -> Option<int> {
    if exists|i: int| 0 <= i < fresh.len() && (#[trigger] fresh[i]).identity() == identity {
        Some(
            choose|i: int|
                0 <= i < fresh.len() && (#[trigger] fresh[i]).identity() == identity && forall|
                    k: int,
                | 0 <= k < i ==> (#[trigger] fresh[k]).identity() != identity,
        )
    } else {
        None
    }
}

/// Looks among `fresh` for a snapshot of the target of `current`.
pub fn find_update(fresh: &Vec<AllowanceInfo>, current: &AllowanceInfo) -> (place: Option<usize>)
    ensures
        match place {
            Some(i) => i < fresh.len() && place_of(fresh@, current.identity()) == Some(i as int)
                && fresh[i as int].identity() == current.identity(),
            None => place_of(fresh@, current.identity()) is None,
        },
        place is None <==> forall|i: int|
            0 <= i < fresh.len() ==> (#[trigger] fresh[i]).identity() != current.identity(),
{
    let ghost identity = current.identity();
    let mut i: usize = 0;
    while i < fresh.len()
        invariant
            i <= fresh.len(),
            identity == current.identity(),
            forall|k: int| 0 <= k < i ==> (#[trigger] fresh[k]).identity() != identity,
        decreases fresh.len() - i,
    {
        if fresh[i].same_target(current) {
            proof {
                let c = choose|c: int|
                    0 <= c < fresh.len() && (#[trigger] fresh[c]).identity() == identity && forall|
                        k: int,
                    | 0 <= k < c ==> (#[trigger] fresh[k]).identity() != identity;
                assert(fresh[i as int].identity() == identity);
                if c < i {
                    assert(fresh[c].identity() != identity);
                } else if i < c {
                    assert(fresh[i as int].identity() != identity);
                }
            }
            return Some(i);
        }
        i += 1;
    }
    None
}

} // verus!
