//! Stable ranking of keyed items: the position every item takes when the
//! items are ordered by key, ties kept in their original order.
use vstd::prelude::*;

verus! {

/// A ranking key: priority rank (ascending), score (descending), issue number
/// (descending).
pub struct RankKey {
    pub rank: int,
    pub score: int,
    pub number: int,
}

/// `a` is ordered strictly before `b`.
pub open spec fn key_lt(a: RankKey, b: RankKey) -> bool {
    ||| a.rank < b.rank
    ||| (a.rank == b.rank && a.score > b.score)
    ||| (a.rank == b.rank && a.score == b.score && a.number > b.number)
}

/// Item `k` comes before item `j` in the stable order of `keys`.
pub open spec fn ranked_before(keys: Seq<RankKey>, k: int, j: int) -> bool {
    key_lt(keys[k], keys[j]) || (keys[k] == keys[j] && k < j)
}

/// Number of items among the first `m` that come before item `j`.
pub open spec fn count_before(keys: Seq<RankKey>, j: int, m: int) -> nat
    decreases m,
{
    if m <= 0 {
        0
    } else {
        count_before(keys, j, m - 1) + (if ranked_before(keys, m - 1, j) { 1nat } else { 0nat })
    }
}

/// The position of item `j` once all items are stably ordered by key.
pub open spec fn sort_pos(keys: Seq<RankKey>, j: int) -> nat {
    count_before(keys, j, keys.len() as int)
}

pub proof fn lemma_count_before_bound(keys: Seq<RankKey>, j: int, m: int)
    requires
        0 <= m <= keys.len(),
        0 <= j < keys.len(),
    ensures
        count_before(keys, j, m) + (if j < m { 1int } else { 0int }) <= m,
    decreases m,
{
    if m > 0 {
        lemma_count_before_bound(keys, j, m - 1);
    }
}

/// When `a` comes before `b`, everything before `a` is before `b`, and `a` too.
pub proof fn lemma_count_before_strict(keys: Seq<RankKey>, a: int, b: int, m: int)
    requires
        0 <= m <= keys.len(),
        0 <= a < keys.len(),
        0 <= b < keys.len(),
        ranked_before(keys, a, b),
    ensures
        count_before(keys, a, m) + (if a < m { 1int } else { 0int }) <= count_before(keys, b, m),
    decreases m,
{
    if m > 0 {
        lemma_count_before_strict(keys, a, b, m - 1);
    }
}

/// Distinct items take distinct positions, and each position is below the count.
pub proof fn lemma_sort_pos_distinct(keys: Seq<RankKey>, a: int, b: int)
    requires
        0 <= a < keys.len(),
        0 <= b < keys.len(),
        a != b,
    ensures
        sort_pos(keys, a) != sort_pos(keys, b),
        sort_pos(keys, a) < keys.len(),
{
    lemma_count_before_bound(keys, a, keys.len() as int);
    if ranked_before(keys, a, b) {
        lemma_count_before_strict(keys, a, b, keys.len() as int);
    } else {
        lemma_count_before_strict(keys, b, a, keys.len() as int);
    }
}

pub proof fn lemma_sort_pos_bound(keys: Seq<RankKey>, a: int)
    requires
        0 <= a < keys.len(),
    ensures
        sort_pos(keys, a) < keys.len(),
{
    lemma_count_before_bound(keys, a, keys.len() as int);
}

/// An item placed earlier than another never has a strictly greater key:
/// positions follow the key order.
pub proof fn lemma_sort_pos_ordered(keys: Seq<RankKey>, a: int, b: int)
    requires
        0 <= a < keys.len(),
        0 <= b < keys.len(),
        sort_pos(keys, a) < sort_pos(keys, b),
    ensures
        !key_lt(keys[b], keys[a]),
        keys[a] == keys[b] ==> a < b,
{
    if ranked_before(keys, b, a) {
        lemma_count_before_strict(keys, b, a, keys.len() as int);
    }
}

/// Inserting item `m` at `count_before(keys, m, m)` into the stably ordered
/// first `m` items moves exactly the items it precedes one place up.
pub proof fn lemma_insert_shift(keys: Seq<RankKey>, j: int, m: int)
    requires
        0 <= j < m < keys.len(),
    ensures
        count_before(keys, m, m) <= count_before(keys, j, m) <==> ranked_before(keys, m, j),
        count_before(keys, j, m + 1) == count_before(keys, j, m) + (if ranked_before(keys, m, j) {
            1int
        } else {
            0int
        }),
        count_before(keys, m, m + 1) == count_before(keys, m, m),
        count_before(keys, j, m) < m,
{
    lemma_count_before_bound(keys, j, m);
    if ranked_before(keys, m, j) {
        lemma_count_before_strict(keys, m, j, m);
    } else {
        lemma_count_before_strict(keys, j, m, m);
    }
}

} // verus!

verus! {

/// Views of executable ranking keys `(rank, score, number)`.
pub open spec fn key_views(keys: Seq<(u8, i32, u64)>) -> Seq<RankKey> {
    keys.map_values(|k: (u8, i32, u64)| RankKey { rank: k.0 as int, score: k.1 as int, number: k.2 as int })
}

fn ranked_before_exec(keys: &Vec<(u8, i32, u64)>, k: usize, j: usize) -> (r: bool)
    requires
        k < keys.len(),
        j < keys.len(),
    ensures
        r == ranked_before(key_views(keys@), k as int, j as int),
{
    let a = keys[k];
    let b = keys[j];
    let lt = a.0 < b.0 || (a.0 == b.0 && a.1 > b.1) || (a.0 == b.0 && a.1 == b.1 && a.2 > b.2);
    let eq = a.0 == b.0 && a.1 == b.1 && a.2 == b.2;
    let ghost kv = key_views(keys@);
    assert(kv[k as int] == RankKey { rank: a.0 as int, score: a.1 as int, number: a.2 as int });
    assert(kv[j as int] == RankKey { rank: b.0 as int, score: b.1 as int, number: b.2 as int });
    lt || (eq && k < j)
}

/// Orders `items` stably by their keys: item `j` lands at `sort_pos(keys, j)`.
pub fn stable_rank<T>(items: Vec<T>, keys: &Vec<(u8, i32, u64)>) -> (r: Vec<T>)
    requires
        items.len() == keys.len(),
    ensures
        r.len() == items.len(),
        forall|j: int|
            0 <= j < items.len() ==> r@[sort_pos(key_views(keys@), j) as int] == items@[j],
{
    let ghost orig = items@;
    let ghost kv = key_views(keys@);
    let n = items.len();
    let mut rest = items;
    let mut out: Vec<T> = Vec::new();
    let mut m: usize = 0;
    while m < n
        invariant
            n == orig.len() == keys.len() == kv.len(),
            kv == key_views(keys@),
            m <= n,
            rest@ == orig.skip(m as int),
            out.len() == m,
            forall|j: int| 0 <= j < m ==> out@[count_before(kv, j, m as int) as int] == orig[j],
        decreases n - m,
    {
        let mut p: usize = 0;
        let mut k: usize = 0;
        while k < m
            invariant
                m < n == keys.len() == kv.len(),
                kv == key_views(keys@),
                k <= m,
                p as nat == count_before(kv, m as int, k as int),
                p <= k,
            decreases m - k,
        {
            if ranked_before_exec(keys, k, m) {
                p = p + 1;
            }
            k = k + 1;
        }
        let item = rest.remove(0);
        assert(item == orig[m as int]);
        assert(rest@ == orig.skip(m + 1));
        let ghost before = out@;
        out.insert(p, item);
        proof {
            assert forall|j: int| 0 <= j < m + 1 implies out@[count_before(kv, j, m + 1) as int]
                == orig[j] by {
                if j < m {
                    lemma_insert_shift(kv, j, m as int);
                } else {
                    assert(j == m);
                    lemma_insert_shift_self(kv, m as int);
                }
            }
        }
        m = m + 1;
    }
    out
}

proof fn lemma_insert_shift_self(keys: Seq<RankKey>, m: int)
    requires
        0 <= m < keys.len(),
    ensures
        count_before(keys, m, m + 1) == count_before(keys, m, m),
{
}

} // verus!
