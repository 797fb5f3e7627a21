//! Stable descending order by key, described by each item's rank.
use vstd::prelude::*;

verus! {

/// Item `j` comes before item `i`: a larger key, or an equal key and an
/// earlier position.
pub open spec fn ahead(keys: Seq<int>, j: int, i: int) -> bool {
    keys[j] > keys[i] || (keys[j] == keys[i] && j < i)
}

/// Number of items among the first `m` that come before item `i`.
pub open spec fn count_ahead(keys: Seq<int>, i: int, m: int) -> nat
    decreases m,
{
    if m <= 0 {
        0
    } else {
        count_ahead(keys, i, m - 1) + if ahead(keys, m - 1, i) { 1nat } else { 0nat }
    }
}

/// Position of item `i` once the items are ordered by descending key,
/// equal keys keeping their order.
pub open spec fn rank(keys: Seq<int>, i: int) -> nat {
    count_ahead(keys, i, keys.len() as int)
}

proof fn lemma_count_ahead(keys: Seq<int>, i: int, j: int, m: int)
    requires
        0 <= i < keys.len(),
        0 <= j < keys.len(),
        0 <= m <= keys.len(),
    ensures
        count_ahead(keys, i, m) <= m - (if i < m { 1int } else { 0int }),
        ahead(keys, i, j) ==> count_ahead(keys, i, m) + (if i < m { 1int } else { 0int })
            <= count_ahead(keys, j, m),
    decreases m,
{
    if m > 0 {
        lemma_count_ahead(keys, i, j, m - 1);
    }
}

/// Ranks are positions: below the count, and different for different items.
pub proof fn lemma_rank(keys: Seq<int>)
    ensures
        forall|i: int| 0 <= i < keys.len() ==> #[trigger] rank(keys, i) < keys.len(),
        forall|i: int, j: int|
            0 <= i < keys.len() && 0 <= j < keys.len() && i != j
                ==> #[trigger] rank(keys, i) != #[trigger] rank(keys, j),
{
    assert forall|i: int| 0 <= i < keys.len() implies #[trigger] rank(keys, i) < keys.len() by {
        lemma_count_ahead(keys, i, i, keys.len() as int);
    }
    assert forall|i: int, j: int|
        0 <= i < keys.len() && 0 <= j < keys.len() && i != j
            implies #[trigger] rank(keys, i) != #[trigger] rank(keys, j) by {
        lemma_count_ahead(keys, i, j, keys.len() as int);
        lemma_count_ahead(keys, j, i, keys.len() as int);
    }
}

/// The keys as integers.
pub open spec fn as_ints(keys: Seq<u128>) -> Seq<int> {
    keys.map_values(|k: u128| k as int)
}

/// The rank of every key.
pub fn rank_positions(keys: &Vec<u128>) -> (pos: Vec<usize>)
    ensures
        pos.len() == keys.len(),
        forall|i: int| 0 <= i < keys.len() ==> pos[i] == rank(as_ints(keys@), i),
{
    let ghost ks = as_ints(keys@);
    let n = keys.len();
    let mut pos: Vec<usize> = Vec::new();
    let mut i: usize = 0;
    while i < n
        invariant
            n == keys.len(),
            ks == as_ints(keys@),
            0 <= i <= n,
            pos.len() == i,
            forall|k: int| 0 <= k < i ==> pos[k] == rank(ks, k),
        decreases n - i,
    {
        let mut c: usize = 0;
        let mut j: usize = 0;
        while j < n
            invariant
                n == keys.len(),
                ks == as_ints(keys@),
                0 <= i < n,
                0 <= j <= n,
                c == count_ahead(ks, i as int, j as int),
                c <= j,
            decreases n - j,
        {
            if keys[j] > keys[i] || (keys[j] == keys[i] && j < i) {
                c = c + 1;
            }
            j = j + 1;
        }
        pos.push(c);
        i = i + 1;
    }
    pos
}

} // verus!
