//! Sums over event sequences and the first-occurrence order of names.
use vstd::prelude::*;
use crate::models::Entry;

verus! {

/// Sum of `f` over the events.
pub open spec fn sum_of(es: Seq<Entry>, f: spec_fn(Entry) -> int) -> int
    decreases es.len(),
{
    if es.len() == 0 {
        0
    } else {
        sum_of(es.drop_last(), f) + f(es.last())
    }
}

/// All four token counts of an event.
pub open spec fn total_of() -> spec_fn(Entry) -> int {
    |e: Entry| e.usage.total_spec()
}

/// The events' token counts fit in a `u64` when added up.
pub open spec fn tokens_fit(es: Seq<Entry>) -> bool {
    sum_of(es, total_of()) <= u64::MAX
}

/// Distinct values in order of first occurrence.
pub open spec fn distinct<A>(s: Seq<A>) -> Seq<A>
    decreases s.len(),
{
    if s.len() == 0 {
        Seq::empty()
    } else {
        let d = distinct(s.drop_last());
        if d.contains(s.last()) {
            d
        } else {
            d.push(s.last())
        }
    }
}

/// A sum of values that are zero on every event is zero.
pub proof fn lemma_sum_zero(es: Seq<Entry>, f: spec_fn(Entry) -> int)
    requires
        forall|i: int| 0 <= i < es.len() ==> f(#[trigger] es[i]) == 0,
    ensures
        sum_of(es, f) == 0,
    decreases es.len(),
{
    if es.len() > 0 {
        lemma_sum_zero(es.drop_last(), f);
    }
}

/// Sums are monotone in the summand.
pub proof fn lemma_sum_mono(es: Seq<Entry>, f: spec_fn(Entry) -> int, g: spec_fn(Entry) -> int)
    requires
        forall|e: Entry| #[trigger] f(e) <= g(e),
    ensures
        sum_of(es, f) <= sum_of(es, g),
    decreases es.len(),
{
    if es.len() > 0 {
        lemma_sum_mono(es.drop_last(), f, g);
    }
}

/// A sum of non-negative values over a prefix is at most the whole sum.
pub proof fn lemma_sum_prefix(es: Seq<Entry>, n: int, f: spec_fn(Entry) -> int)
    requires
        0 <= n <= es.len(),
        forall|e: Entry| #[trigger] f(e) >= 0,
    ensures
        sum_of(es.take(n), f) <= sum_of(es, f),
    decreases es.len(),
{
    if n < es.len() {
        assert(es.drop_last().take(n) =~= es.take(n));
        lemma_sum_prefix(es.drop_last(), n, f);
    } else {
        assert(es.take(n) =~= es);
    }
}

/// The sum over a concatenation is the sum of the sums.
pub proof fn lemma_sum_concat(a: Seq<Entry>, b: Seq<Entry>, f: spec_fn(Entry) -> int)
    ensures
        sum_of(a + b, f) == sum_of(a, f) + sum_of(b, f),
    decreases b.len(),
{
    if b.len() > 0 {
        assert((a + b).drop_last() =~= a + b.drop_last());
        lemma_sum_concat(a, b.drop_last(), f);
    } else {
        assert(a + b =~= a);
    }
}

/// A value occurs among the distinct values exactly when it occurs at all,
/// and the distinct values hold no value twice.
pub proof fn lemma_distinct<A>(s: Seq<A>)
    ensures
        forall|x: A| distinct(s).contains(x) <==> s.contains(x),
        forall|i: int, j: int|
            0 <= i < j < distinct(s).len() ==> distinct(s)[i] != distinct(s)[j],
    decreases s.len(),
{
    if s.len() > 0 {
        let p = s.drop_last();
        lemma_distinct(p);
        assert(s =~= p.push(s.last()));
        assert forall|x: A| distinct(s).contains(x) <==> s.contains(x) by {
            if s.contains(x) && x != s.last() {
                let k = choose|k: int| 0 <= k < s.len() && s[k] == x;
                assert(p[k] == x);
            }
            if p.contains(x) {
                let k = choose|k: int| 0 <= k < p.len() && p[k] == x;
                assert(s[k] == x);
            }
            if !distinct(p).contains(s.last()) && x == s.last() {
                assert(distinct(s)[distinct(s).len() - 1] == x);
            }
            if distinct(s).contains(x) && !distinct(p).contains(x) {
                let k = choose|k: int| 0 <= k < distinct(s).len() && distinct(s)[k] == x;
                if k < distinct(p).len() {
                    assert(distinct(p)[k] == x);
                }
            }
            if distinct(p).contains(x) {
                let k = choose|k: int| 0 <= k < distinct(p).len() && distinct(p)[k] == x;
                assert(distinct(s)[k] == x);
            }
        }
    }
}

} // verus!
