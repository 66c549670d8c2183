//! How collected prices become one price: the mean, or the median of what is left when
//! the lowest and the highest price are set aside.
use vstd::prelude::*;
use vstd::relations::{sorted_by, total_ordering};
use vstd::seq_lib::lemma_sorted_unique;
use vstd::arithmetic::div_mod::{lemma_fundamental_div_mod, lemma_fundamental_div_mod_converse_div};
use crate::host::{listed, lists_prices, price_at, price_count, price_items, put_price};
use crate::oracle::Oracle;

verus! {

/// The aggregation mode that asks for the trimmed median; it is the mode of a new store.
pub const MODE_MEDIAN: i128 = 0;

/// The aggregation mode that asks for the mean; every other mode asks for the trimmed
/// median.
pub const MODE_MEAN: i128 = 1;

/// The order in which prices are sorted.
pub open spec fn price_order() -> spec_fn(i128, i128) -> bool {
    |a: i128, b: i128| a <= b
}

/// `prices` in ascending order.
pub open spec fn ascending(prices: Seq<i128>) -> Seq<i128> {
    prices.sort_by(price_order())
}

/// A sorted list without its first and its last item, where it has three items or more;
/// a shorter list as it is.
pub open spec fn trimmed(sorted: Seq<i128>) -> Seq<i128> {
    if sorted.len() >= 3 {
        sorted.subrange(1, sorted.len() - 1)
    } else {
        sorted
    }
}

/// The median of a sorted, non-empty span: its middle item, or the mean of its two middle
/// items, rounded towards zero.
pub open spec fn middle(span: Seq<i128>) -> int {
    let mid = span.len() as int / 2;
    if span.len() % 2 == 1 {
        span[mid] as int
    } else {
        (span[mid - 1] + span[mid]) / 2
    }
}

/// The sum of `prices`.
pub open spec fn total(prices: Seq<i128>) -> int
    decreases prices.len(),
{
    if prices.len() == 0 {
        0
    } else {
        total(prices.drop_last()) + prices.last()
    }
}

/// The one price that stands for `prices`, all of them positive, under `mode`: none for an
/// empty list; under `MODE_MEAN` the mean, rounded towards zero; otherwise the median of the
/// sorted list after its lowest and highest item are set aside.
pub open spec fn aggregate_of(prices: Seq<i128>, mode: i128) -> Option<i128> {
    if prices.len() == 0 {
        None
    } else if mode == MODE_MEAN {
        Some((total(prices) / prices.len() as int) as i128)
    } else {
        Some(middle(trimmed(ascending(prices))) as i128)
    }
}

/// Whether every item of `prices` is positive.
pub open spec fn all_positive(prices: Seq<i128>) -> bool {
    forall|i: int| 0 <= i < prices.len() ==> (#[trigger] prices[i]) > 0
}

/// Whether `prices` stand in ascending order.
pub open spec fn is_ascending(prices: Seq<i128>) -> bool {
    forall|i: int, j: int| 0 <= i < j < prices.len() ==> prices[i] <= prices[j]
}

/// Prices that stand in ascending order are their own sorted list.
pub proof fn lemma_ascending_of_sorted(prices: Seq<i128>)
    requires
        is_ascending(prices),
    ensures
        ascending(prices) == prices,
{
    assert(sorted_by(prices, price_order()));
    prices.lemma_sort_by_ensures(price_order());
    lemma_price_order_total();
    lemma_sorted_unique(prices, ascending(prices), price_order());
}

/// Exchanging two prices of a list does not change the sorted list.
pub proof fn lemma_ascending_of_exchange(prices: Seq<i128>, i: int, j: int)
    requires
        0 <= i < j < prices.len(),
    ensures
        ascending(prices.update(i, prices[j]).update(j, prices[i])) == ascending(prices),
{
    let exchanged = prices.update(i, prices[j]).update(j, prices[i]);
    lemma_exchange_keeps_items(prices, i, j);
    prices.lemma_sort_by_ensures(price_order());
    exchanged.lemma_sort_by_ensures(price_order());
    lemma_price_order_total();
    lemma_sorted_unique(ascending(exchanged), ascending(prices), price_order());
}

/// The trimmed median takes no notice of the extremes: among three prices or more it lies
/// between the second lowest and the second highest, however low the lowest and however
/// high the highest.
pub proof fn law_trimmed_median_ignores_extremes(sorted: Seq<i128>)
    requires
        is_ascending(sorted),
        sorted.len() >= 3,
    ensures
        sorted[1] <= middle(trimmed(sorted)) <= sorted[sorted.len() - 2],
{
    let span = trimmed(sorted);
    let mid = span.len() as int / 2;
    assert(forall|k: int| 0 <= k < span.len() ==> span[k] == sorted[k + 1]);
    if span.len() % 2 == 1 {
        assert(sorted[1] <= sorted[mid + 1] <= sorted[sorted.len() - 2]);
    } else {
        assert(sorted[1] <= sorted[mid] <= sorted[mid + 1] <= sorted[sorted.len() - 2]);
    }
}

/// The mean of positive prices lies between the lowest and the highest of them.
pub proof fn law_mean_within_range(prices: Seq<i128>, low: i128, high: i128)
    requires
        prices.len() > 0,
        forall|i: int| 0 <= i < prices.len() ==> low <= (#[trigger] prices[i]) <= high,
    ensures
        low <= total(prices) / prices.len() as int <= high,
{
    lemma_total_between(prices, low, high);
    let n = prices.len() as int;
    let sum = total(prices);
    assert(low <= sum / n <= high) by (nonlinear_arith)
        requires
            n > 0,
            n * low <= sum <= n * high,
    ;
}

proof fn lemma_total_between(prices: Seq<i128>, low: i128, high: i128)
    requires
        forall|i: int| 0 <= i < prices.len() ==> low <= (#[trigger] prices[i]) <= high,
    ensures
        prices.len() * low <= total(prices) <= prices.len() * high,
    decreases prices.len(),
{
    if prices.len() > 0 {
        assert forall|i: int| 0 <= i < prices.drop_last().len() implies low <= (
        #[trigger] prices.drop_last()[i]) <= high by {
            assert(prices.drop_last()[i] == prices[i]);
        }
        lemma_total_between(prices.drop_last(), low, high);
        assert(prices.len() * low == (prices.len() - 1) * low + low) by (nonlinear_arith);
        assert(prices.len() * high == (prices.len() - 1) * high + high) by (nonlinear_arith);
    }
}

proof fn lemma_price_order_total()
    ensures
        total_ordering(price_order()),
{
    let leq = price_order();
    assert forall|x: i128| #[trigger] leq(x, x) by {}
    assert forall|x: i128, y: i128| #[trigger] leq(x, y) && #[trigger] leq(y, x) implies x == y by {}
    assert forall|x: i128, y: i128, z: i128| #[trigger] leq(x, y) && #[trigger] leq(y, z) implies leq(
        x,
        z,
    ) by {}
    assert forall|x: i128, y: i128| #[trigger] leq(x, y) || #[trigger] leq(y, x) by {}
}

proof fn lemma_total_push(prices: Seq<i128>, p: i128)
    ensures
        total(prices.push(p)) == total(prices) + p,
{
    assert(prices.push(p).drop_last() == prices);
}

/// The sum of `n` prices is at most `n` times the largest 128-bit integer, and at least 0
/// where all are positive.
proof fn lemma_total_bounds(prices: Seq<i128>)
    requires
        all_positive(prices),
    ensures
        0 <= total(prices) <= prices.len() * i128::MAX,
        prices.len() > 0 ==> total(prices) > 0,
    decreases prices.len(),
{
    if prices.len() > 0 {
        lemma_total_bounds(prices.drop_last());
        assert(prices.len() * i128::MAX == (prices.len() - 1) * i128::MAX + i128::MAX)
            by (nonlinear_arith);
    }
}

/// One step of summing quotients: where `d * q` stays below `sum`, which is at most `d`
/// times the largest 128-bit integer, so does `q + p / d` after `p` is added.
proof fn lemma_split_step(d: int, q: int, p: int, part: int)
    requires
        d > 0,
        p >= 0,
        q >= 0,
        part == d * q + d * (p / d),
        part <= d * i128::MAX,
    ensures
        d * (q + p / d) == d * q + d * (p / d),
        q + p / d <= i128::MAX,
        p / d >= 0,
{
    assert(d * (q + p / d) == d * q + d * (p / d)) by (nonlinear_arith);
    assert(p / d >= 0) by (nonlinear_arith)
        requires
            d > 0,
            p >= 0,
    ;
    assert(q + p / d <= i128::MAX) by (nonlinear_arith)
        requires
            d > 0,
            d * (q + p / d) <= d * i128::MAX,
    ;
}

/// The end of summing quotients and remainders apart: the quotient of the whole sum.
proof fn lemma_split_end(d: int, q: int, r: int, sum: int)
    requires
        d > 0,
        q >= 0,
        r >= 0,
        sum == d * q + r,
        sum <= d * i128::MAX,
        r == d * (r / d) + r % d,
    ensures
        q + r / d == sum / d,
        q + r / d <= i128::MAX,
{
    assert(0 <= r % d < d) by (nonlinear_arith)
        requires
            d > 0,
    ;
    assert(sum == (q + r / d) * d + r % d) by (nonlinear_arith)
        requires
            sum == d * q + r,
            r == d * (r / d) + r % d,
    ;
    lemma_fundamental_div_mod_converse_div(sum, d, q + r / d, r % d);
    assert(q + r / d <= i128::MAX) by (nonlinear_arith)
        requires
            d > 0,
            (q + r / d) * d + r % d <= d * i128::MAX,
            r % d >= 0,
    ;
}

/// Exchanging two items of a list changes no item's number of occurrences.
proof fn lemma_exchange_keeps_items(s: Seq<i128>, i: int, j: int)
    requires
        0 <= i < j < s.len(),
    ensures
        s.update(i, s[j]).update(j, s[i]).to_multiset() == s.to_multiset(),
{
    broadcast use vstd::multiset::group_multiset_axioms;

    let between = s.update(i, s[j]);
    let m = s.to_multiset();
    vstd::seq_lib::to_multiset_update(s, i, s[j]);
    vstd::seq_lib::to_multiset_update(between, j, s[i]);
    s.to_multiset_ensures();
    assert(s.contains(s[i]) && s.contains(s[j]));
    assert(between[j] == s[j]);
    let after = between.update(j, s[i]).to_multiset();
    assert(after == m.insert(s[j]).remove(s[i]).insert(s[i]).remove(s[j]));
    assert forall|v: i128| after.count(v) == m.count(v) by {}
    assert(after =~= m);
}

impl Oracle {
    /// Sorts a host vector of prices in place, ascending, by exchanging items that stand in
    /// the wrong order.
    fn sort_prices(prices: &mut soroban_sdk::Vec<i128>)
        requires
            lists_prices(*old(prices)),
            all_positive(listed(*old(prices))),
        ensures
            lists_prices(*final(prices)),
            all_positive(listed(*final(prices))),
            listed(*final(prices)).len() == listed(*old(prices)).len(),
            listed(*final(prices)) == ascending(listed(*old(prices))),
    {
        let n: u32 = price_count(prices);
        let ghost start: Seq<i128> = listed(*prices);
        let mut i: u32 = 0;
        while i < n
            invariant
                i <= n,
                n == price_items(*prices).len(),
                lists_prices(*prices),
                all_positive(listed(*prices)),
                listed(*prices).to_multiset() == start.to_multiset(),
                forall|a: int, b: int| 0 <= a < i && a < b < n ==> listed(*prices)[a] <= listed(*prices)[b],
            decreases n - i,
        {
            let mut j: u32 = i + 1;
            while j < n
                invariant
                    i < j <= n,
                    n == price_items(*prices).len(),
                    lists_prices(*prices),
                    all_positive(listed(*prices)),
                    listed(*prices).to_multiset() == start.to_multiset(),
                    forall|a: int, b: int| 0 <= a < i && a < b < n ==> listed(*prices)[a] <= listed(*prices)[b],
                    forall|b: int| i < b < j ==> listed(*prices)[i as int] <= listed(*prices)[b],
                decreases n - j,
            {
                let ghost before: Seq<i128> = listed(*prices);
                let low: i128 = price_at(prices, i).unwrap();
                let high: i128 = price_at(prices, j).unwrap();
                if low > high {
                    put_price(prices, i, high);
                    put_price(prices, j, low);
                    proof {
                        assert(before[i as int] == low && before[j as int] == high);
                        assert(listed(*prices) =~= before.update(i as int, high).update(j as int, low));
                        lemma_exchange_keeps_items(before, i as int, j as int);
                    }
                }
                j += 1;
            }
            i += 1;
        }
        proof {
            let sorted: Seq<i128> = listed(*prices);
            assert(sorted_by(sorted, price_order()));
            start.lemma_sort_by_ensures(price_order());
            lemma_price_order_total();
            lemma_sorted_unique(sorted, ascending(start), price_order());
        }
    }

    /// The median of a sorted host vector of prices, its lowest and highest price set aside
    /// where it lists three or more.
    fn trimmed_median(prices: &soroban_sdk::Vec<i128>) -> (median: i128)
        requires
            lists_prices(*prices),
            all_positive(listed(*prices)),
            listed(*prices).len() > 0,
        ensures
            median == middle(trimmed(listed(*prices))),
    {
        let n: u32 = price_count(prices);
        let start: u32 = if n >= 3 { 1 } else { 0 };
        let end: u32 = if n >= 3 { n - 1 } else { n };
        let span: u32 = end - start;
        let mid: u32 = start + span / 2;
        let ghost kept: Seq<i128> = trimmed(listed(*prices));
        assert(kept.len() == span);
        assert(forall|k: int| 0 <= k < span ==> kept[k] == listed(*prices)[start + k]);
        if span % 2 == 1 {
            price_at(prices, mid).unwrap()
        } else {
            let below: i128 = price_at(prices, mid - 1).unwrap();
            let above: i128 = price_at(prices, mid).unwrap();
            assert(below == kept[span as int / 2 - 1] && above == kept[span as int / 2]);
            below / 2 + above / 2 + (below % 2 + above % 2) / 2
        }
    }

    /// The mean of a host vector of prices, rounded towards zero. The sum itself may exceed
    /// 128 bits, so quotients and remainders are summed apart.
    fn mean(prices: &soroban_sdk::Vec<i128>) -> (mean: i128)
        requires
            lists_prices(*prices),
            all_positive(listed(*prices)),
            listed(*prices).len() > 0,
        ensures
            mean == total(listed(*prices)) / listed(*prices).len() as int,
    {
        let n: u32 = price_count(prices);
        let d: i128 = n as i128;
        let ghost items: Seq<i128> = listed(*prices);
        let mut quotients: i128 = 0;
        let mut remainders: i128 = 0;
        let mut k: u32 = 0;
        while k < n
            invariant
                k <= n,
                0 < n == items.len(),
                d == n,
                items == listed(*prices),
                lists_prices(*prices),
                all_positive(items),
                0 <= quotients,
                0 <= remainders <= k * (u32::MAX as int),
                d * quotients + remainders == total(items.take(k as int)),
            decreases n - k,
        {
            let p: i128 = price_at(prices, k).unwrap();
            proof {
                let seen = items.take(k as int + 1);
                assert(seen =~= items.take(k as int).push(p));
                lemma_total_push(items.take(k as int), p);
                lemma_total_bounds(seen);
                lemma_fundamental_div_mod(p as int, d as int);
                lemma_split_step(d as int, quotients as int, p as int, total(seen) - remainders - p % d);
            }
            quotients = quotients + p / d;
            remainders = remainders + p % d;
            k += 1;
        }
        proof {
            assert(items.take(n as int) =~= items);
            lemma_total_bounds(items);
            lemma_fundamental_div_mod(remainders as int, d as int);
            lemma_split_end(d as int, quotients as int, remainders as int, total(items));
        }
        quotients + remainders / d
    }

    /// The one price that stands for the collected `prices` under `mode`.
    ///
    /// Gives nothing for an empty list. Under `MODE_MEAN` it gives the mean; under every
    /// other mode it sorts the prices, sets the lowest and the highest aside where there are
    /// three or more, and gives the median of the rest.
    pub fn aggregate(prices: soroban_sdk::Vec<i128>, mode: i128) -> (price: Option<i128>)
        requires
            lists_prices(prices),
            all_positive(listed(prices)),
        ensures
            price == aggregate_of(listed(prices), mode),
    {
        let mut prices = prices;
        if price_count(&prices) == 0 {
            return None;
        }
        if mode == MODE_MEAN {
            Some(Self::mean(&prices))
        } else {
            Self::sort_prices(&mut prices);
            Some(Self::trimmed_median(&prices))
        }
    }
}

} // verus!
