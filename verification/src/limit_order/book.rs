//! The order book of a pair and the queries over its price ticks. A side of
//! the book is given by its ticks in ascending price order, each with the
//! number of orders resting at that price.
use vstd::prelude::*;
use crate::math::{DECIMAL_FRACTIONAL, spec_mul_dec, spec_from_ratio, dec_checked_mul, dec_checked_from_ratio, page_limit};
use super::types::{OrderDirection, Outcome};
use super::order::{Order, OrderWithFee};

verus! {

/// Orders listed when no limit is given.
pub const DEFAULT_LIMIT: u32 = 10;
/// Most orders listed at once.
pub const MAX_LIMIT: u32 = 100;

/// A trading pair: its assets as stored keys, the spread allowed when
/// matching (decimal atomics), and the least quote amount an order may have.
#[derive(Debug)]
pub struct OrderBook {
    pub base_coin_info: Vec<u8>,
    pub quote_coin_info: Vec<u8>,
    pub spread: Option<u128>,
    pub min_quote_coin_amount: u128,
}

/// A price of one side of the book and how many orders rest there.
#[derive(PartialEq, Eq, Structural, Clone, Copy, Debug)]
pub struct Tick {
    pub price: u128,
    pub total_orders: u64,
}

/// How a listing is ordered: the numbers 1 and 2 of the query messages.
#[derive(PartialEq, Eq, Structural, Clone, Copy, Debug)]
pub enum OrderBy {
    Ascending,
    Descending,
}

/// The order of the number a query passes: 1 ascending, 2 descending,
/// anything else none.
pub open spec fn spec_order_by(v: Option<i32>) -> Option<OrderBy> {
    match v {
        Some(1) => Some(OrderBy::Ascending),
        Some(2) => Some(OrderBy::Descending),
        _ => None,
    }
}

pub fn order_by_from(v: Option<i32>) -> (r: Option<OrderBy>)
    ensures
        r == spec_order_by(v),
{
    match v {
        Some(1) => Some(OrderBy::Ascending),
        Some(2) => Some(OrderBy::Descending),
        _ => None,
    }
}

impl OrderBook {
    pub fn new(base_coin_info: Vec<u8>, quote_coin_info: Vec<u8>, spread: Option<u128>) -> (r: OrderBook)
        ensures
            r.base_coin_info == base_coin_info,
            r.quote_coin_info == quote_coin_info,
            r.spread == spread,
            r.min_quote_coin_amount == 0,
    {
        OrderBook { base_coin_info, quote_coin_info, spread, min_quote_coin_amount: 0 }
    }
}

/// The best price of a side: its highest (`highest`) or lowest tick, whether
/// there is one, and the orders there. With no tick: `0` for the highest,
/// the largest decimal for the lowest.
pub open spec fn spec_best_price(ticks: Seq<Tick>, highest: bool) -> (u128, bool, u64) {
    if ticks.len() == 0 {
        if highest { (0, false, 0) } else { (u128::MAX, false, 0) }
    } else if highest {
        (ticks.last().price, true, ticks.last().total_orders)
    } else {
        (ticks[0].price, true, ticks[0].total_orders)
    }
}

pub fn highest_price(ticks: &Vec<Tick>) -> (r: (u128, bool, u64))
    ensures
        r == spec_best_price(ticks@, true),
{
    if ticks.len() == 0 {
        (0, false, 0)
    } else {
        let t = ticks[ticks.len() - 1];
        (t.price, true, t.total_orders)
    }
}

pub fn lowest_price(ticks: &Vec<Tick>) -> (r: (u128, bool, u64))
    ensures
        r == spec_best_price(ticks@, false),
{
    if ticks.len() == 0 {
        (u128::MAX, false, 0)
    } else {
        let t = ticks[0];
        (t.price, true, t.total_orders)
    }
}

/// Whether a price is in the range of a tick listing: above `start_after`
/// and at most `end` in ascending order; at least `end` and below
/// `start_after` in descending order.
pub open spec fn in_tick_range(price: u128, start_after: Option<u128>, end: Option<u128>, ascending: bool) -> bool {
    if ascending {
        (match start_after { Some(s) => price > s, None => true }) && (match end { Some(e) => price <= e, None => true })
    } else {
        (match end { Some(e) => price >= e, None => true }) && (match start_after { Some(s) => price < s, None => true })
    }
}

/// The page size for a limit.
pub open spec fn page_n(limit: Option<u32>) -> int {
    (if limit is Some && limit->0 < MAX_LIMIT { limit->0 } else if limit is Some { MAX_LIMIT } else { DEFAULT_LIMIT }) as int
}

/// The ticks in range, in ascending order.
pub open spec fn ticks_in_range(ticks: Seq<Tick>, start_after: Option<u128>, end: Option<u128>, ascending: bool) -> Seq<Tick> {
    ticks.filter(|t: Tick| in_tick_range(t.price, start_after, end, ascending))
}

/// The ticks of a side in range, in the listing's order, as many as the
/// page allows.
pub open spec fn spec_ticks_with_end(
    ticks: Seq<Tick>,
    start_after: Option<u128>,
    end: Option<u128>,
    limit: Option<u32>,
    order_by: Option<i32>,
) -> Seq<Tick> {
    let ascending = spec_order_by(order_by) == Some(OrderBy::Ascending);
    let n = page_n(limit);
    let sel = ticks_in_range(ticks, start_after, end, ascending);
    let ordered = if ascending { sel } else { sel.reverse() };
    if ordered.len() <= n { ordered } else { ordered.take(n) }
}

/// Lists the ticks of a side between `start_after` and `end`.
pub fn query_ticks_with_end(
    ticks: &Vec<Tick>,
    start_after: Option<u128>,
    end: Option<u128>,
    limit: Option<u32>,
    order_by: Option<i32>,
) -> (r: Vec<Tick>)
    ensures
        r@ == spec_ticks_with_end(ticks@, start_after, end, limit, order_by),
{
    let ascending = match order_by_from(order_by) {
        Some(OrderBy::Ascending) => true,
        _ => false,
    };
    let n = page_limit(limit, DEFAULT_LIMIT, MAX_LIMIT) as usize;
    let ghost sel = ticks_in_range(ticks@, start_after, end, ascending);
    let mut all: Vec<Tick> = Vec::new();
    let mut i: usize = 0;
    while i < ticks.len()
        invariant
            i <= ticks@.len(),
            all@ == ticks_in_range(ticks@.subrange(0, i as int), start_after, end, ascending),
        decreases ticks@.len() - i,
    {
        proof {
            reveal(Seq::filter);
            assert(ticks@.subrange(0, i + 1).drop_last() =~= ticks@.subrange(0, i as int));
        }
        let t = ticks[i];
        let keep = if ascending {
            (match start_after { Some(s) => t.price > s, None => true }) && (match end { Some(e) => t.price <= e, None => true })
        } else {
            (match end { Some(e) => t.price >= e, None => true }) && (match start_after { Some(s) => t.price < s, None => true })
        };
        if keep {
            all.push(t);
        }
        i = i + 1;
    }
    proof {
        assert(ticks@.subrange(0, ticks@.len() as int) =~= ticks@);
        assert(n == page_n(limit));
        assert(ascending == (spec_order_by(order_by) == Some(OrderBy::Ascending)));
    }
    let mut r: Vec<Tick> = Vec::new();
    let total = all.len();
    let mut k: usize = 0;
    let ghost ordered = if ascending { sel } else { sel.reverse() };
    while k < total && k < n
        invariant
            total == all@.len(),
            all@ == sel,
            ordered == (if ascending { sel } else { sel.reverse() }),
            k <= total,
            k <= n,
            r@ == ordered.take(k as int),
        decreases total - k,
    {
        let t = if ascending { all[k] } else { all[total - 1 - k] };
        proof {
            assert(ordered.take(k + 1) =~= ordered.take(k as int).push(t));
        }
        r.push(t);
        k = k + 1;
    }
    proof {
        assert(ordered.len() == total);
        assert(r@ == ordered.take(k as int));
        if k == total {
            assert(ordered.take(k as int) =~= ordered);
        }
        let spec_r = spec_ticks_with_end(ticks@, start_after, end, limit, order_by);
        if ordered.len() <= n {
            assert(k == total);
            assert(spec_r == ordered);
            assert(r@ =~= spec_r);
        } else {
            assert(k == n);
            assert(spec_r == ordered.take(n as int));
            assert(r@ =~= spec_r);
        }
    }
    r
}

/// Only the prices of a tick listing.
pub open spec fn tick_prices(s: Seq<Tick>) -> Seq<u128> {
    s.map_values(|t: Tick| t.price)
}

/// The prices of a side in the order a matching round walks them, best
/// first: buys from the highest down, sells from the lowest up. `ticks`
/// are the side's ticks in ascending order.
pub fn walk_prices(side: OrderDirection, ticks: &Vec<Tick>) -> (r: Vec<u128>)
    ensures
        r@ == (match side {
            OrderDirection::Buy => tick_prices(ticks@).reverse(),
            OrderDirection::Sell => tick_prices(ticks@),
        }),
{
    let mut r: Vec<u128> = Vec::new();
    let n = ticks.len();
    let mut i: usize = 0;
    while i < n
        invariant
            n == ticks@.len(),
            i <= n,
            r@.len() == i,
            forall|k: int| 0 <= k < i ==> #[trigger] r@[k] == (match side {
                OrderDirection::Buy => ticks@[n - 1 - k].price,
                OrderDirection::Sell => ticks@[k].price,
            }),
        decreases n - i,
    {
        let t = match side {
            OrderDirection::Buy => ticks[n - 1 - i].price,
            OrderDirection::Sell => ticks[i].price,
        };
        r.push(t);
        i = i + 1;
    }
    proof {
        match side {
            OrderDirection::Buy => assert(r@ =~= tick_prices(ticks@).reverse()),
            OrderDirection::Sell => assert(r@ =~= tick_prices(ticks@)),
        }
    }
    r
}

pub fn query_ticks_prices_with_end(
    ticks: &Vec<Tick>,
    start_after: Option<u128>,
    end: Option<u128>,
    limit: Option<u32>,
    order_by: Option<i32>,
) -> (r: Vec<u128>)
    ensures
        r@ == tick_prices(spec_ticks_with_end(ticks@, start_after, end, limit, order_by)),
{
    let listed = query_ticks_with_end(ticks, start_after, end, limit, order_by);
    let mut r: Vec<u128> = Vec::new();
    let mut i: usize = 0;
    while i < listed.len()
        invariant
            i <= listed@.len(),
            r@ == tick_prices(listed@.subrange(0, i as int)),
        decreases listed@.len() - i,
    {
        proof {
            assert(tick_prices(listed@.subrange(0, i + 1)) =~= tick_prices(listed@.subrange(0, i as int)).push(listed@[i as int].price));
        }
        r.push(listed[i].price);
        i = i + 1;
    }
    proof {
        assert(listed@.subrange(0, listed@.len() as int) =~= listed@);
    }
    r
}

pub fn query_ticks_prices(ticks: &Vec<Tick>, start_after: Option<u128>, limit: Option<u32>, order_by: Option<i32>) -> (r: Vec<u128>)
    ensures
        r@ == tick_prices(spec_ticks_with_end(ticks@, start_after, None, limit, order_by)),
{
    query_ticks_prices_with_end(ticks, start_after, None, limit, order_by)
}

/// The tick at `price`, if the side has one.
pub fn query_tick(ticks: &Vec<Tick>, price: u128) -> (r: Option<Tick>)
    ensures
        r matches Some(t) ==> t.price == price && ticks@.contains(t),
        r is None ==> forall|k: int| 0 <= k < ticks@.len() ==> #[trigger] ticks@[k].price != price,
{
    let mut i: usize = 0;
    while i < ticks.len()
        invariant
            i <= ticks@.len(),
            forall|k: int| 0 <= k < i ==> #[trigger] ticks@[k].price != price,
        decreases ticks@.len() - i,
    {
        if ticks[i].price == price {
            return Some(ticks[i]);
        }
        i = i + 1;
    }
    None
}

/// The first buy price, from index `j` of the buys in descending order, that
/// is within the spread above `sell`; it aborts where `sell * factor` is out
/// of range.
pub open spec fn spec_buy_within_spread(buys_desc: Seq<u128>, j: int, sell: u128, factor: u128) -> Outcome<Option<u128>>
    decreases buys_desc.len() - j,
{
    if j < 0 || j >= buys_desc.len() {
        Outcome::Done(None)
    } else if buys_desc[j] >= sell {
        if spec_mul_dec(sell as int, factor as int) > u128::MAX {
            Outcome::Aborted
        } else if buys_desc[j] <= spec_mul_dec(sell as int, factor as int) {
            Outcome::Done(Some(buys_desc[j]))
        } else {
            spec_buy_within_spread(buys_desc, j + 1, sell, factor)
        }
    } else {
        spec_buy_within_spread(buys_desc, j + 1, sell, factor)
    }
}

/// The first sell price, ascending from index `i`, that has a buy price
/// within the spread, with that buy price.
pub open spec fn spec_spread_match(buys_desc: Seq<u128>, sells: Seq<u128>, i: int, factor: u128) -> Outcome<Option<(u128, u128)>>
    decreases sells.len() - i,
{
    if i < 0 || i >= sells.len() {
        Outcome::Done(None)
    } else {
        match spec_buy_within_spread(buys_desc, 0, sells[i], factor) {
            Outcome::Done(Some(b)) => Outcome::Done(Some((b, sells[i]))),
            Outcome::Done(None) => spec_spread_match(buys_desc, sells, i + 1, factor),
            Outcome::Failed => Outcome::Failed,
            Outcome::Aborted => Outcome::Aborted,
        }
    }
}

/// The best buy and sell prices that can match. Without a spread: the
/// highest buy and the lowest sell, when the buy reaches the sell. With a
/// spread: the lowest sell that has a buy price in `[sell, sell * (1 +
/// spread)]`, with the highest such buy.
pub open spec fn spec_find_match_price(spread: Option<u128>, buys: Seq<Tick>, sells: Seq<Tick>) -> Outcome<Option<(u128, u128)>> {
    if buys.len() == 0 {
        Outcome::Done(None)
    } else {
        match spread {
            Some(s) => if DECIMAL_FRACTIONAL + s > u128::MAX {
                Outcome::Aborted
            } else {
                spec_spread_match(tick_prices(buys).reverse(), tick_prices(sells), 0, (DECIMAL_FRACTIONAL + s) as u128)
            },
            None => if sells.len() > 0 && buys.last().price >= sells[0].price {
                Outcome::Done(Some((buys.last().price, sells[0].price)))
            } else {
                Outcome::Done(None)
            },
        }
    }
}

fn buy_within_spread(buys_desc: &Vec<u128>, sell: u128, factor: u128) -> (r: Option<u128>)
    requires
        !(spec_buy_within_spread(buys_desc@, 0, sell, factor) is Aborted),
    ensures
        spec_buy_within_spread(buys_desc@, 0, sell, factor) == Outcome::Done(r),
{
    let mut j: usize = 0;
    while j < buys_desc.len()
        invariant
            j <= buys_desc@.len(),
            spec_buy_within_spread(buys_desc@, 0, sell, factor) == spec_buy_within_spread(buys_desc@, j as int, sell, factor),
            !(spec_buy_within_spread(buys_desc@, 0, sell, factor) is Aborted),
        decreases buys_desc@.len() - j,
    {
        let b = buys_desc[j];
        if b >= sell {
            let bound = match dec_checked_mul(sell, factor) {
                Some(v) => v,
                None => { return None; },
            };
            if b <= bound {
                return Some(b);
            }
        }
        j = j + 1;
    }
    None
}

/// Finds the best buy and sell prices that can match; see
/// `spec_find_match_price`. `buys` and `sells` are the ticks of each side in
/// ascending order.
pub fn find_match_price(spread: Option<u128>, buys: &Vec<Tick>, sells: &Vec<Tick>) -> (r: Option<(u128, u128)>)
    requires
        !(spec_find_match_price(spread, buys@, sells@) is Aborted),
    ensures
        spec_find_match_price(spread, buys@, sells@) == Outcome::Done(r),
{
    let (best_buy_price, found, _) = highest_price(buys);
    if !found {
        return None;
    }
    match spread {
        Some(s) => {
            let factor = DECIMAL_FRACTIONAL + s;
            let mut buys_desc: Vec<u128> = Vec::new();
            let mut k: usize = buys.len();
            while k > 0
                invariant
                    k <= buys@.len(),
                    buys_desc@ == tick_prices(buys@).reverse().take((buys@.len() - k) as int),
                decreases k,
            {
                k = k - 1;
                proof {
                    assert(tick_prices(buys@).reverse().take((buys@.len() - k) as int)
                        =~= tick_prices(buys@).reverse().take((buys@.len() - k - 1) as int).push(buys@[k as int].price));
                }
                buys_desc.push(buys[k].price);
            }
            proof {
                assert(tick_prices(buys@).reverse().take(buys@.len() as int) =~= tick_prices(buys@).reverse());
            }
            let ghost sells_p = tick_prices(sells@);
            let mut i: usize = 0;
            while i < sells.len()
                invariant
                    i <= sells@.len(),
                    sells_p == tick_prices(sells@),
                    buys_desc@ == tick_prices(buys@).reverse(),
                    factor == DECIMAL_FRACTIONAL + s,
                    spec_find_match_price(spread, buys@, sells@) == spec_spread_match(buys_desc@, sells_p, i as int, factor),
                    !(spec_find_match_price(spread, buys@, sells@) is Aborted),
                decreases sells@.len() - i,
            {
                let sell = sells[i].price;
                match buy_within_spread(&buys_desc, sell, factor) {
                    Some(b) => {
                        return Some((b, sell));
                    },
                    None => {},
                }
                i = i + 1;
            }
            None
        },
        None => {
            let (lowest_sell_price, sell_found, _) = lowest_price(sells);
            if sell_found && best_buy_price >= lowest_sell_price {
                Some((best_buy_price, lowest_sell_price))
            } else {
                None
            }
        },
    }
}

/// The buy and sell price lists that can match. With a spread: for each
/// listed sell price (ascending), the lowest buy price in `[sell, sell * (1 +
/// spread)]`, buys collected highest first. Without a spread: the listed buy
/// prices at or above the lowest sell, highest first, against all listed
/// sell prices.
pub open spec fn spec_find_list_match_price(spread: Option<u128>, buys: Seq<Tick>, sells: Seq<Tick>, limit: Option<u32>)
    -> Option<(Seq<u128>, Seq<u128>)>
{
    let sell_list = tick_prices(spec_ticks_with_end(sells, None, None, limit, Some(1)));
    if sell_list.len() == 0 {
        None
    } else {
        let (b, s) = match spread {
            Some(sp) => spec_spread_lists(buys, sell_list, 0, if DECIMAL_FRACTIONAL + sp > u128::MAX { 0 } else { (DECIMAL_FRACTIONAL + sp) as u128 }, DECIMAL_FRACTIONAL + sp > u128::MAX, Seq::empty(), Seq::empty()),
            None => (
                tick_prices(spec_ticks_with_end(buys, None, Some(sell_list[0]), limit, Some(2))),
                sell_list,
            ),
        };
        if b.len() == 0 || s.len() == 0 { None } else { Some((b, s)) }
    }
}

/// The lists built over the sell prices from index `i` on.
pub open spec fn spec_spread_lists(
    buys: Seq<Tick>,
    sells: Seq<u128>,
    i: int,
    factor: u128,
    factor_overflows: bool,
    bl: Seq<u128>,
    sl: Seq<u128>,
) -> (Seq<u128>, Seq<u128>)
    decreases sells.len() - i,
{
    if i < 0 || i >= sells.len() {
        (bl, sl)
    } else {
        let sell = sells[i];
        let sws: u128 = if factor_overflows || spec_mul_dec(sell as int, factor as int) > u128::MAX { 0 } else { spec_mul_dec(sell as int, factor as int) as u128 };
        if sws == 0 {
            spec_spread_lists(buys, sells, i + 1, factor, factor_overflows, bl, sl)
        } else {
            let start: u128 = if sell == 0 { 0 } else { (sell - 1) as u128 };
            let found = tick_prices(spec_ticks_with_end(buys, Some(start), Some(sws), Some(1), Some(1)));
            if found.len() == 0 {
                spec_spread_lists(buys, sells, i + 1, factor, factor_overflows, bl, sl)
            } else {
                spec_spread_lists(buys, sells, i + 1, factor, factor_overflows, seq![found[0]] + bl, sl.push(sell))
            }
        }
    }
}

/// Buy prices listed highest first against sell prices listed in
/// ascending order, each buy paired with the sell at the mirrored place,
/// lie within the spread of their sell: `s[k] <= b[len - 1 - k] <= s[k] *
/// factor`, the factor being `1 + spread` in decimal atomics.
pub open spec fn paired_within_spread(b: Seq<u128>, s: Seq<u128>, factor: int) -> bool {
    &&& b.len() == s.len()
    &&& forall|k: int| 0 <= k < s.len() ==> s[k] <= #[trigger] b[b.len() - 1 - k]
        && b[b.len() - 1 - k] <= s[k] * factor / (DECIMAL_FRACTIONAL as int)
}

/// A price listed by an ascending listing with a lower and upper bound lies
/// within them.
proof fn lemma_listed_in_range(ticks: Seq<Tick>, start: u128, end: u128)
    requires
        tick_prices(spec_ticks_with_end(ticks, Some(start), Some(end), Some(1), Some(1))).len() > 0,
    ensures
        ({
            let p = tick_prices(spec_ticks_with_end(ticks, Some(start), Some(end), Some(1), Some(1)))[0];
            start < p && p <= end
        }),
{
    let pred = |t: Tick| in_tick_range(t.price, Some(start), Some(end), true);
    let sel = ticks.filter(pred);
    assert(ticks_in_range(ticks, Some(start), Some(end), true) == sel);
    let listed = spec_ticks_with_end(ticks, Some(start), Some(end), Some(1), Some(1));
    assert(listed.len() > 0);
    assert(listed[0] == sel[0]);
    ticks.lemma_filter_pred(pred, 0);
}

proof fn lemma_spread_lists_paired(
    buys: Seq<Tick>,
    sells: Seq<u128>,
    i: int,
    factor: u128,
    factor_overflows: bool,
    bl: Seq<u128>,
    sl: Seq<u128>,
)
    requires
        paired_within_spread(bl, sl, factor as int),
    ensures
        ({
            let (b, s) = spec_spread_lists(buys, sells, i, factor, factor_overflows, bl, sl);
            paired_within_spread(b, s, factor as int)
        }),
    decreases sells.len() - i,
{
    if 0 <= i < sells.len() {
        let sell = sells[i];
        let sws: u128 = if factor_overflows || spec_mul_dec(sell as int, factor as int) > u128::MAX { 0 } else { spec_mul_dec(sell as int, factor as int) as u128 };
        if sws != 0 {
            let start: u128 = if sell == 0 { 0 } else { (sell - 1) as u128 };
            let found = tick_prices(spec_ticks_with_end(buys, Some(start), Some(sws), Some(1), Some(1)));
            if found.len() != 0 {
                lemma_listed_in_range(buys, start, sws);
                let nb = seq![found[0]] + bl;
                let ns = sl.push(sell);
                assert forall|k: int| 0 <= k < ns.len() implies ns[k] <= #[trigger] nb[nb.len() - 1 - k]
                    && nb[nb.len() - 1 - k] <= ns[k] * factor / (DECIMAL_FRACTIONAL as int) by {
                    if k < sl.len() {
                        assert(nb[nb.len() - 1 - k] == bl[bl.len() - 1 - k]);
                        assert(ns[k] == sl[k]);
                    } else {
                        assert(nb[nb.len() - 1 - k] == found[0]);
                        assert(ns[k] == sell);
                    }
                }
                lemma_spread_lists_paired(buys, sells, i + 1, factor, factor_overflows, nb, ns);
            } else {
                lemma_spread_lists_paired(buys, sells, i + 1, factor, factor_overflows, bl, sl);
            }
        } else {
            lemma_spread_lists_paired(buys, sells, i + 1, factor, factor_overflows, bl, sl);
        }
    }
}

/// The spread law of the matchable lists: with a spread, every buy price
/// listed lies between the sell price it is paired with and that price
/// raised by the spread, so a buy below a sell is never listed as matching
/// it.
pub proof fn lemma_spread_lists_within_spread(spread: u128, buys: Seq<Tick>, sells: Seq<Tick>, limit: Option<u32>)
    requires
        DECIMAL_FRACTIONAL + spread <= u128::MAX,
    ensures
        spec_find_list_match_price(Some(spread), buys, sells, limit) matches Some((b, s))
            ==> paired_within_spread(b, s, DECIMAL_FRACTIONAL + spread),
{
    let sell_list = tick_prices(spec_ticks_with_end(sells, None, None, limit, Some(1)));
    if sell_list.len() > 0 {
        assert(paired_within_spread(Seq::<u128>::empty(), Seq::<u128>::empty(), DECIMAL_FRACTIONAL + spread));
        lemma_spread_lists_paired(buys, sell_list, 0, (DECIMAL_FRACTIONAL + spread) as u128, false,
            Seq::empty(), Seq::empty());
    }
}

/// Every tick a listing gives lies in the listing's range.
proof fn lemma_listing_in_range(ticks: Seq<Tick>, start_after: Option<u128>, end: Option<u128>, limit: Option<u32>, order_by: Option<i32>)
    ensures
        ({
            let listed = tick_prices(spec_ticks_with_end(ticks, start_after, end, limit, order_by));
            let ascending = spec_order_by(order_by) == Some(OrderBy::Ascending);
            forall|k: int| 0 <= k < listed.len() ==> in_tick_range(#[trigger] listed[k], start_after, end, ascending)
        }),
{
    let ascending = spec_order_by(order_by) == Some(OrderBy::Ascending);
    let pred = |t: Tick| in_tick_range(t.price, start_after, end, ascending);
    let sel = ticks.filter(pred);
    assert(ticks_in_range(ticks, start_after, end, ascending) == sel);
    let listed = spec_ticks_with_end(ticks, start_after, end, limit, order_by);
    assert forall|k: int| 0 <= k < listed.len() implies in_tick_range(#[trigger] tick_prices(listed)[k], start_after, end, ascending) by {
        if ascending {
            assert(listed[k] == sel[k]);
            ticks.lemma_filter_pred(pred, k);
        } else {
            assert(listed[k] == sel[sel.len() - 1 - k]);
            ticks.lemma_filter_pred(pred, sel.len() - 1 - k);
        }
    }
}

/// Without a spread, every buy price listed as matchable is at least the
/// lowest sell price listed, so it can trade with it.
pub proof fn lemma_lists_without_spread_cross(buys: Seq<Tick>, sells: Seq<Tick>, limit: Option<u32>)
    ensures
        spec_find_list_match_price(None, buys, sells, limit) matches Some((b, s)) ==> {
            &&& s.len() > 0
            &&& forall|k: int| 0 <= k < b.len() ==> s[0] <= #[trigger] b[k]
        },
{
    let sell_list = tick_prices(spec_ticks_with_end(sells, None, None, limit, Some(1)));
    if sell_list.len() > 0 {
        lemma_listing_in_range(buys, None, Some(sell_list[0]), limit, Some(2));
    }
}

/// Lists the buy and sell prices that can match; see
/// `spec_find_list_match_price`.
pub fn find_list_match_price(spread: Option<u128>, buys: &Vec<Tick>, sells: &Vec<Tick>, limit: Option<u32>)
    -> (r: Option<(Vec<u128>, Vec<u128>)>)
    requires
        spread matches Some(sp) ==> DECIMAL_FRACTIONAL + sp <= u128::MAX,
    ensures
        r matches Some((b, s)) ==> spec_find_list_match_price(spread, buys@, sells@, limit) == Some((b@, s@)),
        r is None ==> spec_find_list_match_price(spread, buys@, sells@, limit) is None,
        spread matches Some(sp) ==> (r matches Some((b, s)) ==> paired_within_spread(b@, s@, DECIMAL_FRACTIONAL + sp)),
        spread is None ==> (r matches Some((b, s)) ==> s@.len() > 0 && forall|k: int| 0 <= k < b@.len() ==> s@[0] <= #[trigger] b@[k]),
{
    proof {
        if let Some(sp) = spread {
            lemma_spread_lists_within_spread(sp, buys@, sells@, limit);
        } else {
            lemma_lists_without_spread_cross(buys@, sells@, limit);
        }
    }
    let sell_price_list = query_ticks_prices(sells, None, limit, Some(1));
    if sell_price_list.len() == 0 {
        return None;
    }
    let mut best_buy_price_list: Vec<u128> = Vec::new();
    let mut best_sell_price_list: Vec<u128> = Vec::new();
    match spread {
        Some(sp) => {
            let factor = DECIMAL_FRACTIONAL + sp;
            let mut i: usize = 0;
            while i < sell_price_list.len()
                invariant
                    i <= sell_price_list@.len(),
                    factor == DECIMAL_FRACTIONAL + sp,
                    spec_spread_lists(buys@, sell_price_list@, 0, factor, false, Seq::empty(), Seq::empty())
                        == spec_spread_lists(buys@, sell_price_list@, i as int, factor, false, best_buy_price_list@, best_sell_price_list@),
                decreases sell_price_list@.len() - i,
            {
                let sell_price = sell_price_list[i];
                let sell_price_with_spread = match dec_checked_mul(sell_price, factor) {
                    Some(v) => v,
                    None => 0,
                };
                if sell_price_with_spread != 0 {
                    let start_after = if sell_price == 0 { 0 } else { sell_price - 1 };
                    let suitable = query_ticks_prices_with_end(buys, Some(start_after), Some(sell_price_with_spread), Some(1), Some(1));
                    if suitable.len() != 0 {
                        let ghost bl0 = best_buy_price_list@;
                        let first = suitable[0];
                        best_buy_price_list.insert(0, first);
                        best_sell_price_list.push(sell_price);
                        proof {
                            assert(best_buy_price_list@ =~= seq![first] + bl0);
                        }
                    }
                }
                i = i + 1;
            }
        },
        None => {
            let lowest_sell = sell_price_list[0];
            best_buy_price_list = query_ticks_prices_with_end(buys, None, Some(lowest_sell), limit, Some(2));
            best_sell_price_list = sell_price_list;
        },
    }
    if best_buy_price_list.len() == 0 || best_sell_price_list.len() == 0 {
        return None;
    }
    Some((best_buy_price_list, best_sell_price_list))
}

/// The mid price of the best buy and the best sell, each zero when absent:
/// their sum halved, or zero when the sum is out of range.
pub open spec fn spec_mid_price(buys: Seq<Tick>, sells: Seq<Tick>) -> u128 {
    let b = if buys.len() == 0 { 0 } else { buys.last().price };
    let s = if sells.len() == 0 { 0 } else { sells[0].price };
    if b + s > u128::MAX { 0 } else { spec_from_ratio(b + s, 2 * DECIMAL_FRACTIONAL) as u128 }
}

pub fn mid_price(buys: &Vec<Tick>, sells: &Vec<Tick>) -> (r: u128)
    ensures
        r == spec_mid_price(buys@, sells@),
{
    let (highest_buy_price, buy_found, _) = highest_price(buys);
    let (lowest_sell_price, sell_found, _) = lowest_price(sells);
    let best_buy_price = if buy_found { highest_buy_price } else { 0 };
    let best_sell_price = if sell_found { lowest_sell_price } else { 0 };
    let sum = match best_buy_price.checked_add(best_sell_price) {
        Some(v) => v,
        None => 0,
    };
    proof {
        assert(spec_from_ratio(sum as int, 2 * DECIMAL_FRACTIONAL) <= sum) by (nonlinear_arith)
            requires sum >= 0;
    }
    match dec_checked_from_ratio(sum, 2 * DECIMAL_FRACTIONAL) {
        Some(v) => v,
        None => 0,
    }
}


/// A book can match when it has both a buy and a sell price that match,
/// looking at thirty prices of each side.
pub fn query_orderbook_is_matchable(spread: Option<u128>, buys: &Vec<Tick>, sells: &Vec<Tick>) -> (r: bool)
    requires
        spread matches Some(sp) ==> DECIMAL_FRACTIONAL + sp <= u128::MAX,
    ensures
        r == spec_find_list_match_price(spread, buys@, sells@, Some(30u32)) is Some,
{
    match find_list_match_price(spread, buys, sells, Some(30u32)) {
        Some((b, s)) => b.len() != 0 && s.len() != 0,
        None => false,
    }
}

} // verus!
