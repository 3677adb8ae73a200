//! The matching engine: a new order is filled against the resting orders of
//! the other side, best price first and, at one price, oldest order first.
use vstd::prelude::*;
use crate::math::{DECIMAL_FRACTIONAL, spec_mul_dec, mul_dec};
use super::types::{OrderDirection, ContractError, Outcome};
use super::order::{Order, OrderWithFee, spec_from_order, spec_fill_with_fee, spec_will_fulfilled};

verus! {

/// One price of the other side of the book, with the orders resting there in
/// the order they are matched.
pub struct PriceLevel {
    pub price: u128,
    pub orders: Vec<Order>,
}

pub open spec fn min_u(a: u128, b: u128) -> u128 {
    if a < b { a } else { b }
}

/// What the user pays for `ask` at `price`: the quote amount for a buy, the
/// base amount for a sell.
pub open spec fn spec_offer_for_ask(direction: OrderDirection, price: u128, ask: u128) -> Outcome<u128> {
    match direction {
        OrderDirection::Buy => if spec_mul_dec(ask as int, price as int) > u128::MAX {
            Outcome::Aborted
        } else {
            Outcome::Done(spec_mul_dec(ask as int, price as int) as u128)
        },
        OrderDirection::Sell => if ask * DECIMAL_FRACTIONAL > u128::MAX {
            Outcome::Aborted
        } else if price == 0 {
            Outcome::Failed
        } else {
            Outcome::Done(((ask * DECIMAL_FRACTIONAL) / (price as int)) as u128)
        },
    }
}

/// What the user receives for paying `offer` at `price`.
pub open spec fn spec_ask_for_offer(direction: OrderDirection, price: u128, offer: u128) -> Outcome<u128> {
    match direction {
        OrderDirection::Buy => if offer * DECIMAL_FRACTIONAL > u128::MAX {
            Outcome::Aborted
        } else if price == 0 {
            Outcome::Failed
        } else {
            Outcome::Done(((offer * DECIMAL_FRACTIONAL) / (price as int)) as u128)
        },
        OrderDirection::Sell => if spec_mul_dec(offer as int, price as int) > u128::MAX {
            Outcome::Aborted
        } else {
            Outcome::Done(spec_mul_dec(offer as int, price as int) as u128)
        },
    }
}

/// Caps a payment at `cap`: a larger payment becomes `cap`, and what is
/// received becomes what `cap` buys at `price`.
pub open spec fn spec_cap(direction: OrderDirection, price: u128, ask: u128, offer: u128, cap: u128) -> Outcome<(u128, u128)> {
    if offer > cap {
        match spec_ask_for_offer(direction, price, cap) {
            Outcome::Done(a) => Outcome::Done((a, cap)),
            Outcome::Failed => Outcome::Failed,
            Outcome::Aborted => Outcome::Aborted,
        }
    } else {
        Outcome::Done((ask, offer))
    }
}

/// The trade of the user against one resting order, from what each has left:
/// the user takes at most what the resting order offers and pays at most
/// what it has left, and the resting order receives at most what it asks;
/// each cap on a payment lowers what is received to what the capped payment
/// buys at the resting price. The triple is (ask the user receives, offer
/// the user pays, ask the resting order receives).
pub open spec fn spec_match_amounts(
    direction: OrderDirection,
    price: u128,
    lef_user_ask: u128,
    lef_user_offer: u128,
    lef_match_offer: u128,
    lef_match_ask: u128,
) -> Outcome<(u128, u128, u128)> {
    let ua = min_u(lef_user_ask, lef_match_offer);
    match spec_offer_for_ask(direction, price, ua) {
        Outcome::Done(uo) => match spec_cap(direction, price, ua, uo, lef_user_offer) {
            Outcome::Done((ua1, uo1)) => match spec_cap(direction, price, ua1, uo1, lef_match_ask) {
                Outcome::Done((ua2, uo2)) => Outcome::Done((ua2, uo2, uo2)),
                Outcome::Failed => Outcome::Failed,
                Outcome::Aborted => Outcome::Aborted,
            },
            Outcome::Failed => Outcome::Failed,
            Outcome::Aborted => Outcome::Aborted,
        },
        Outcome::Failed => Outcome::Failed,
        Outcome::Aborted => Outcome::Aborted,
    }
}

/// Matching the user against one resting order, given the user's totals so
/// far: the new totals and the resting order after its fill.
pub open spec fn spec_match_step(user: Order, price: u128, total_ask: u128, total_offer: u128, m: Order)
    -> Outcome<(u128, u128, OrderWithFee)>
{
    if total_ask > user.ask_amount || total_offer > user.offer_amount
        || m.filled_offer_amount > m.offer_amount || m.filled_ask_amount > m.ask_amount {
        Outcome::Failed
    } else {
        match spec_match_amounts(
            user.direction,
            price,
            (user.ask_amount - total_ask) as u128,
            (user.offer_amount - total_offer) as u128,
            (m.offer_amount - m.filled_offer_amount) as u128,
            (m.ask_amount - m.filled_ask_amount) as u128,
        ) {
            Outcome::Done((ua, uo, ma)) => match spec_fill_with_fee(spec_from_order(m), ma, ua) {
                None => Outcome::Failed,
                Some(m2) => if total_offer + uo > u128::MAX || total_ask + ua > u128::MAX {
                    Outcome::Aborted
                } else {
                    Outcome::Done(((total_ask + ua) as u128, (total_offer + uo) as u128, m2))
                },
            },
            Outcome::Failed => Outcome::Failed,
            Outcome::Aborted => Outcome::Aborted,
        }
    }
}

/// Matching the user against the orders of one price from index `i` on.
pub open spec fn spec_match_orders(
    user: Order,
    price: u128,
    orders: Seq<Order>,
    i: int,
    total_ask: u128,
    total_offer: u128,
    matched: Seq<OrderWithFee>,
) -> Outcome<(u128, u128, Seq<OrderWithFee>)>
    decreases orders.len() - i,
{
    if i < 0 || i >= orders.len() || spec_will_fulfilled(spec_from_order(user), total_ask, total_offer) {
        Outcome::Done((total_ask, total_offer, matched))
    } else {
        match spec_match_step(user, price, total_ask, total_offer, orders[i]) {
            Outcome::Done((ta, to, m2)) => spec_match_orders(user, price, orders, i + 1, ta, to, matched.push(m2)),
            Outcome::Failed => Outcome::Failed,
            Outcome::Aborted => Outcome::Aborted,
        }
    }
}

/// Whether `price` is past the user's limit: above it for a buy, below it
/// for a sell.
pub open spec fn spec_beyond(direction: OrderDirection, threshold: u128, price: u128) -> bool {
    match direction {
        OrderDirection::Buy => threshold < price,
        OrderDirection::Sell => threshold > price,
    }
}

/// Matching the user against the price levels from index `j` on; it stops
/// at the first level past the limit or once the user is filled.
pub open spec fn spec_match_levels(
    user: Order,
    threshold: u128,
    levels: Seq<PriceLevel>,
    j: int,
    total_ask: u128,
    total_offer: u128,
    matched: Seq<OrderWithFee>,
) -> Outcome<(u128, u128, Seq<OrderWithFee>)>
    decreases levels.len() - j,
{
    if j < 0 || j >= levels.len() || spec_beyond(user.direction, threshold, levels[j].price)
        || spec_will_fulfilled(spec_from_order(user), total_ask, total_offer) {
        Outcome::Done((total_ask, total_offer, matched))
    } else {
        match spec_match_orders(user, levels[j].price, levels[j].orders@, 0, total_ask, total_offer, matched) {
            Outcome::Done((ta, to, m)) => spec_match_levels(user, threshold, levels, j + 1, ta, to, m),
            Outcome::Failed => Outcome::Failed,
            Outcome::Aborted => Outcome::Aborted,
        }
    }
}

/// The whole match: the user's order after its fill, and the resting orders
/// it traded with, in the order they were met.
pub open spec fn spec_matching(user: Order, threshold: u128, levels: Seq<PriceLevel>)
    -> Outcome<(OrderWithFee, Seq<OrderWithFee>)>
{
    match spec_match_levels(user, threshold, levels, 0, 0, 0, Seq::empty()) {
        Outcome::Done((ta, to, m)) => match spec_fill_with_fee(spec_from_order(user), ta, to) {
            Some(u) => Outcome::Done((u, m)),
            None => Outcome::Failed,
        },
        Outcome::Failed => Outcome::Failed,
        Outcome::Aborted => Outcome::Aborted,
    }
}

/// Sum of what the matched orders gave this round.
pub open spec fn sum_offer_this_round(s: Seq<OrderWithFee>) -> int
    decreases s.len(),
{
    if s.len() == 0 { 0 } else { sum_offer_this_round(s.drop_last()) + s.last().filled_offer_this_round }
}

/// Sum of what the matched orders received this round.
pub open spec fn sum_ask_this_round(s: Seq<OrderWithFee>) -> int
    decreases s.len(),
{
    if s.len() == 0 { 0 } else { sum_ask_this_round(s.drop_last()) + s.last().filled_ask_this_round }
}

/// No resting order is filled past its amounts.
pub open spec fn none_overfilled(s: Seq<OrderWithFee>) -> bool {
    forall|k: int| 0 <= k < s.len() ==> #[trigger] s[k].filled_ask_amount <= s[k].ask_amount
        && s[k].filled_offer_amount <= s[k].offer_amount
}

/// What holds of the totals while matching: the user received exactly what
/// the resting orders gave, paid at least what they received, and neither
/// side is filled past its amounts.
pub open spec fn match_accounting(user: Order, ta: u128, to: u128, matched: Seq<OrderWithFee>) -> bool {
    &&& ta == sum_offer_this_round(matched)
    &&& sum_ask_this_round(matched) == to
    &&& ta <= user.ask_amount
    &&& to <= user.offer_amount
    &&& none_overfilled(matched)
}

proof fn lemma_sums_push(s: Seq<OrderWithFee>, x: OrderWithFee)
    ensures
        sum_offer_this_round(s.push(x)) == sum_offer_this_round(s) + x.filled_offer_this_round,
        sum_ask_this_round(s.push(x)) == sum_ask_this_round(s) + x.filled_ask_this_round,
{
    assert(s.push(x).drop_last() =~= s);
}

/// If `x * a / b` exceeds `l`, then `l * b / a` is below `x`.
proof fn lemma_inverse_floor(x: int, a: int, b: int, l: int)
    requires
        x >= 0,
        a > 0,
        b > 0,
        l >= 0,
        (x * a) / b > l,
    ensures
        (l * b) / a < x,
{
    let q = (x * a) / b;
    assert(x * a >= q * b) by (nonlinear_arith)
        requires q == (x * a) / b, b > 0, x * a >= 0;
    assert(q * b >= (l + 1) * b) by (nonlinear_arith)
        requires q >= l + 1, b > 0;
    assert(l * b < x * a) by (nonlinear_arith)
        requires x * a >= (l + 1) * b, b > 0;
    let r = (l * b) / a;
    assert(r * a <= l * b) by (nonlinear_arith)
        requires r == (l * b) / a, a > 0, l * b >= 0;
    assert(r < x) by (nonlinear_arith)
        requires r * a <= l * b, l * b < x * a, a > 0;
}

/// What an offer buys grows with the offer.
proof fn lemma_floor_monotone(l1: int, l2: int, a: int, b: int)
    requires
        0 <= l1 <= l2,
        a > 0,
        b >= 0,
    ensures
        (l1 * b) / a <= (l2 * b) / a,
{
    assert(l1 * b <= l2 * b) by (nonlinear_arith)
        requires 0 <= l1 <= l2, b >= 0;
    assert((l1 * b) / a <= (l2 * b) / a) by (nonlinear_arith)
        requires l1 * b <= l2 * b, a > 0;
}

/// Each cap on the user's payment lowers what it receives, so the trade
/// stays within what both sides have left.
proof fn lemma_match_amounts_bounds(
    direction: OrderDirection,
    price: u128,
    lua: u128,
    luo: u128,
    lmo: u128,
    lma: u128,
)
    requires
        spec_match_amounts(direction, price, lua, luo, lmo, lma) is Done,
    ensures
        ({
            let (ua, uo, ma) = spec_match_amounts(direction, price, lua, luo, lmo, lma)->Done_0;
            ua <= lua && ua <= lmo && uo <= luo && ma <= lma && ma <= uo
        }),
{
    let ua = min_u(lua, lmo);
    let uo = spec_offer_for_ask(direction, price, ua)->Done_0;
    if uo > luo {
        match direction {
            OrderDirection::Buy => {
                lemma_inverse_floor(ua as int, price as int, DECIMAL_FRACTIONAL as int, luo as int);
            },
            OrderDirection::Sell => {
                lemma_inverse_floor(ua as int, DECIMAL_FRACTIONAL as int, price as int, luo as int);
            },
        }
    }
    let (ua1, uo1) = spec_cap(direction, price, ua, uo, luo)->Done_0;
    if uo1 > lma {
        if uo > luo {
            match direction {
                OrderDirection::Buy => {
                    lemma_floor_monotone(lma as int, luo as int, price as int, DECIMAL_FRACTIONAL as int);
                },
                OrderDirection::Sell => {
                    lemma_floor_monotone(lma as int, luo as int, DECIMAL_FRACTIONAL as int, price as int);
                },
            }
        } else {
            match direction {
                OrderDirection::Buy => {
                    lemma_inverse_floor(ua as int, price as int, DECIMAL_FRACTIONAL as int, lma as int);
                },
                OrderDirection::Sell => {
                    lemma_inverse_floor(ua as int, DECIMAL_FRACTIONAL as int, price as int, lma as int);
                },
            }
        }
    }
}

fn offer_for_ask(direction: OrderDirection, price: u128, ask: u128) -> (r: Result<u128, ContractError>)
    requires
        !(spec_offer_for_ask(direction, price, ask) is Aborted),
    ensures
        r is Ok <==> spec_offer_for_ask(direction, price, ask) is Done,
        r matches Ok(v) ==> spec_offer_for_ask(direction, price, ask) == Outcome::Done(v),
{
    match direction {
        OrderDirection::Buy => Ok(mul_dec(ask, price)),
        OrderDirection::Sell => {
            let scaled = ask * DECIMAL_FRACTIONAL;
            if price == 0 {
                Err(ContractError::Arithmetic)
            } else {
                Ok(scaled / price)
            }
        },
    }
}

fn ask_for_offer(direction: OrderDirection, price: u128, offer: u128) -> (r: Result<u128, ContractError>)
    requires
        !(spec_ask_for_offer(direction, price, offer) is Aborted),
    ensures
        r is Ok <==> spec_ask_for_offer(direction, price, offer) is Done,
        r matches Ok(v) ==> spec_ask_for_offer(direction, price, offer) == Outcome::Done(v),
{
    match direction {
        OrderDirection::Buy => {
            let scaled = offer * DECIMAL_FRACTIONAL;
            if price == 0 {
                Err(ContractError::Arithmetic)
            } else {
                Ok(scaled / price)
            }
        },
        OrderDirection::Sell => Ok(mul_dec(offer, price)),
    }
}

fn match_amounts(
    direction: OrderDirection,
    price: u128,
    lua: u128,
    luo: u128,
    lmo: u128,
    lma: u128,
) -> (r: Result<(u128, u128, u128), ContractError>)
    requires
        !(spec_match_amounts(direction, price, lua, luo, lmo, lma) is Aborted),
    ensures
        r is Ok <==> spec_match_amounts(direction, price, lua, luo, lmo, lma) is Done,
        r matches Ok(v) ==> spec_match_amounts(direction, price, lua, luo, lmo, lma) == Outcome::Done(v),
{
    let ua = if lua < lmo { lua } else { lmo };
    let uo = offer_for_ask(direction, price, ua)?;
    let (ua1, uo1) = if uo > luo {
        (ask_for_offer(direction, price, luo)?, luo)
    } else {
        (ua, uo)
    };
    if uo1 > lma {
        let ua2 = ask_for_offer(direction, price, lma)?;
        Ok((ua2, lma, lma))
    } else {
        Ok((ua1, uo1, uo1))
    }
}

/// Matches `order` against the levels of the other side, walked best price
/// first; a level past `order_price` ends the match. Returns the order with
/// its fill and the resting orders it traded with, each with its fill.
pub fn matching_order(levels: &Vec<PriceLevel>, order: &Order, order_price: u128)
    -> (res: Result<(OrderWithFee, Vec<OrderWithFee>), ContractError>)
    requires
        !(spec_matching(*order, order_price, levels@) is Aborted),
    ensures
        res is Ok <==> spec_matching(*order, order_price, levels@) is Done,
        res matches Ok((u, m)) ==> spec_matching(*order, order_price, levels@) == Outcome::Done((u, m@)),
        res matches Ok((u, m)) ==> {
            &&& u.filled_ask_this_round == sum_offer_this_round(m@)
            &&& sum_ask_this_round(m@) == u.filled_offer_this_round
            &&& u.filled_ask_this_round <= order.ask_amount
            &&& u.filled_offer_this_round <= order.offer_amount
            &&& none_overfilled(m@)
        },
{
    let ghost user = *order;
    let mut user_order = OrderWithFee::from_order(order);
    let mut matched: Vec<OrderWithFee> = Vec::new();
    let mut ta: u128 = 0;
    let mut to: u128 = 0;
    let mut j: usize = 0;
    proof {
        assert(matched@ =~= Seq::<OrderWithFee>::empty());
    }
    while j < levels.len()
        invariant
            j <= levels.len(),
            user == *order,
            user_order == spec_from_order(user),
            spec_match_levels(user, order_price, levels@, 0, 0, 0, Seq::empty())
                == spec_match_levels(user, order_price, levels@, j as int, ta, to, matched@),
            !(spec_match_levels(user, order_price, levels@, 0, 0, 0, Seq::empty()) is Aborted),
            match_accounting(user, ta, to, matched@),
        decreases levels.len() - j,
    {
        let price = levels[j].price;
        let beyond = match order.direction {
            OrderDirection::Buy => order_price < price,
            OrderDirection::Sell => order_price > price,
        };
        if beyond || user_order.will_fulfilled(ta, to) {
            j = levels.len();
        } else {
            let orders = &levels[j].orders;
            let ghost lvl = j as int;
            let mut i: usize = 0;
            while i < orders.len()
                invariant
                    i <= orders.len(),
                    0 <= lvl < levels@.len(),
                    j == lvl,
                    price == levels@[lvl].price,
                    orders@ == levels@[lvl].orders@,
                    user == *order,
                    user_order == spec_from_order(user),
                    spec_match_levels(user, order_price, levels@, 0, 0, 0, Seq::empty())
                        == match spec_match_orders(user, price, orders@, i as int, ta, to, matched@) {
                            Outcome::Done((a, b, c)) => spec_match_levels(user, order_price, levels@, lvl + 1, a, b, c),
                            Outcome::Failed => Outcome::Failed,
                            Outcome::Aborted => Outcome::Aborted,
                        },
                    !(spec_match_levels(user, order_price, levels@, 0, 0, 0, Seq::empty()) is Aborted),
                    match_accounting(user, ta, to, matched@),
                decreases orders.len() - i,
            {
                if user_order.will_fulfilled(ta, to) {
                    i = orders.len();
                } else {
                    let m = &orders[i];
                    if ta > order.ask_amount || to > order.offer_amount
                        || m.filled_offer_amount > m.offer_amount || m.filled_ask_amount > m.ask_amount {
                        return Err(ContractError::Arithmetic);
                    }
                    let lua = order.ask_amount - ta;
                    let luo = order.offer_amount - to;
                    let lmo = m.offer_amount - m.filled_offer_amount;
                    let lma = m.ask_amount - m.filled_ask_amount;
                    let (ua, uo, ma) = match_amounts(order.direction, price, lua, luo, lmo, lma)?;
                    proof {
                        lemma_match_amounts_bounds(order.direction, price, lua, luo, lmo, lma);
                        assert(ua <= lua && ua <= lmo);
                        assert(uo <= luo);
                        assert(ma <= lma && ma <= uo);
                    }
                    let mut m2 = OrderWithFee::from_order(m);
                    m2.fill_order(ma, ua)?;
                    let ghost old_matched = matched@;
                    let new_to = to + uo;
                    let new_ta = ta + ua;
                    proof {
                        lemma_sums_push(old_matched, m2);
                    }
                    matched.push(m2);
                    to = new_to;
                    ta = new_ta;
                    i = i + 1;
                    proof {
                        assert(matched@ == old_matched.push(m2));
                        assert forall|k: int| 0 <= k < matched@.len() implies
                            #[trigger] matched@[k].filled_ask_amount <= matched@[k].ask_amount
                            && matched@[k].filled_offer_amount <= matched@[k].offer_amount by {
                            if k < old_matched.len() {
                                assert(matched@[k] == old_matched[k]);
                            }
                        }
                    }
                }
            }
            j = j + 1;
        }
    }
    user_order.fill_order(ta, to)?;
    Ok((user_order, matched))
}

/// The ids of the resting orders a match walks, in order: the levels from
/// `j` on up to the first past the limit, and at each level its orders
/// oldest first.
pub open spec fn walk_ids(direction: OrderDirection, threshold: u128, levels: Seq<PriceLevel>, j: int) -> Seq<u64>
    decreases levels.len() - j,
{
    if j < 0 || j >= levels.len() || (match direction {
        OrderDirection::Buy => threshold < levels[j].price,
        OrderDirection::Sell => levels[j].price < threshold,
    }) {
        Seq::empty()
    } else {
        levels[j].orders@.map_values(|o: Order| o.order_id) + walk_ids(direction, threshold, levels, j + 1)
    }
}

/// `m2` extends `matched` by orders whose ids are `ids` from its start.
pub open spec fn extends_with(m2: Seq<OrderWithFee>, matched: Seq<OrderWithFee>, ids: Seq<u64>) -> bool {
    &&& matched.len() <= m2.len()
    &&& m2.len() - matched.len() <= ids.len()
    &&& m2.subrange(0, matched.len() as int) == matched
    &&& forall|k: int| 0 <= k < m2.len() - matched.len() ==> #[trigger] m2[matched.len() + k].order_id == ids[k]
}

proof fn lemma_orders_walked(
    user: Order,
    price: u128,
    orders: Seq<Order>,
    i: int,
    ta: u128,
    to: u128,
    matched: Seq<OrderWithFee>,
)
    requires
        0 <= i <= orders.len(),
    ensures
        spec_match_orders(user, price, orders, i, ta, to, matched) matches Outcome::Done((ta2, to2, m2)) ==> {
            &&& extends_with(m2, matched, orders.subrange(i, orders.len() as int).map_values(|o: Order| o.order_id))
            &&& (m2.len() - matched.len() < orders.len() - i ==> spec_will_fulfilled(spec_from_order(user), ta2, to2))
        },
    decreases orders.len() - i,
{
    let ids = orders.subrange(i, orders.len() as int).map_values(|o: Order| o.order_id);
    if i >= orders.len() || spec_will_fulfilled(spec_from_order(user), ta, to) {
        assert(matched.subrange(0, matched.len() as int) =~= matched);
    } else {
        match spec_match_step(user, price, ta, to, orders[i]) {
            Outcome::Done((a, b, mm)) => {
                let next = matched.push(mm);
                lemma_orders_walked(user, price, orders, i + 1, a, b, next);
                match spec_match_orders(user, price, orders, i + 1, a, b, next) {
                    Outcome::Done((ta2, to2, m2)) => {
                        let ids1 = orders.subrange(i + 1, orders.len() as int).map_values(|o: Order| o.order_id);
                        assert(mm.order_id == orders[i].order_id);
                        assert(m2.subrange(0, matched.len() as int) =~= next.subrange(0, matched.len() as int));
                        assert(next.subrange(0, matched.len() as int) =~= matched);
                        assert(m2[matched.len() as int] == next[matched.len() as int]) by {
                            assert(m2.subrange(0, next.len() as int)[matched.len() as int] == next[matched.len() as int]);
                        }
                        assert forall|k: int| 0 <= k < m2.len() - matched.len() implies
                            #[trigger] m2[matched.len() + k].order_id == ids[k] by {
                            if k == 0 {
                                assert(ids[0] == orders[i].order_id);
                            } else {
                                assert(m2[next.len() + (k - 1)].order_id == ids1[k - 1]);
                                assert(ids1[k - 1] == orders[i + k].order_id);
                                assert(ids[k] == orders[i + k].order_id);
                            }
                        }
                    },
                    _ => {},
                }
            },
            _ => {},
        }
    }
}

proof fn lemma_levels_walked(
    user: Order,
    threshold: u128,
    levels: Seq<PriceLevel>,
    j: int,
    ta: u128,
    to: u128,
    matched: Seq<OrderWithFee>,
)
    requires
        0 <= j <= levels.len(),
    ensures
        spec_match_levels(user, threshold, levels, j, ta, to, matched) matches Outcome::Done((ta2, to2, m2)) ==> {
            &&& extends_with(m2, matched, walk_ids(user.direction, threshold, levels, j))
            &&& (m2.len() - matched.len() < walk_ids(user.direction, threshold, levels, j).len()
                ==> spec_will_fulfilled(spec_from_order(user), ta2, to2))
        },
    decreases levels.len() - j,
{
    let w = walk_ids(user.direction, threshold, levels, j);
    if j >= levels.len() || spec_beyond(user.direction, threshold, levels[j].price)
        || spec_will_fulfilled(spec_from_order(user), ta, to) {
        assert(matched.subrange(0, matched.len() as int) =~= matched);
    } else {
        let orders = levels[j].orders@;
        lemma_orders_walked(user, levels[j].price, orders, 0, ta, to, matched);
        assert(orders.subrange(0, orders.len() as int) =~= orders);
        let lids = orders.map_values(|o: Order| o.order_id);
        let w1 = walk_ids(user.direction, threshold, levels, j + 1);
        assert(w == lids + w1);
        match spec_match_orders(user, levels[j].price, orders, 0, ta, to, matched) {
            Outcome::Done((a, b, c)) => {
                lemma_levels_walked(user, threshold, levels, j + 1, a, b, c);
                match spec_match_levels(user, threshold, levels, j + 1, a, b, c) {
                    Outcome::Done((ta2, to2, m2)) => {
                        let na = c.len() - matched.len();
                        if na < orders.len() {
                            assert(spec_will_fulfilled(spec_from_order(user), a, b));
                            assert(m2 == c && ta2 == a && to2 == b);
                            assert forall|k: int| 0 <= k < m2.len() - matched.len() implies
                                #[trigger] m2[matched.len() + k].order_id == w[k] by {
                                assert(c[matched.len() + k].order_id == lids[k]);
                            }
                        } else {
                            assert(m2.subrange(0, matched.len() as int) =~= c.subrange(0, matched.len() as int)) by {
                                assert forall|k: int| 0 <= k < matched.len() implies
                                    m2.subrange(0, matched.len() as int)[k] == c.subrange(0, matched.len() as int)[k] by {
                                    assert(m2.subrange(0, c.len() as int)[k] == c[k]);
                                }
                            }
                            assert forall|k: int| 0 <= k < m2.len() - matched.len() implies
                                #[trigger] m2[matched.len() + k].order_id == w[k] by {
                                if k < na {
                                    assert(m2.subrange(0, c.len() as int)[matched.len() + k] == c[matched.len() + k]);
                                    assert(c[matched.len() + k].order_id == lids[k]);
                                } else {
                                    assert(m2[c.len() + (k - na)].order_id == w1[k - na]);
                                }
                            }
                        }
                    },
                    _ => {},
                }
            },
            _ => {},
        }
    }
}

/// The walking law of a match: the resting orders a match trades with are
/// the orders of the other side taken in walking order, best price first
/// and oldest first at a price, with none skipped; and the match stops
/// before the last order within the limit only once the incoming order is
/// filled. So no order at a better price is passed over for one at a worse
/// price.
pub proof fn lemma_matching_walks_in_order(user: Order, threshold: u128, levels: Seq<PriceLevel>)
    ensures
        spec_matching(user, threshold, levels) matches Outcome::Done((u, m)) ==> {
            let w = walk_ids(user.direction, threshold, levels, 0);
            &&& m.len() <= w.len()
            &&& forall|k: int| 0 <= k < m.len() ==> #[trigger] m[k].order_id == w[k]
            &&& (m.len() < w.len() ==> u.filled_ask_amount >= u.ask_amount || u.filled_offer_amount >= u.offer_amount)
        },
{
    lemma_levels_walked(user, threshold, levels, 0, 0, 0, Seq::empty());
    match spec_match_levels(user, threshold, levels, 0, 0, 0, Seq::empty()) {
        Outcome::Done((ta, to, m)) => {
            assert forall|k: int| 0 <= k < m.len() implies #[trigger] m[k].order_id == walk_ids(user.direction, threshold, levels, 0)[k] by {
                assert(m[0 + k] == m[k]);
            }
        },
        _ => {},
    }
}

/// An order whose limit the best price of the other side does not reach
/// matches nothing: it trades nothing and no resting order is touched.
pub proof fn lemma_no_match_beyond_limit(user: Order, threshold: u128, levels: Seq<PriceLevel>)
    requires
        levels.len() > 0,
        spec_beyond(user.direction, threshold, levels[0].price),
        user.filled_ask_amount <= user.ask_amount,
        user.filled_offer_amount <= user.offer_amount,
    ensures
        spec_matching(user, threshold, levels) matches Outcome::Done((u, m))
            && m.len() == 0 && u.filled_ask_this_round == 0 && u.filled_offer_this_round == 0
            && u.filled_ask_amount == user.filled_ask_amount && u.filled_offer_amount == user.filled_offer_amount,
{
    assert(spec_match_levels(user, threshold, levels, 0, 0, 0, Seq::empty())
        == Outcome::<(u128, u128, Seq<OrderWithFee>)>::Done((0, 0, Seq::empty())));
}

} // verus!
