//! Fees taken from what a matched order receives, the payments to traders,
//! and the rewards kept for the reward wallet and the relayer.
use vstd::prelude::*;
use crate::math::{spec_mul_dec, mul_dec};
use crate::asset::{Asset, AssetInfo, AssetInfoView};
use super::types::{OrderDirection, ContractError, Outcome};
use super::order::{OrderWithFee, spec_order_price, spec_price_defined};

verus! {

/// The relayer fee, in base units, taken from a buy order's receipt.
pub const RELAY_FEE: u128 = 300u128;
/// The tolerance of the order book's rounding.
pub const MIN_VOLUME: u128 = 10u128;
/// Rewards below this amount are kept until they grow.
pub const MIN_FEE: u128 = 1_000_000u128;

/// Who collects fees for a pair, and what it has collected of the base asset
/// (first) and of the quote asset (second).
#[derive(Debug)]
pub struct Executor {
    pub address: String,
    pub reward_assets: [Asset; 2],
}

/// An amount owed to a trader.
#[derive(Debug)]
pub struct Payment {
    pub address: String,
    pub asset: Asset,
}

/// The slot of the reward assets a fee of this direction goes to: a buy
/// receives the base asset, a sell the quote asset.
pub open spec fn fee_slot(direction: OrderDirection) -> int {
    match direction {
        OrderDirection::Buy => 0,
        OrderDirection::Sell => 1,
    }
}

/// The fees on a receipt of `amount`: the reward fee `amount * rate`, then
/// the relayer fee, capped by what remains; `None` when the reward fee is
/// more than the amount.
pub open spec fn spec_fees(commission_rate: u128, relayer_quote_fee: u128, direction: OrderDirection, amount: u128)
    -> Option<(u128, u128)>
{
    let reward_fee = spec_mul_dec(amount as int, commission_rate as int);
    if reward_fee > amount {
        None
    } else {
        let remaining = amount - reward_fee;
        let cap = match direction {
            OrderDirection::Buy => RELAY_FEE as int,
            OrderDirection::Sell => relayer_quote_fee as int,
        };
        let relayer_fee = if cap < remaining { cap } else { remaining };
        Some((reward_fee as u128, relayer_fee as u128))
    }
}

impl Executor {
    pub fn new(address: String, reward_assets: [Asset; 2]) -> (r: Executor)
        ensures
            r.address == address,
            r.reward_assets == reward_assets,
    {
        Executor { address, reward_assets }
    }

    /// Adds `amount` to the reward asset in `slot`.
    pub fn add_reward(&mut self, slot: usize, amount: u128)
        requires
            slot < 2,
            old(self).reward_assets[slot as int].amount + amount <= u128::MAX,
        ensures
            final(self).address == old(self).address,
            final(self).reward_assets[slot as int].amount == old(self).reward_assets[slot as int].amount + amount,
            final(self).reward_assets[slot as int].info == old(self).reward_assets[slot as int].info,
            final(self).reward_assets[1 - slot as int] == old(self).reward_assets[1 - slot as int],
    {
        let v = self.reward_assets[slot].amount + amount;
        self.reward_assets[slot].amount = v;
    }
}


/// The reward amounts of an executor, base slot first.
pub open spec fn reward_amounts(e: Executor) -> (u128, u128) {
    (e.reward_assets[0].amount, e.reward_assets[1].amount)
}

/// `t` with `amount` added in `slot`.
pub open spec fn slot_add(t: (u128, u128), slot: int, amount: u128) -> (u128, u128) {
    if slot == 0 { ((t.0 + amount) as u128, t.1) } else { (t.0, (t.1 + amount) as u128) }
}

pub open spec fn slot_get(t: (u128, u128), slot: int) -> u128 {
    if slot == 0 { t.0 } else { t.1 }
}

/// An executor differs from another only in its reward amounts.
pub open spec fn same_executor_but_amounts(a: Executor, b: Executor) -> bool {
    &&& a.address == b.address
    &&& a.reward_assets[0].info == b.reward_assets[0].info
    &&& a.reward_assets[1].info == b.reward_assets[1].info
}

/// Takes the reward fee and the relayer fee out of what a matched order
/// receives and credits them to the reward wallet and the relayer.
pub fn calculate_fee(
    commission_rate: u128,
    relayer_quote_fee: u128,
    direction: OrderDirection,
    trader_ask_asset: &mut Asset,
    reward: &mut Executor,
    relayer: &mut Executor,
) -> (res: Result<(u128, u128), ContractError>)
    requires
        spec_mul_dec(old(trader_ask_asset).amount as int, commission_rate as int) <= u128::MAX,
        spec_fees(commission_rate, relayer_quote_fee, direction, old(trader_ask_asset).amount) matches Some((rf, lf))
            ==> slot_get(reward_amounts(*old(reward)), fee_slot(direction)) + rf <= u128::MAX
                && slot_get(reward_amounts(*old(relayer)), fee_slot(direction)) + lf <= u128::MAX,
    ensures
        res is Ok <==> spec_fees(commission_rate, relayer_quote_fee, direction, old(trader_ask_asset).amount) is Some,
        res matches Ok((rf, lf)) ==> {
            &&& spec_fees(commission_rate, relayer_quote_fee, direction, old(trader_ask_asset).amount) == Some((rf, lf))
            &&& lf <= relayer_cap(direction, relayer_quote_fee)
            &&& (lf == relayer_cap(direction, relayer_quote_fee) || lf == old(trader_ask_asset).amount - rf)
            &&& final(trader_ask_asset).amount == old(trader_ask_asset).amount - rf - lf
            &&& reward_amounts(*final(reward)) == slot_add(reward_amounts(*old(reward)), fee_slot(direction), rf)
            &&& reward_amounts(*final(relayer)) == slot_add(reward_amounts(*old(relayer)), fee_slot(direction), lf)
            &&& direction == OrderDirection::Buy ==> {
                &&& final(reward).reward_assets[0].amount == old(reward).reward_assets[0].amount + rf
                &&& final(reward).reward_assets[1].amount == old(reward).reward_assets[1].amount
                &&& final(relayer).reward_assets[0].amount == old(relayer).reward_assets[0].amount + lf
                &&& final(relayer).reward_assets[1].amount == old(relayer).reward_assets[1].amount
            }
            &&& direction == OrderDirection::Sell ==> {
                &&& final(reward).reward_assets[1].amount == old(reward).reward_assets[1].amount + rf
                &&& final(reward).reward_assets[0].amount == old(reward).reward_assets[0].amount
                &&& final(relayer).reward_assets[1].amount == old(relayer).reward_assets[1].amount + lf
                &&& final(relayer).reward_assets[0].amount == old(relayer).reward_assets[0].amount
            }
        },
        res is Err ==> reward_amounts(*final(reward)) == reward_amounts(*old(reward))
            && reward_amounts(*final(relayer)) == reward_amounts(*old(relayer))
            && final(trader_ask_asset).amount == old(trader_ask_asset).amount,
        final(trader_ask_asset).info == old(trader_ask_asset).info,
        same_executor_but_amounts(*final(reward), *old(reward)),
        same_executor_but_amounts(*final(relayer), *old(relayer)),
{
    let amount = trader_ask_asset.amount;
    let reward_fee = mul_dec(amount, commission_rate);
    if reward_fee > amount {
        return Err(ContractError::Arithmetic);
    }
    let remaining_amount = amount - reward_fee;
    let relayer_fee;
    match direction {
        OrderDirection::Buy => {
            relayer_fee = if RELAY_FEE < remaining_amount { RELAY_FEE } else { remaining_amount };
            reward.add_reward(0, reward_fee);
            relayer.add_reward(0, relayer_fee);
        },
        OrderDirection::Sell => {
            relayer_fee = if relayer_quote_fee < remaining_amount { relayer_quote_fee } else { remaining_amount };
            reward.add_reward(1, reward_fee);
            relayer.add_reward(1, relayer_fee);
        },
    }
    trader_ask_asset.amount = amount - (reward_fee + relayer_fee);
    Ok((reward_fee, relayer_fee))
}

/// The fee law: the two fees and what is left to the trader add up to what
/// the order received.
pub proof fn lemma_fees_conserve(commission_rate: u128, relayer_quote_fee: u128, direction: OrderDirection, amount: u128)
    requires
        spec_fees(commission_rate, relayer_quote_fee, direction, amount) is Some,
    ensures
        ({
            let (rf, lf) = spec_fees(commission_rate, relayer_quote_fee, direction, amount)->Some_0;
            rf + lf <= amount
        }),
{
}

/// The cap on the relayer fee: `RELAY_FEE` base units on a buy, the given
/// quote amount on a sell.
pub open spec fn relayer_cap(direction: OrderDirection, relayer_quote_fee: u128) -> int {
    match direction {
        OrderDirection::Buy => RELAY_FEE as int,
        OrderDirection::Sell => relayer_quote_fee as int,
    }
}

/// The fee law on one receipt: the reward fee is `amount * rate` rounded
/// down; the relayer fee never exceeds its cap and is the cap, or all that
/// remains when less remains; the trader keeps the rest. Fees are charged
/// exactly when the reward fee does not exceed the amount.
pub proof fn lemma_relayer_fee_capped(commission_rate: u128, relayer_quote_fee: u128, direction: OrderDirection, amount: u128)
    ensures
        spec_fees(commission_rate, relayer_quote_fee, direction, amount) is Some
            <==> amount * commission_rate / (crate::math::DECIMAL_FRACTIONAL as int) <= amount,
        spec_fees(commission_rate, relayer_quote_fee, direction, amount) matches Some((rf, lf)) ==> {
            let cap = relayer_cap(direction, relayer_quote_fee);
            &&& rf == amount * commission_rate / (crate::math::DECIMAL_FRACTIONAL as int)
            &&& lf <= cap
            &&& lf <= amount - rf
            &&& (lf == cap || lf == amount - rf)
            &&& amount - rf - lf == (if amount - rf > cap { amount - rf - cap } else { 0 })
        },
{
}

/// The state of the payment pass: the orders with their fees, the payments
/// to traders, and the reward amounts of the reward wallet and the relayer.
pub type PaymentState = (Seq<OrderWithFee>, Seq<Payment>, (u128, u128), (u128, u128));

/// The relayer fee of a sell, in quote units: `RELAY_FEE * price`.
pub open spec fn spec_relayer_quote_fee(o: OrderWithFee) -> int {
    spec_mul_dec(RELAY_FEE as int, spec_order_price(o.direction, o.offer_amount, o.ask_amount))
}

/// One order of the payment pass.
pub open spec fn spec_payment_step(
    commission_rate: u128,
    base_info: AssetInfo,
    quote_info: AssetInfo,
    o: OrderWithFee,
    st: PaymentState,
) -> Outcome<PaymentState> {
    if !spec_price_defined(o.direction, o.offer_amount, o.ask_amount) || spec_relayer_quote_fee(o) > u128::MAX {
        Outcome::Aborted
    } else if o.filled_ask_this_round == 0 || o.filled_offer_this_round == 0 {
        Outcome::Done((st.0.push(o), st.1, st.2, st.3))
    } else if spec_mul_dec(o.filled_ask_this_round as int, commission_rate as int) > u128::MAX {
        Outcome::Aborted
    } else {
        match spec_fees(commission_rate, spec_relayer_quote_fee(o) as u128, o.direction, o.filled_ask_this_round) {
            None => Outcome::Failed,
            Some((rf, lf)) => {
                let slot = fee_slot(o.direction);
                if slot_get(st.2, slot) + rf > u128::MAX || slot_get(st.3, slot) + lf > u128::MAX {
                    Outcome::Aborted
                } else {
                    let info = match o.direction {
                        OrderDirection::Buy => base_info,
                        OrderDirection::Sell => quote_info,
                    };
                    let left = (o.filled_ask_this_round - rf - lf) as u128;
                    let o2 = OrderWithFee { reward_fee: rf, relayer_fee: lf, ..o };
                    let payments = if left != 0 {
                        st.1.push(Payment { address: o.bidder_addr, asset: Asset { info, amount: left } })
                    } else {
                        st.1
                    };
                    Outcome::Done((st.0.push(o2), payments, slot_add(st.2, slot, rf), slot_add(st.3, slot, lf)))
                }
            },
        }
    }
}

/// The payment pass over the orders from index `i` on.
pub open spec fn spec_process_payments(
    commission_rate: u128,
    base_info: AssetInfo,
    quote_info: AssetInfo,
    orders: Seq<OrderWithFee>,
    i: int,
    st: PaymentState,
) -> Outcome<PaymentState>
    decreases orders.len() - i,
{
    if i < 0 || i >= orders.len() {
        Outcome::Done(st)
    } else {
        match spec_payment_step(commission_rate, base_info, quote_info, orders[i], st) {
            Outcome::Done(st2) => spec_process_payments(commission_rate, base_info, quote_info, orders, i + 1, st2),
            Outcome::Failed => Outcome::Failed,
            Outcome::Aborted => Outcome::Aborted,
        }
    }
}

/// Charges the fees of every order that traded this round, records them on
/// the order, credits them to the reward wallet and the relayer, and adds a
/// payment of what is left to the order's bidder.
pub fn process_payment_list_orders(
    commission_rate: u128,
    base_info: &AssetInfo,
    quote_info: &AssetInfo,
    orders: &mut Vec<OrderWithFee>,
    traders: &mut Vec<Payment>,
    reward: &mut Executor,
    relayer: &mut Executor,
) -> (res: Result<(), ContractError>)
    requires
        !(spec_process_payments(commission_rate, *base_info, *quote_info, old(orders)@, 0,
            (Seq::empty(), old(traders)@, reward_amounts(*old(reward)), reward_amounts(*old(relayer)))) is Aborted),
    ensures
        res is Ok <==> spec_process_payments(commission_rate, *base_info, *quote_info, old(orders)@, 0,
            (Seq::empty(), old(traders)@, reward_amounts(*old(reward)), reward_amounts(*old(relayer)))) is Done,
        res is Ok ==> spec_process_payments(commission_rate, *base_info, *quote_info, old(orders)@, 0,
            (Seq::empty(), old(traders)@, reward_amounts(*old(reward)), reward_amounts(*old(relayer))))
            == Outcome::Done((final(orders)@, final(traders)@, reward_amounts(*final(reward)), reward_amounts(*final(relayer)))),
        same_executor_but_amounts(*final(reward), *old(reward)),
        same_executor_but_amounts(*final(relayer), *old(relayer)),
{
    let ghost start: PaymentState = (Seq::empty(), traders@, reward_amounts(*reward), reward_amounts(*relayer));
    let ghost orders0 = orders@;
    let ghost reward0 = *reward;
    let ghost relayer0 = *relayer;
    let mut out: Vec<OrderWithFee> = Vec::new();
    let mut i: usize = 0;
    while i < orders.len()
        invariant
            i <= orders@.len(),
            orders@ == orders0,
            orders0 == old(orders)@,
            reward0 == *old(reward),
            relayer0 == *old(relayer),
            start == (Seq::<OrderWithFee>::empty(), old(traders)@, reward_amounts(*old(reward)), reward_amounts(*old(relayer))),
            spec_process_payments(commission_rate, *base_info, *quote_info, orders0, 0, start)
                == spec_process_payments(commission_rate, *base_info, *quote_info, orders0, i as int,
                    (out@, traders@, reward_amounts(*reward), reward_amounts(*relayer))),
            !(spec_process_payments(commission_rate, *base_info, *quote_info, orders0, 0, start) is Aborted),
            same_executor_but_amounts(*reward, reward0),
            same_executor_but_amounts(*relayer, relayer0),
        decreases orders@.len() - i,
    {
        let o = &orders[i];
        let price = o.get_price();
        let relayer_quote_fee = mul_dec(RELAY_FEE, price);
        if o.filled_ask_this_round != 0 && o.filled_offer_this_round != 0 {
            let info = match o.direction {
                OrderDirection::Buy => base_info.duplicate(),
                OrderDirection::Sell => quote_info.duplicate(),
            };
            let mut trader_ask_asset = Asset { info, amount: o.filled_ask_this_round };
            let fees = calculate_fee(
                commission_rate,
                relayer_quote_fee,
                o.direction,
                &mut trader_ask_asset,
                reward,
                relayer,
            );
            let (reward_fee, relayer_fee) = match fees {
                Ok(f) => f,
                Err(e) => return Err(e),
            };
            let mut o2 = o.duplicate();
            o2.reward_fee = reward_fee;
            o2.relayer_fee = relayer_fee;
            if trader_ask_asset.amount != 0 {
                traders.push(Payment { address: o.bidder_addr.clone(), asset: trader_ask_asset });
            }
            out.push(o2);
        } else {
            out.push(o.duplicate());
        }
        i = i + 1;
    }
    *orders = out;
    Ok(())
}

/// Whether two payments go to the same address in the same asset.
pub open spec fn same_payee(p: Payment, q: Payment) -> bool {
    p.address@ == q.address@ && p.asset.info@ == q.asset.info@
}

/// The first payment of `acc`, from index `k` on, to the payee of `t`.
pub open spec fn spec_find_payee(acc: Seq<Payment>, t: Payment, k: int) -> Option<int>
    decreases acc.len() - k,
{
    if k < 0 || k >= acc.len() {
        None
    } else if same_payee(acc[k], t) {
        Some(k)
    } else {
        spec_find_payee(acc, t, k + 1)
    }
}

/// Merging the payments from index `i` on into `acc`: a payment to a payee
/// already in `acc` adds to its amount, any other is appended.
pub open spec fn spec_aggregate(traders: Seq<Payment>, i: int, acc: Seq<Payment>) -> Outcome<Seq<Payment>>
    decreases traders.len() - i,
{
    if i < 0 || i >= traders.len() {
        Outcome::Done(acc)
    } else {
        match spec_find_payee(acc, traders[i], 0) {
            Some(k) => if acc[k].asset.amount + traders[i].asset.amount > u128::MAX {
                Outcome::Aborted
            } else {
                spec_aggregate(traders, i + 1, acc.update(k, Payment {
                    asset: Asset { amount: (acc[k].asset.amount + traders[i].asset.amount) as u128, ..acc[k].asset },
                    ..acc[k]
                }))
            },
            None => spec_aggregate(traders, i + 1, acc.push(traders[i])),
        }
    }
}

/// Sum of the amounts of the payments.
pub open spec fn sum_payments(s: Seq<Payment>) -> int
    decreases s.len(),
{
    if s.len() == 0 { 0 } else { sum_payments(s.drop_last()) + s.last().asset.amount }
}

proof fn lemma_sum_payments_push(s: Seq<Payment>, x: Payment)
    ensures
        sum_payments(s.push(x)) == sum_payments(s) + x.asset.amount,
{
    assert(s.push(x).drop_last() =~= s);
}

proof fn lemma_sum_payments_update(s: Seq<Payment>, k: int, x: Payment)
    requires
        0 <= k < s.len(),
    ensures
        sum_payments(s.update(k, x)) == sum_payments(s) - s[k].asset.amount + x.asset.amount,
    decreases s.len(),
{
    if k == s.len() - 1 {
        assert(s.update(k, x).drop_last() =~= s.drop_last());
    } else {
        lemma_sum_payments_update(s.drop_last(), k, x);
        assert(s.update(k, x).drop_last() =~= s.drop_last().update(k, x));
    }
}

proof fn lemma_find_payee(acc: Seq<Payment>, t: Payment, k: int)
    requires
        0 <= k,
    ensures
        spec_find_payee(acc, t, k) matches Some(idx) ==> k <= idx < acc.len() && same_payee(acc[idx], t),
        spec_find_payee(acc, t, k) is None ==> forall|m: int| k <= m < acc.len() ==> !same_payee(#[trigger] acc[m], t),
    decreases acc.len() - k,
{
    if k < acc.len() && !same_payee(acc[k], t) {
        lemma_find_payee(acc, t, k + 1);
    }
}

/// Merges the payments to the same payee, keeping the order in which the
/// payees first appear. The total paid is unchanged.
pub fn aggregate_payments(traders: Vec<Payment>) -> (r: Vec<Payment>)
    requires
        !(spec_aggregate(traders@, 0, Seq::empty()) is Aborted),
    ensures
        spec_aggregate(traders@, 0, Seq::empty()) == Outcome::Done(r@),
        sum_payments(r@) == sum_payments(traders@),
{
    let mut acc: Vec<Payment> = Vec::new();
    let mut i: usize = 0;
    proof {
        assert(traders@.subrange(0, 0) =~= Seq::<Payment>::empty());
    }
    while i < traders.len()
        invariant
            i <= traders@.len(),
            spec_aggregate(traders@, 0, Seq::empty()) == spec_aggregate(traders@, i as int, acc@),
            !(spec_aggregate(traders@, 0, Seq::empty()) is Aborted),
            sum_payments(acc@) == sum_payments(traders@.subrange(0, i as int)),
        decreases traders@.len() - i,
    {
        let t = &traders[i];
        let mut k: usize = 0;
        let mut found = false;
        while k < acc.len() && !found
            invariant
                k <= acc@.len(),
                i < traders@.len(),
                *t == traders@[i as int],
                spec_find_payee(acc@, traders@[i as int], 0) == if found {
                    Some(k as int)
                } else {
                    spec_find_payee(acc@, traders@[i as int], k as int)
                },
                found ==> k < acc@.len(),
            decreases acc@.len() - k + (if found { 0int } else { 1int }),
        {
            if acc[k].address == t.address && acc[k].asset.info.same_as(&t.asset.info) {
                found = true;
            } else {
                k = k + 1;
            }
        }
        proof {
            assert(traders@.subrange(0, i + 1).drop_last() =~= traders@.subrange(0, i as int));
        }
        if found {
            let amount = acc[k].asset.amount + t.asset.amount;
            let updated = Payment {
                address: acc[k].address.clone(),
                asset: Asset { info: acc[k].asset.info.duplicate(), amount },
            };
            proof {
                lemma_sum_payments_update(acc@, k as int, updated);
            }
            acc.set(k, updated);
        } else {
            let copy = Payment { address: t.address.clone(), asset: t.asset.duplicate() };
            proof {
                lemma_sum_payments_push(acc@, copy);
            }
            acc.push(copy);
        }
        i = i + 1;
    }
    proof {
        assert(traders@.subrange(0, traders@.len() as int) =~= traders@);
    }
    acc
}

/// The payments actually sent: the merged payments with a nonzero amount.
pub open spec fn nonzero_payments(s: Seq<Payment>) -> Seq<Payment> {
    s.filter(|p: Payment| p.asset.amount != 0)
}

/// Merges the payments per payee and keeps those with something to pay.
pub fn process_list_trader(traders: Vec<Payment>) -> (r: Vec<Payment>)
    requires
        !(spec_aggregate(traders@, 0, Seq::empty()) is Aborted),
    ensures
        spec_aggregate(traders@, 0, Seq::empty()) matches Outcome::Done(m) && r@ == nonzero_payments(m),
{
    let merged = aggregate_payments(traders);
    let mut r: Vec<Payment> = Vec::new();
    let mut i: usize = 0;
    while i < merged.len()
        invariant
            i <= merged@.len(),
            r@ == merged@.subrange(0, i as int).filter(|p: Payment| p.asset.amount != 0),
        decreases merged@.len() - i,
    {
        proof {
            reveal(Seq::filter);
            assert(merged@.subrange(0, i + 1).drop_last() =~= merged@.subrange(0, i as int));
        }
        if merged[i].asset.amount != 0 {
            r.push(Payment { address: merged[i].address.clone(), asset: merged[i].asset.duplicate() });
        }
        i = i + 1;
    }
    proof {
        assert(merged@.subrange(0, merged@.len() as int) =~= merged@);
    }
    r
}

/// The executor stored for the pair, or a new one with zero rewards.
pub fn process_reward(stored: Option<Executor>, address: String, reward_assets: [Asset; 2]) -> (r: Executor)
    ensures
        r == (match stored {
            Some(e) => e,
            None => Executor { address, reward_assets },
        }),
{
    match stored {
        Some(e) => e,
        None => Executor::new(address, reward_assets),
    }
}

/// Pays out every reward of at least `MIN_FEE` and zeroes it; smaller ones
/// stay. Returns what is paid, base slot first.
pub fn transfer_reward(executor: &mut Executor) -> (r: Vec<Asset>)
    ensures
        same_executor_but_amounts(*final(executor), *old(executor)),
        r@ == (if old(executor).reward_assets[0].amount >= MIN_FEE { seq![old(executor).reward_assets[0]] } else { seq![] })
            + (if old(executor).reward_assets[1].amount >= MIN_FEE { seq![old(executor).reward_assets[1]] } else { seq![] }),
        final(executor).reward_assets[0].amount == (if old(executor).reward_assets[0].amount >= MIN_FEE { 0 } else { old(executor).reward_assets[0].amount }),
        final(executor).reward_assets[1].amount == (if old(executor).reward_assets[1].amount >= MIN_FEE { 0 } else { old(executor).reward_assets[1].amount }),
{
    let ghost e0 = *executor;
    let mut r: Vec<Asset> = Vec::new();
    if executor.reward_assets[0].amount >= MIN_FEE {
        r.push(executor.reward_assets[0].duplicate());
        executor.reward_assets[0].amount = 0;
    }
    if executor.reward_assets[1].amount >= MIN_FEE {
        r.push(executor.reward_assets[1].duplicate());
        executor.reward_assets[1].amount = 0;
    }
    proof {
        assert(r@ =~= (if e0.reward_assets[0].amount >= MIN_FEE { seq![e0.reward_assets[0]] } else { seq![] })
            + (if e0.reward_assets[1].amount >= MIN_FEE { seq![e0.reward_assets[1]] } else { seq![] }));
    }
    r
}

} // verus!
