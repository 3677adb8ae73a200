//! A matching round from the stored order to the writes, payments and
//! rewards it produces, and the contract's configuration.
use vstd::prelude::*;
use crate::math::{decimal_from_str, spec_decimal_from_str};
use crate::asset::{Asset, AssetInfo};
use super::types::{OrderStatus, ContractError, Outcome};
use super::order::{Order, OrderWithFee};
use super::matching::{PriceLevel, spec_matching, matching_order};
use super::fees::{
    Executor, Payment, MIN_FEE, reward_amounts, same_executor_but_amounts, spec_process_payments,
    process_payment_list_orders, spec_aggregate, nonzero_payments, process_list_trader, transfer_reward,
};

verus! {

/// The default commission rate, 0.1%.
pub const DEFAULT_COMMISSION_RATE: &'static str = "0.001";
/// The wallet that collects the commission unless another is configured.
pub const REWARD_WALLET: &'static str = "orai16stq6f4pnrfpz75n9ujv6qg3czcfa4qyjux5en";

/// The configuration of the order book contract.
pub struct ContractInfo {
    pub name: String,
    pub version: String,
    pub admin: String,
    pub commission_rate: String,
    pub reward_address: String,
    pub operator: Option<String>,
}

/// Parses the commission rate of the configuration.
pub fn parse_commission_rate(rate: &str) -> (r: Result<u128, ContractError>)
    ensures
        r == (match spec_decimal_from_str(rate@) {
            Some(v) => Ok::<u128, ContractError>(v),
            None => Err(ContractError::Arithmetic),
        }),
{
    match decimal_from_str(rate) {
        Some(v) => Ok(v),
        None => Err(ContractError::Arithmetic),
    }
}

/// Who collects the relayer fee: the configured operator, else the sender.
pub fn relayer_address(operator: &Option<String>, sender: &String) -> (r: String)
    ensures
        r == (match operator { Some(o) => *o, None => *sender }),
{
    match operator {
        Some(o) => o.clone(),
        None => sender.clone(),
    }
}

/// What a round leaves behind: the orders with their fees (the matched ones,
/// then the submitted one), the payments to traders, and the reward wallet
/// and relayer after paying out, with what they paid out.
pub struct Settlement {
    pub orders: Vec<OrderWithFee>,
    pub payments: Vec<Payment>,
    pub reward: Executor,
    pub relayer: Executor,
    pub reward_payouts: Vec<Asset>,
    pub relayer_payouts: Vec<Asset>,
}

/// The round before payouts: `None` when nothing matched.
pub open spec fn spec_settle(
    commission_rate: u128,
    base_info: AssetInfo,
    quote_info: AssetInfo,
    order: Order,
    price_threshold: u128,
    levels: Seq<PriceLevel>,
    reward: (u128, u128),
    relayer: (u128, u128),
) -> Outcome<Option<(Seq<OrderWithFee>, Seq<Payment>, (u128, u128), (u128, u128))>> {
    match spec_matching(order, price_threshold, levels) {
        Outcome::Done((u, m)) => if m.len() == 0 {
            Outcome::Done(None)
        } else {
            match spec_process_payments(commission_rate, base_info, quote_info, m.push(u), 0,
                (Seq::empty(), Seq::empty(), reward, relayer)) {
                Outcome::Done((os, ps, ra, la)) => match spec_aggregate(ps, 0, Seq::empty()) {
                    Outcome::Done(agg) => Outcome::Done(Some((os, nonzero_payments(agg), ra, la))),
                    Outcome::Failed => Outcome::Failed,
                    Outcome::Aborted => Outcome::Aborted,
                },
                Outcome::Failed => Outcome::Failed,
                Outcome::Aborted => Outcome::Aborted,
            }
        },
        Outcome::Failed => Outcome::Failed,
        Outcome::Aborted => Outcome::Aborted,
    }
}

/// What an executor pays out of these amounts: each reward of at least
/// `MIN_FEE`, base first.
pub open spec fn payout_assets(e: Executor, amounts: (u128, u128)) -> Seq<Asset> {
    (if amounts.0 >= MIN_FEE { seq![Asset { info: e.reward_assets[0].info, amount: amounts.0 }] } else { seq![] })
        + (if amounts.1 >= MIN_FEE { seq![Asset { info: e.reward_assets[1].info, amount: amounts.1 }] } else { seq![] })
}

/// The amounts an executor keeps after paying out.
pub open spec fn kept_amounts(amounts: (u128, u128)) -> (u128, u128) {
    (if amounts.0 >= MIN_FEE { 0 } else { amounts.0 }, if amounts.1 >= MIN_FEE { 0 } else { amounts.1 })
}

/// The settlement `s` is the round's: the orders and payments it computes,
/// and the reward wallet and relayer, whose rewards reached `ra` and `la`
/// before paying out.
pub open spec fn settled(
    commission_rate: u128,
    base_info: AssetInfo,
    quote_info: AssetInfo,
    order: Order,
    price_threshold: u128,
    levels: Seq<PriceLevel>,
    reward: Executor,
    relayer: Executor,
    s: Settlement,
    ra: (u128, u128),
    la: (u128, u128),
) -> bool {
    &&& spec_settle(commission_rate, base_info, quote_info, order, price_threshold, levels,
        reward_amounts(reward), reward_amounts(relayer)) == Outcome::Done(Some((s.orders@, s.payments@, ra, la)))
    &&& reward_amounts(s.reward) == kept_amounts(ra)
    &&& reward_amounts(s.relayer) == kept_amounts(la)
    &&& s.reward_payouts@ == payout_assets(reward, ra)
    &&& s.relayer_payouts@ == payout_assets(relayer, la)
}

/// The settlement is the round's, for some reward amounts before payout.
pub open spec fn settles(
    commission_rate: u128,
    base_info: AssetInfo,
    quote_info: AssetInfo,
    order: Order,
    price_threshold: u128,
    levels: Seq<PriceLevel>,
    reward: Executor,
    relayer: Executor,
    s: Settlement,
) -> bool {
    exists|ra: (u128, u128), la: (u128, u128)|
        #[trigger] settled(commission_rate, base_info, quote_info, order, price_threshold, levels, reward, relayer, s, ra, la)
}

/// Runs a matching round for the stored `order` against the `levels` of the
/// other side: matches, charges fees, merges the payments, and pays out the
/// rewards that are large enough. `Ok(None)` when nothing matched, and then
/// nothing is written.
pub fn process_matching(
    commission_rate: u128,
    base_info: &AssetInfo,
    quote_info: &AssetInfo,
    order: &Order,
    price_threshold: u128,
    levels: &Vec<PriceLevel>,
    reward: Executor,
    relayer: Executor,
) -> (res: Result<Option<Settlement>, ContractError>)
    requires
        !(spec_settle(commission_rate, *base_info, *quote_info, *order, price_threshold, levels@,
            reward_amounts(reward), reward_amounts(relayer)) is Aborted),
    ensures
        res is Ok <==> spec_settle(commission_rate, *base_info, *quote_info, *order, price_threshold, levels@,
            reward_amounts(reward), reward_amounts(relayer)) is Done,
        res matches Ok(None) ==> spec_settle(commission_rate, *base_info, *quote_info, *order, price_threshold, levels@,
            reward_amounts(reward), reward_amounts(relayer)) == Outcome::<Option<(Seq<OrderWithFee>, Seq<Payment>, (u128, u128), (u128, u128))>>::Done(None),
        res matches Ok(Some(s)) ==> settles(commission_rate, *base_info, *quote_info, *order, price_threshold, levels@, reward, relayer, s),
        res matches Ok(Some(s)) ==> same_executor_but_amounts(s.reward, reward) && same_executor_but_amounts(s.relayer, relayer),
{
    let ghost reward_in = reward;
    let ghost relayer_in = relayer;
    let (user_order, mut matched) = matching_order(levels, order, price_threshold)?;
    if matched.len() == 0 {
        return Ok(None);
    }
    let ghost m0 = matched@;
    matched.push(user_order);
    let mut wallet = reward;
    let mut relay = relayer;
    let ghost reward0 = wallet;
    let ghost relayer0 = relay;
    let mut traders: Vec<Payment> = Vec::new();
    proof {
        assert(traders@ =~= Seq::<Payment>::empty());
    }
    process_payment_list_orders(commission_rate, base_info, quote_info, &mut matched, &mut traders, &mut wallet, &mut relay)?;
    let ghost ra = reward_amounts(wallet);
    let ghost la = reward_amounts(relay);
    let payments = process_list_trader(traders);
    let reward_payouts = transfer_reward(&mut wallet);
    let relayer_payouts = transfer_reward(&mut relay);
    proof {
        assert(reward_payouts@ =~= payout_assets(reward0, ra));
        assert(relayer_payouts@ =~= payout_assets(relayer0, la));
        assert(spec_settle(commission_rate, *base_info, *quote_info, *order, price_threshold, levels@,
            reward_amounts(reward0), reward_amounts(relayer0)) == Outcome::Done(Some((matched@, payments@, ra, la))));
        assert(reward_amounts(wallet) == kept_amounts(ra));
        assert(reward_amounts(relay) == kept_amounts(la));
    }
    let settlement = Settlement { orders: matched, payments, reward: wallet, relayer: relay, reward_payouts, relayer_payouts };
    proof {
        assert(reward_in == reward0);
        assert(settled(commission_rate, *base_info, *quote_info, *order, price_threshold, levels@, reward_in, relayer_in, settlement, ra, la));
        assert(settles(commission_rate, *base_info, *quote_info, *order, price_threshold, levels@, reward_in, relayer_in, settlement));
    }
    Ok(Some(settlement))
}

/// What a round does to a stored order it touched: a fulfilled order leaves
/// the book (`true`), any other is saved again.
pub fn leaves_book(o: &OrderWithFee) -> (r: bool)
    ensures
        r == (o.status == OrderStatus::Fulfilled),
{
    o.status == OrderStatus::Fulfilled
}

/// Whether a round touched the order: an order still open did not trade.
pub fn touched(o: &OrderWithFee) -> (r: bool)
    ensures
        r == (o.status != OrderStatus::Open),
{
    o.status != OrderStatus::Open
}

/// The configuration at instantiation: each field from the message, else
/// its default.
pub fn instantiate_info(
    name: Option<String>,
    version: Option<String>,
    admin: Option<String>,
    commission_rate: Option<String>,
    reward_address: Option<String>,
    creator: String,
    contract_name: String,
    contract_version: String,
) -> (r: ContractInfo)
    ensures
        r.name == (match name { Some(n) => n, None => contract_name }),
        r.version == (match version { Some(v) => v, None => contract_version }),
        r.admin == (match admin { Some(a) => a, None => creator }),
        r.commission_rate@ == (match commission_rate { Some(c) => c@, None => DEFAULT_COMMISSION_RATE@ }),
        r.reward_address@ == (match reward_address { Some(a) => a@, None => REWARD_WALLET@ }),
        r.operator is None,
{
    ContractInfo {
        name: match name { Some(n) => n, None => contract_name },
        version: match version { Some(v) => v, None => contract_version },
        admin: match admin { Some(a) => a, None => creator },
        commission_rate: match commission_rate {
            Some(c) => c,
            None => String::from_str(DEFAULT_COMMISSION_RATE),
        },
        reward_address: match reward_address {
            Some(a) => a,
            None => String::from_str(REWARD_WALLET),
        },
        operator: None,
    }
}

/// Only the admin may change the configuration.
pub fn check_admin(admin: &String, sender: &String) -> (r: Result<(), ContractError>)
    ensures
        r is Ok <==> admin@ == sender@,
        r is Err ==> r == Err::<(), ContractError>(ContractError::Unauthorized),
{
    if admin.eq(sender) { Ok(()) } else { Err(ContractError::Unauthorized) }
}

/// The admin sets a book's spread (`None` removes it) and, when given, its
/// minimum quote amount; anyone else is refused. Returns the new spread and
/// minimum.
pub fn update_orderbook_pair(
    admin: &String,
    sender: &String,
    spread: Option<u128>,
    min_quote_coin_amount: Option<u128>,
    current_min_quote: u128,
) -> (r: Result<(Option<u128>, u128), ContractError>)
    ensures
        admin@ != sender@ ==> r == Err::<(Option<u128>, u128), ContractError>(ContractError::Unauthorized),
        admin@ == sender@ ==> r == Ok::<(Option<u128>, u128), ContractError>((spread, match min_quote_coin_amount {
            Some(m) => m,
            None => current_min_quote,
        })),
{
    check_admin(admin, sender)?;
    let min = match min_quote_coin_amount {
        Some(m) => m,
        None => current_min_quote,
    };
    Ok((spread, min))
}

/// Sets a new admin, for the admin only.
pub fn update_admin(info: &mut ContractInfo, sender: &String, admin: String) -> (r: Result<(), ContractError>)
    ensures
        r is Ok <==> old(info).admin@ == sender@,
        r is Ok ==> final(info).admin == admin && final(info).name == old(info).name
            && final(info).version == old(info).version && final(info).commission_rate == old(info).commission_rate
            && final(info).reward_address == old(info).reward_address && final(info).operator == old(info).operator,
        r is Err ==> r == Err::<(), ContractError>(ContractError::Unauthorized) && *final(info) == *old(info),
{
    check_admin(&info.admin, sender)?;
    info.admin = admin;
    Ok(())
}

/// Changes the reward address and the commission rate given, for the admin
/// only.
pub fn update_config(info: &mut ContractInfo, sender: &String, reward_address: Option<String>, commission_rate: Option<String>)
    -> (r: Result<(), ContractError>)
    ensures
        r is Ok <==> old(info).admin@ == sender@,
        r is Ok ==> {
            &&& final(info).reward_address == (match reward_address { Some(a) => a, None => old(info).reward_address })
            &&& final(info).commission_rate == (match commission_rate { Some(c) => c, None => old(info).commission_rate })
            &&& final(info).admin == old(info).admin && final(info).name == old(info).name
            &&& final(info).version == old(info).version && final(info).operator == old(info).operator
        },
        r is Err ==> r == Err::<(), ContractError>(ContractError::Unauthorized) && *final(info) == *old(info),
{
    check_admin(&info.admin, sender)?;
    if let Some(a) = reward_address {
        info.reward_address = a;
    }
    if let Some(c) = commission_rate {
        info.commission_rate = c;
    }
    Ok(())
}

} // verus!
