//! Submitting, pricing and cancelling orders, and the checks on what a
//! trader sends.
use vstd::prelude::*;
use crate::math::{DECIMAL_FRACTIONAL, spec_mul_dec, spec_from_ratio, mul_ratio, mul_dec, dec_from_ratio, dec_mul, dec_checked_mul, dec_checked_from_ratio, checked_multiply_ratio};
use crate::asset::{Asset, AssetInfo, Coin, spec_sent_native_balance_ok, sent_native_balance_ok};
use super::types::{OrderDirection, OrderStatus, ContractError};
use super::order::{Order, spec_order_price};
use super::book::{Tick, OrderBook, spec_best_price, highest_price, lowest_price};

verus! {

/// The slippage of a market order when neither the order nor the book sets
/// one: 1%, in decimal atomics.
pub const SLIPPAGE_DEFAULT: u128 = 10_000_000_000_000_000u128;

/// The assets a trader pays, first, and asks for, second, and the quote
/// asset of the pair, from the two assets of a submission given as (base,
/// quote) or (quote, base): a buy pays the quote asset, a sell the base.
pub open spec fn spec_paid_and_quote(base_info: AssetInfo, assets: [Asset; 2], direction: OrderDirection)
    -> ([Asset; 2], Asset)
{
    let reversed = [assets[1], assets[0]];
    if base_info@ == assets[0].info@ {
        (match direction { OrderDirection::Buy => reversed, OrderDirection::Sell => assets }, assets[1])
    } else {
        (match direction { OrderDirection::Buy => assets, OrderDirection::Sell => reversed }, assets[0])
    }
}

pub fn get_paid_and_quote_assets(base_info: &AssetInfo, assets: &[Asset; 2], direction: OrderDirection)
    -> (r: ([Asset; 2], Asset))
    ensures
        r == spec_paid_and_quote(*base_info, *assets, direction),
{
    let reversed = [assets[1].duplicate(), assets[0].duplicate()];
    let same = [assets[0].duplicate(), assets[1].duplicate()];
    proof {
        assert(reversed@ =~= [assets[1], assets[0]]@);
        assert(same@ =~= assets@);
    }
    if base_info.same_as(&assets[0].info) {
        let paid = match direction {
            OrderDirection::Buy => reversed,
            OrderDirection::Sell => same,
        };
        (paid, assets[1].duplicate())
    } else {
        let paid = match direction {
            OrderDirection::Buy => same,
            OrderDirection::Sell => reversed,
        };
        (paid, assets[0].duplicate())
    }
}

/// The checks on a limit order paid with native coins: the paid asset must
/// be native and exactly the coins sent, and the quote asset must reach the
/// book's minimum.
pub open spec fn spec_check_native_submit(paid: Asset, quote: Asset, funds: Seq<Coin>, min_quote: u128) -> Result<(), ContractError> {
    if !paid.info@.is_native() {
        Err(ContractError::MustBeNativeToken)
    } else if !spec_sent_native_balance_ok(paid, funds) {
        Err(ContractError::NativeTokenMismatch)
    } else if quote.amount < min_quote {
        Err(ContractError::TooSmallQuoteAsset { min_quote_amount: min_quote })
    } else {
        Ok(())
    }
}

pub fn check_native_submit(paid: &Asset, quote: &Asset, funds: &Vec<Coin>, min_quote: u128) -> (r: Result<(), ContractError>)
    ensures
        r == spec_check_native_submit(*paid, *quote, funds@, min_quote),
{
    if !paid.info.is_native_token() {
        return Err(ContractError::MustBeNativeToken);
    }
    if !sent_native_balance_ok(paid, funds) {
        return Err(ContractError::NativeTokenMismatch);
    }
    if quote.amount < min_quote {
        return Err(ContractError::TooSmallQuoteAsset { min_quote_amount: min_quote });
    }
    Ok(())
}

/// The checks on a limit order paid with cw20 tokens: the tokens received
/// must be the amount paid, and the quote asset must reach the minimum.
pub open spec fn spec_check_token_submit(paid: Asset, quote: Asset, provided: u128, min_quote: u128) -> Result<(), ContractError> {
    if paid.amount != provided {
        Err(ContractError::AssetMismatch)
    } else if quote.amount < min_quote {
        Err(ContractError::TooSmallQuoteAsset { min_quote_amount: min_quote })
    } else {
        Ok(())
    }
}

pub fn check_token_submit(paid: &Asset, quote: &Asset, provided: u128, min_quote: u128) -> (r: Result<(), ContractError>)
    ensures
        r == spec_check_token_submit(*paid, *quote, provided, min_quote),
{
    if paid.amount != provided {
        return Err(ContractError::AssetMismatch);
    }
    if quote.amount < min_quote {
        return Err(ContractError::TooSmallQuoteAsset { min_quote_amount: min_quote });
    }
    Ok(())
}

/// The asset offered by a market order: the first of the two when the
/// index is zero, the second otherwise.
pub fn market_offer_asset(assets: &[Asset; 2], offer_asset_index: u8) -> (r: Asset)
    ensures
        r == (if offer_asset_index == 0 { assets[0] } else { assets[1] }),
{
    if offer_asset_index == 0 { assets[0].duplicate() } else { assets[1].duplicate() }
}

/// A market order offering the quote asset must offer at least the book's
/// minimum.
pub open spec fn spec_check_market_minimum(quote_info: AssetInfo, offer: Asset, min_quote: u128) -> Result<(), ContractError> {
    if quote_info@ == offer.info@ && offer.amount < min_quote {
        Err(ContractError::TooSmallQuoteAsset { min_quote_amount: min_quote })
    } else {
        Ok(())
    }
}

pub fn check_market_minimum(quote_info: &AssetInfo, offer: &Asset, min_quote: u128) -> (r: Result<(), ContractError>)
    ensures
        r == spec_check_market_minimum(*quote_info, *offer, min_quote),
{
    if quote_info.same_as(&offer.info) && offer.amount < min_quote {
        Err(ContractError::TooSmallQuoteAsset { min_quote_amount: min_quote })
    } else {
        Ok(())
    }
}

/// The checks on a market order paid with native coins: the offered asset
/// must be native and exactly the coins sent, and an offer of the quote
/// asset must reach the book's minimum.
pub open spec fn spec_check_native_market_submit(offer: Asset, quote_info: AssetInfo, funds: Seq<Coin>, min_quote: u128) -> Result<(), ContractError> {
    if !offer.info@.is_native() {
        Err(ContractError::MustBeNativeToken)
    } else if !spec_sent_native_balance_ok(offer, funds) {
        Err(ContractError::NativeTokenMismatch)
    } else {
        spec_check_market_minimum(quote_info, offer, min_quote)
    }
}

pub fn check_native_market_submit(offer: &Asset, quote_info: &AssetInfo, funds: &Vec<Coin>, min_quote: u128) -> (r: Result<(), ContractError>)
    ensures
        r == spec_check_native_market_submit(*offer, *quote_info, funds@, min_quote),
{
    if !offer.info.is_native_token() {
        return Err(ContractError::MustBeNativeToken);
    }
    if !sent_native_balance_ok(offer, funds) {
        return Err(ContractError::NativeTokenMismatch);
    }
    check_market_minimum(quote_info, offer, min_quote)
}

/// The checks on a market order paid with cw20 tokens: the tokens received
/// must be the amount offered, and an offer of the quote asset must reach
/// the book's minimum.
pub open spec fn spec_check_token_market_submit(offer: Asset, quote_info: AssetInfo, provided: u128, min_quote: u128) -> Result<(), ContractError> {
    if offer.amount != provided {
        Err(ContractError::AssetMismatch)
    } else {
        spec_check_market_minimum(quote_info, offer, min_quote)
    }
}

pub fn check_token_market_submit(offer: &Asset, quote_info: &AssetInfo, provided: u128, min_quote: u128) -> (r: Result<(), ContractError>)
    ensures
        r == spec_check_token_market_submit(*offer, *quote_info, provided, min_quote),
{
    if offer.amount != provided {
        return Err(ContractError::AssetMismatch);
    }
    check_market_minimum(quote_info, offer, min_quote)
}


/// The spread bound a new limit order is held to, when the book has a
/// spread and the other side holds orders: a buy at most the lowest sell
/// times `1 + spread`, a sell at least the highest buy times `1 - spread`
/// (zero for a spread of one or more). `None` when there is no bound.
pub open spec fn spec_spread_bound(direction: OrderDirection, spread: Option<u128>, opposite: Seq<Tick>) -> Option<int> {
    match spread {
        None => None,
        Some(sp) => match direction {
            OrderDirection::Buy => {
                let (lowest, found, _) = spec_best_price(opposite, false);
                if found { Some(spec_mul_dec(lowest as int, DECIMAL_FRACTIONAL + sp)) } else { None }
            },
            OrderDirection::Sell => {
                let (highest, found, _) = spec_best_price(opposite, true);
                let factor: int = if sp >= DECIMAL_FRACTIONAL { 0 } else { DECIMAL_FRACTIONAL - sp };
                if found { Some(spec_mul_dec(highest as int, factor)) } else { None }
            },
        },
    }
}

/// The amount a new order asks, held to the spread bound: the order keeps
/// what it offers, and one priced (quote per base) beyond the bound asks what the bound
/// price gives instead (a buy `offer / bound`, a sell `offer * bound`,
/// rounded down). A zero or overflowing bound for a buy holds nothing.
/// Refused when the bounded ask is zero or does not fit.
pub open spec fn spec_bounded_ask(direction: OrderDirection, offer: u128, ask: u128, bound: Option<int>) -> Result<u128, ContractError> {
    match bound {
        None => Ok(ask),
        Some(b) => {
            let price = spec_order_price(direction, offer, ask);
            let new_ask: int = match direction {
                OrderDirection::Buy => if b == 0 || b > u128::MAX || price <= b { ask as int } else { mul_ratio(offer as int, DECIMAL_FRACTIONAL as int, b) },
                OrderDirection::Sell => if price >= b { ask as int } else { spec_mul_dec(offer as int, b) },
            };
            if new_ask > u128::MAX {
                Err(ContractError::Arithmetic)
            } else if new_ask == 0 {
                Err(ContractError::AssetMustNotBeZero)
            } else {
                Ok(new_ask as u128)
            }
        },
    }
}

/// The spread bound of a new order; see `spec_spread_bound`. `None` also
/// when the bound does not fit, which holds no buy.
fn spread_bound(direction: OrderDirection, spread: Option<u128>, opposite: &Vec<Tick>) -> (r: Option<u128>)
    requires
        spread matches Some(sp) ==> sp <= u128::MAX - DECIMAL_FRACTIONAL,
    ensures
        match spec_spread_bound(direction, spread, opposite@) {
            None => r is None,
            Some(b) => if b <= u128::MAX { r == Some(b as u128) } else { r is None && direction == OrderDirection::Buy },
        },
{
    match spread {
        None => None,
        Some(sp) => match direction {
            OrderDirection::Buy => {
                let (lowest, found, _) = lowest_price(opposite);
                if !found {
                    None
                } else {
                    dec_checked_mul(lowest, DECIMAL_FRACTIONAL + sp)
                }
            },
            OrderDirection::Sell => {
                let (highest, found, _) = highest_price(opposite);
                if !found {
                    return None;
                }
                let factor: u128 = if sp >= DECIMAL_FRACTIONAL { 0 } else { DECIMAL_FRACTIONAL - sp };
                proof {
                    assert(spec_mul_dec(highest as int, factor as int) <= highest) by (nonlinear_arith)
                        requires
                            factor <= DECIMAL_FRACTIONAL,
                            spec_mul_dec(highest as int, factor as int) == (highest as int) * (factor as int) / (DECIMAL_FRACTIONAL as int),
                            DECIMAL_FRACTIONAL > 0,
                    {
                        assert((highest as int) * (factor as int) <= (highest as int) * (DECIMAL_FRACTIONAL as int));
                    };
                }
                dec_checked_mul(highest, factor)
            },
        },
    }
}
/// The order a new limit order is stored as.
pub open spec fn spec_new_limit_order(order_id: u64, bidder_addr: String, direction: OrderDirection, offer: u128, ask: u128) -> Order {
    Order {
        order_id,
        direction,
        bidder_addr,
        offer_amount: offer,
        ask_amount: ask,
        filled_offer_amount: 0,
        filled_ask_amount: 0,
        status: OrderStatus::Open,
    }
}

/// Submits a limit order paying `assets[0]` for `assets[1]`: both amounts
/// must be nonzero. With a spread on the book, an order priced beyond the
/// spread bound of the other side is held to it (see `spec_bounded_ask`).
/// The order to store is open and unfilled. A limit order never trades at
/// submission: it rests in the book until a matching round runs.
pub fn submit_order(
    order_id: u64,
    bidder_addr: String,
    direction: OrderDirection,
    assets: &[Asset; 2],
    spread: Option<u128>,
    opposite: &Vec<Tick>,
) -> (r: Result<Order, ContractError>)
    requires
        spread matches Some(sp) ==> sp <= u128::MAX - DECIMAL_FRACTIONAL,
    ensures
        (assets[0].amount == 0 || assets[1].amount == 0) ==> r == Err::<Order, ContractError>(ContractError::AssetMustNotBeZero),
        !(assets[0].amount == 0 || assets[1].amount == 0) ==> r == (match spec_bounded_ask(direction, assets[0].amount,
            assets[1].amount, spec_spread_bound(direction, spread, opposite@)) {
            Ok(a) => Ok::<Order, ContractError>(spec_new_limit_order(order_id, bidder_addr, direction, assets[0].amount, a)),
            Err(e) => Err(e),
        }),
{
    if assets[0].amount == 0 || assets[1].amount == 0 {
        return Err(ContractError::AssetMustNotBeZero);
    }
    let offer = assets[0].amount;
    let ask = assets[1].amount;
    let ask_amount = match spread_bound(direction, spread, opposite) {
        None => ask,
        Some(b) => {
            let price = match direction {
                OrderDirection::Buy => dec_checked_from_ratio(offer, ask),
                OrderDirection::Sell => dec_checked_from_ratio(ask, offer),
            };
            let bounded = match direction {
                OrderDirection::Buy => {
                    let beyond = match price {
                        None => true,
                        Some(p) => p > b,
                    };
                    if b == 0 || !beyond {
                        ask
                    } else {
                        match checked_multiply_ratio(offer, DECIMAL_FRACTIONAL, b) {
                            None => return Err(ContractError::Arithmetic),
                            Some(x) => x,
                        }
                    }
                },
                OrderDirection::Sell => {
                    let below = match price {
                        None => false,
                        Some(p) => p < b,
                    };
                    if !below {
                        ask
                    } else {
                        match checked_multiply_ratio(offer, b, DECIMAL_FRACTIONAL) {
                            None => return Err(ContractError::Arithmetic),
                            Some(x) => x,
                        }
                    }
                },
            };
            if bounded == 0 {
                return Err(ContractError::AssetMustNotBeZero);
            }
            bounded
        },
    };
    Ok(Order {
        order_id,
        direction,
        bidder_addr,
        offer_amount: offer,
        ask_amount,
        filled_offer_amount: 0,
        filled_ask_amount: 0,
        status: OrderStatus::Open,
    })
}

/// What a market order decides before matching: the best price of the other
/// side, the worst price it accepts, and the most it can receive.
pub struct MarketOrderPlan {
    pub best_price: u128,
    pub price_threshold: u128,
    pub max_ask_amount: u128,
}

/// The slippage of a market order: its own, else the book's spread, else 1%.
pub open spec fn spec_slippage(slippage: Option<u128>, spread: Option<u128>) -> u128 {
    match slippage {
        Some(s) => s,
        None => match spread { Some(s) => s, None => SLIPPAGE_DEFAULT },
    }
}

/// Whether planning a market order panics: a buy against a zero best sell
/// price, or an amount out of range.
pub open spec fn spec_market_plan_panics(direction: OrderDirection, offer_amount: u128, slippage: u128, opposite: Seq<Tick>) -> bool {
    slippage < DECIMAL_FRACTIONAL && opposite.len() > 0 && match direction {
        OrderDirection::Buy => {
            let (p, _, _) = spec_best_price(opposite, false);
            spec_mul_dec(p as int, (DECIMAL_FRACTIONAL + slippage) as int) > u128::MAX
                || offer_amount * DECIMAL_FRACTIONAL > u128::MAX || p == 0
        },
        OrderDirection::Sell => {
            let (p, _, _) = spec_best_price(opposite, true);
            spec_mul_dec(offer_amount as int, p as int) > u128::MAX
        },
    }
}

/// Tells whether planning a market order would panic (see
/// `spec_market_plan_panics`), so a caller can refuse it first.
pub fn market_plan_panics(
    direction: OrderDirection,
    offer_amount: u128,
    slippage: Option<u128>,
    spread: Option<u128>,
    opposite: &Vec<Tick>,
) -> (r: bool)
    ensures
        r == spec_market_plan_panics(direction, offer_amount, spec_slippage(slippage, spread), opposite@),
{
    let slippage = match slippage {
        Some(s) => s,
        None => match spread {
            Some(s) => s,
            None => SLIPPAGE_DEFAULT,
        },
    };
    if slippage >= DECIMAL_FRACTIONAL || opposite.len() == 0 {
        return false;
    }
    match direction {
        OrderDirection::Buy => {
            let (p, _, _) = lowest_price(opposite);
            checked_multiply_ratio(p, DECIMAL_FRACTIONAL + slippage, DECIMAL_FRACTIONAL).is_none()
                || offer_amount.checked_mul(DECIMAL_FRACTIONAL).is_none() || p == 0
        },
        OrderDirection::Sell => {
            let (p, _, _) = highest_price(opposite);
            checked_multiply_ratio(offer_amount, p, DECIMAL_FRACTIONAL).is_none()
        },
    }
}

/// The plan of a market order: a slippage of one or more is refused; the
/// best price of the other side sets the threshold (raised by the slippage
/// for a buy, lowered for a sell) and the most the order can receive; with
/// no price on the other side, or a zero one, the order cannot be made.
pub open spec fn spec_market_plan(direction: OrderDirection, offer_amount: u128, slippage: u128, opposite: Seq<Tick>)
    -> Result<(u128, u128, u128), ContractError>
{
    if slippage >= DECIMAL_FRACTIONAL {
        Err(ContractError::SlippageMustLessThanOne { slippage })
    } else {
        let (best, threshold, max_ask) = if opposite.len() == 0 {
            (0u128, 0u128, 0u128)
        } else {
            match direction {
                OrderDirection::Buy => {
                    let (p, _, _) = spec_best_price(opposite, false);
                    (p, spec_mul_dec(p as int, (DECIMAL_FRACTIONAL + slippage) as int) as u128,
                        ((offer_amount * DECIMAL_FRACTIONAL) / (p as int)) as u128)
                },
                OrderDirection::Sell => {
                    let (p, _, _) = spec_best_price(opposite, true);
                    (p, spec_mul_dec(p as int, (DECIMAL_FRACTIONAL - slippage) as int) as u128,
                        spec_mul_dec(offer_amount as int, p as int) as u128)
                },
            }
        };
        if best == 0 {
            Err(ContractError::CannotCreateMarketOrder)
        } else {
            Ok((best, threshold, max_ask))
        }
    }
}

/// Ticks listed in ascending order of price.
pub open spec fn ticks_ascending(ticks: Seq<Tick>) -> bool {
    forall|i: int, j: int| 0 <= i < j < ticks.len() ==> #[trigger] ticks[i].price <= #[trigger] ticks[j].price
}

/// The market order law: a market order is planned from the best price of
/// the other side, the lowest sell for a buy and the highest buy for a
/// sell, a price some order rests at. A buy accepts up to that price raised
/// by the slippage and can receive what its offer buys there; a sell
/// accepts down to that price lowered by the slippage and can receive its
/// offer's worth there. With the other side empty or its best price zero,
/// no market order can be made.
pub proof fn lemma_market_plan_best_price(direction: OrderDirection, offer_amount: u128, slippage: u128, opposite: Seq<Tick>)
    requires
        ticks_ascending(opposite),
        slippage < DECIMAL_FRACTIONAL,
        !spec_market_plan_panics(direction, offer_amount, slippage, opposite),
    ensures
        opposite.len() == 0 ==> spec_market_plan(direction, offer_amount, slippage, opposite)
            == Err::<(u128, u128, u128), ContractError>(ContractError::CannotCreateMarketOrder),
        spec_market_plan(direction, offer_amount, slippage, opposite) matches Ok((b, t, m)) ==> {
            &&& b > 0
            &&& exists|k: int| 0 <= k < opposite.len() && #[trigger] opposite[k].price == b
            &&& match direction {
                OrderDirection::Buy => {
                    &&& forall|k: int| 0 <= k < opposite.len() ==> b <= #[trigger] opposite[k].price
                    &&& t == b * (DECIMAL_FRACTIONAL + slippage) / (DECIMAL_FRACTIONAL as int)
                    &&& m == offer_amount * DECIMAL_FRACTIONAL / (b as int)
                },
                OrderDirection::Sell => {
                    &&& forall|k: int| 0 <= k < opposite.len() ==> #[trigger] opposite[k].price <= b
                    &&& t == b * (DECIMAL_FRACTIONAL - slippage) / (DECIMAL_FRACTIONAL as int)
                    &&& m == offer_amount * b / (DECIMAL_FRACTIONAL as int)
                },
            }
        },
{
    if opposite.len() > 0 {
        match direction {
            OrderDirection::Buy => {
                let p = opposite[0].price;
                if p > 0 {
                    assert(offer_amount * DECIMAL_FRACTIONAL / (p as int) <= offer_amount * DECIMAL_FRACTIONAL) by (nonlinear_arith)
                        requires p > 0, offer_amount >= 0;
                }
                assert(opposite[0].price == p);
            },
            OrderDirection::Sell => {
                let l = opposite.len() - 1;
                let p = opposite[l].price;
                assert(p * (DECIMAL_FRACTIONAL - slippage) / (DECIMAL_FRACTIONAL as int) <= p) by (nonlinear_arith)
                    requires slippage < DECIMAL_FRACTIONAL, p >= 0, DECIMAL_FRACTIONAL > 0;
                assert(p * (DECIMAL_FRACTIONAL - slippage) / (DECIMAL_FRACTIONAL as int) >= 0) by (nonlinear_arith)
                    requires slippage < DECIMAL_FRACTIONAL, p >= 0, DECIMAL_FRACTIONAL > 0;
                assert(opposite[l].price == p);
            },
        }
    }
}

/// Planning a market sell overflows exactly when the offer's worth at some
/// buy price of the book does not fit.
pub proof fn lemma_market_sell_overflow(offer_amount: u128, slippage: u128, opposite: Seq<Tick>)
    requires
        ticks_ascending(opposite),
        slippage < DECIMAL_FRACTIONAL,
    ensures
        spec_market_plan_panics(OrderDirection::Sell, offer_amount, slippage, opposite)
            <==> exists|k: int| 0 <= k < opposite.len()
                && offer_amount * (#[trigger] opposite[k].price) / (DECIMAL_FRACTIONAL as int) > u128::MAX,
{
    if opposite.len() > 0 {
        let l = opposite.len() - 1;
        assert forall|k: int| 0 <= k < opposite.len() implies
            offer_amount * (#[trigger] opposite[k].price) / (DECIMAL_FRACTIONAL as int)
                <= offer_amount * opposite[l].price / (DECIMAL_FRACTIONAL as int) by {
            let pk = opposite[k].price as int;
            let pl = opposite[l].price as int;
            assert(pk <= pl);
            assert(offer_amount * pk <= offer_amount * pl) by (nonlinear_arith)
                requires pk <= pl, offer_amount >= 0;
            assert(offer_amount * pk / (DECIMAL_FRACTIONAL as int) <= offer_amount * pl / (DECIMAL_FRACTIONAL as int)) by (nonlinear_arith)
                requires offer_amount * pk <= offer_amount * pl, DECIMAL_FRACTIONAL > 0;
        }
        if offer_amount * opposite[l].price / (DECIMAL_FRACTIONAL as int) > u128::MAX {
            assert(0 <= l < opposite.len());
        }
    }
}

/// Plans a market order offering `offer_amount`; `opposite` are the ticks of
/// the other side in ascending order.
pub fn market_order_plan(
    direction: OrderDirection,
    offer_amount: u128,
    slippage: Option<u128>,
    spread: Option<u128>,
    opposite: &Vec<Tick>,
) -> (r: Result<MarketOrderPlan, ContractError>)
    requires
        !spec_market_plan_panics(direction, offer_amount, spec_slippage(slippage, spread), opposite@),
    ensures
        match spec_market_plan(direction, offer_amount, spec_slippage(slippage, spread), opposite@) {
            Ok((b, t, m)) => r matches Ok(p) && p.best_price == b && p.price_threshold == t && p.max_ask_amount == m,
            Err(e) => r == Err::<MarketOrderPlan, ContractError>(e),
        },
{
    let slippage = match slippage {
        Some(s) => s,
        None => match spread {
            Some(s) => s,
            None => SLIPPAGE_DEFAULT,
        },
    };
    if slippage >= DECIMAL_FRACTIONAL {
        return Err(ContractError::SlippageMustLessThanOne { slippage });
    }
    let (best_price, price_threshold, max_ask_amount) = match direction {
        OrderDirection::Buy => {
            let (lowest_sell_price, sell_found, _) = lowest_price(opposite);
            if !sell_found {
                (0, 0, 0)
            } else {
                let threshold = dec_mul(lowest_sell_price, DECIMAL_FRACTIONAL + slippage);
                let max_ask = (offer_amount * DECIMAL_FRACTIONAL) / lowest_sell_price;
                (lowest_sell_price, threshold, max_ask)
            }
        },
        OrderDirection::Sell => {
            let (highest_buy_price, buy_found, _) = highest_price(opposite);
            if !buy_found {
                (0, 0, 0)
            } else {
                proof {
                    assert(spec_mul_dec(highest_buy_price as int, (DECIMAL_FRACTIONAL - slippage) as int) <= highest_buy_price) by (nonlinear_arith)
                        requires 0 <= DECIMAL_FRACTIONAL - slippage <= DECIMAL_FRACTIONAL, highest_buy_price >= 0;
                }
                let threshold = dec_mul(highest_buy_price, DECIMAL_FRACTIONAL - slippage);
                let max_ask = mul_dec(offer_amount, highest_buy_price);
                (highest_buy_price, threshold, max_ask)
            }
        },
    };
    if best_price == 0 {
        return Err(ContractError::CannotCreateMarketOrder);
    }
    Ok(MarketOrderPlan { best_price, price_threshold, max_ask_amount })
}

/// What is refunded of an order left in the book after a market match: the
/// part of its offer not filled; `Err` when it is filled past its offer.
pub fn market_order_refund(order: &Order) -> (r: Result<u128, ContractError>)
    ensures
        order.filled_offer_amount <= order.offer_amount ==> r == Ok::<u128, ContractError>((order.offer_amount - order.filled_offer_amount) as u128),
        order.filled_offer_amount > order.offer_amount ==> r == Err::<u128, ContractError>(ContractError::Arithmetic),
{
    if order.filled_offer_amount > order.offer_amount {
        Err(ContractError::Arithmetic)
    } else {
        Ok(order.offer_amount - order.filled_offer_amount)
    }
}

/// What cancelling an order gives back.
pub struct CancelPlan {
    /// What is left of the offer, in the asset the order offered.
    pub refund: Asset,
    /// Whether a refund is sent: only a nonzero one is.
    pub send_refund: bool,
}

/// Cancels `order` for `sender`: only its bidder may; the unfilled offer is
/// refunded in the quote asset for a buy and the base asset for a sell.
pub fn cancel_order(order: &Order, sender: &String, base_info: &AssetInfo, quote_info: &AssetInfo)
    -> (r: Result<CancelPlan, ContractError>)
    ensures
        order.bidder_addr@ != sender@ ==> r == Err::<CancelPlan, ContractError>(ContractError::Unauthorized),
        order.bidder_addr@ == sender@ && order.filled_offer_amount > order.offer_amount
            ==> r == Err::<CancelPlan, ContractError>(ContractError::Arithmetic),
        order.bidder_addr@ == sender@ && order.filled_offer_amount <= order.offer_amount ==> (r matches Ok(p) && {
            &&& p.refund.amount == order.offer_amount - order.filled_offer_amount
            &&& p.refund.info == (match order.direction { OrderDirection::Buy => *quote_info, OrderDirection::Sell => *base_info })
            &&& p.send_refund == (p.refund.amount > 0)
        }),
{
    if !order.bidder_addr.eq(sender) {
        return Err(ContractError::Unauthorized);
    }
    if order.filled_offer_amount > order.offer_amount {
        return Err(ContractError::Arithmetic);
    }
    let left_offer_amount = order.offer_amount - order.filled_offer_amount;
    let info = match order.direction {
        OrderDirection::Buy => quote_info.duplicate(),
        OrderDirection::Sell => base_info.duplicate(),
    };
    Ok(CancelPlan { refund: Asset { info, amount: left_offer_amount }, send_refund: left_offer_amount > 0 })
}

/// A change to the count of orders at a tick.
#[derive(PartialEq, Eq, Structural, Clone, Copy, Debug)]
pub enum TickWrite {
    Save(u64),
    Remove,
    Keep,
}

/// The tick count after storing an order: one more when the order is new.
/// Returns the count saved.
pub fn tick_after_store(stored: Option<u64>, inserted: bool) -> (r: u64)
    requires
        inserted ==> (match stored { Some(n) => n, None => 0 }) < u64::MAX,
    ensures
        r == (match stored { Some(n) => n, None => 0 }) + (if inserted { 1int } else { 0int }),
{
    let total = match stored {
        Some(n) => n,
        None => 0,
    };
    if inserted { total + 1 } else { total }
}

/// The write to a tick when an order leaves it: one less, and the tick goes
/// when none is left; an empty tick is left alone. Also the count that
/// remains.
pub open spec fn spec_tick_after_remove(stored: Option<u64>) -> (TickWrite, u64) {
    let total = match stored { Some(n) => n, None => 0 };
    if total > 0 {
        if total - 1 > 0 { (TickWrite::Save((total - 1) as u64), (total - 1) as u64) } else { (TickWrite::Remove, 0) }
    } else {
        (TickWrite::Keep, 0)
    }
}

pub fn tick_after_remove(stored: Option<u64>) -> (r: (TickWrite, u64))
    ensures
        r == spec_tick_after_remove(stored),
{
    let total = match stored {
        Some(n) => n,
        None => 0,
    };
    if total > 0 {
        let left = total - 1;
        if left > 0 { (TickWrite::Save(left), left) } else { (TickWrite::Remove, 0) }
    } else {
        (TickWrite::Keep, 0)
    }
}

/// The tick law: removing an order just stored as new brings its tick back
/// to the count it had, and removes the tick if it had none.
pub proof fn lemma_store_then_remove(stored: Option<u64>)
    requires
        (match stored { Some(n) => n, None => 0 }) < u64::MAX,
    ensures
        ({
            let before = match stored { Some(n) => n, None => 0 };
            let after_store = (before + 1) as u64;
            spec_tick_after_remove(Some(after_store)) == if before > 0 {
                (TickWrite::Save(before), before)
            } else {
                (TickWrite::Remove, 0u64)
            }
        }),
{
}

/// The tick of an order: its side and its price.
pub open spec fn tick_key(o: Order) -> (OrderDirection, int) {
    (o.direction, spec_order_price(o.direction, o.offer_amount, o.ask_amount))
}

/// The stored orders of a pair, by id, at a tick.
pub open spec fn orders_at(orders: Map<u64, Order>, k: (OrderDirection, int)) -> Set<u64> {
    orders.dom().filter(|id: u64| tick_key(orders[id]) == k)
}

/// The count kept at a tick, zero where none is kept.
pub open spec fn tick_count(ticks: Map<(OrderDirection, int), u64>, k: (OrderDirection, int)) -> nat {
    if ticks.contains_key(k) { ticks[k] as nat } else { 0 }
}

/// The tick invariant of a pair's book: the count kept at each tick is the
/// number of stored orders there, and a tick is kept only while some order
/// is there.
pub open spec fn ticks_consistent(orders: Map<u64, Order>, ticks: Map<(OrderDirection, int), u64>) -> bool {
    &&& orders.dom().finite()
    &&& forall|k: (OrderDirection, int)| #[trigger] orders_at(orders, k).len() == tick_count(ticks, k)
    &&& forall|k: (OrderDirection, int)| #[trigger] ticks.contains_key(k) ==> ticks[k] > 0
}

/// The book after storing a new order: the order under its id, and its
/// tick's count as `tick_after_store` gives it.
pub open spec fn book_after_store(orders: Map<u64, Order>, ticks: Map<(OrderDirection, int), u64>, o: Order)
    -> (Map<u64, Order>, Map<(OrderDirection, int), u64>)
{
    let k = tick_key(o);
    (orders.insert(o.order_id, o), ticks.insert(k, (tick_count(ticks, k) + 1) as u64))
}

/// The book after removing an order: the order gone, and its tick written
/// as `tick_after_remove` says.
pub open spec fn book_after_remove(orders: Map<u64, Order>, ticks: Map<(OrderDirection, int), u64>, o: Order)
    -> (Map<u64, Order>, Map<(OrderDirection, int), u64>)
{
    let k = tick_key(o);
    let stored = if ticks.contains_key(k) { Some(ticks[k]) } else { None };
    (orders.remove(o.order_id), match spec_tick_after_remove(stored).0 {
        TickWrite::Save(n) => ticks.insert(k, n),
        TickWrite::Remove => ticks.remove(k),
        TickWrite::Keep => ticks,
    })
}

/// Storing a new order keeps the tick invariant.
pub proof fn lemma_store_keeps_ticks(orders: Map<u64, Order>, ticks: Map<(OrderDirection, int), u64>, o: Order)
    requires
        ticks_consistent(orders, ticks),
        !orders.dom().contains(o.order_id),
        tick_count(ticks, tick_key(o)) < u64::MAX,
    ensures
        ({
            let (no, nt) = book_after_store(orders, ticks, o);
            ticks_consistent(no, nt)
        }),
{
    let (no, nt) = book_after_store(orders, ticks, o);
    let key = tick_key(o);
    assert(no.dom() =~= orders.dom().insert(o.order_id));
    assert forall|k: (OrderDirection, int)| #[trigger] orders_at(no, k).len() == tick_count(nt, k) by {
        orders.dom().lemma_len_filter(|id: u64| tick_key(orders[id]) == k);
        assert(orders_at(orders, k).len() == tick_count(ticks, k));
        if k == key {
            assert(orders_at(no, k) =~= orders_at(orders, k).insert(o.order_id));
        } else {
            assert(orders_at(no, k) =~= orders_at(orders, k));
        }
    }
    assert forall|k: (OrderDirection, int)| #[trigger] nt.contains_key(k) implies nt[k] > 0 by {
        if k != key {
            assert(ticks.contains_key(k));
        }
    }
}

/// Removing a stored order keeps the tick invariant.
pub proof fn lemma_remove_keeps_ticks(orders: Map<u64, Order>, ticks: Map<(OrderDirection, int), u64>, o: Order)
    requires
        ticks_consistent(orders, ticks),
        orders.dom().contains(o.order_id),
        orders[o.order_id] == o,
    ensures
        tick_count(ticks, tick_key(o)) >= 1,
        ({
            let (no, nt) = book_after_remove(orders, ticks, o);
            ticks_consistent(no, nt)
        }),
{
    let (no, nt) = book_after_remove(orders, ticks, o);
    let key = tick_key(o);
    assert(no.dom() =~= orders.dom().remove(o.order_id));
    orders.dom().lemma_len_filter(|id: u64| tick_key(orders[id]) == key);
    assert(orders_at(orders, key).contains(o.order_id));
    assert(orders_at(orders, key).len() == tick_count(ticks, key));
    assert(ticks.contains_key(key));
    assert forall|k: (OrderDirection, int)| #[trigger] orders_at(no, k).len() == tick_count(nt, k) by {
        orders.dom().lemma_len_filter(|id: u64| tick_key(orders[id]) == k);
        assert(orders_at(orders, k).len() == tick_count(ticks, k));
        if k == key {
            assert(orders_at(no, k) =~= orders_at(orders, k).remove(o.order_id));
        } else {
            assert(orders_at(no, k) =~= orders_at(orders, k));
        }
    }
    assert forall|k: (OrderDirection, int)| #[trigger] nt.contains_key(k) implies nt[k] > 0 by {
        if k != key {
            assert(ticks.contains_key(k));
        }
    }
}

/// Storing a new order and removing it again gives back the book it was
/// stored in: the orders and every tick, a tick that was not kept being
/// dropped again.
pub proof fn lemma_store_then_remove_book(orders: Map<u64, Order>, ticks: Map<(OrderDirection, int), u64>, o: Order)
    requires
        ticks_consistent(orders, ticks),
        !orders.dom().contains(o.order_id),
        tick_count(ticks, tick_key(o)) < u64::MAX,
    ensures
        ({
            let (so, st) = book_after_store(orders, ticks, o);
            book_after_remove(so, st, o) == (orders, ticks)
        }),
{
    let (so, st) = book_after_store(orders, ticks, o);
    let (ro, rt) = book_after_remove(so, st, o);
    let key = tick_key(o);
    assert(ro =~= orders);
    if ticks.contains_key(key) {
        assert(rt =~= ticks);
    } else {
        assert(rt =~= ticks);
    }
}

/// The volumes of a group of orders at one price: what they still offer and
/// still ask.
pub struct BulkOrders {
    pub orders: Vec<Order>,
    pub direction: OrderDirection,
    pub price: u128,
    pub volume: u128,
    pub filled_volume: u128,
    pub ask_volume: u128,
    pub filled_ask_volume: u128,
    pub spread_volume: u128,
}

/// Sum of what the orders still offer.
pub open spec fn sum_left_offer(s: Seq<Order>) -> int
    decreases s.len(),
{
    if s.len() == 0 { 0 } else { sum_left_offer(s.drop_last()) + (s.last().offer_amount - s.last().filled_offer_amount) }
}

/// Sum of what the orders still ask.
pub open spec fn sum_left_ask(s: Seq<Order>) -> int
    decreases s.len(),
{
    if s.len() == 0 { 0 } else { sum_left_ask(s.drop_last()) + (s.last().ask_amount - s.last().filled_ask_amount) }
}

/// No order is filled past its amounts.
pub open spec fn orders_within(s: Seq<Order>) -> bool {
    forall|k: int| 0 <= k < s.len() ==> #[trigger] s[k].filled_offer_amount <= s[k].offer_amount
        && s[k].filled_ask_amount <= s[k].ask_amount
}

proof fn lemma_sum_left_prefix(s: Seq<Order>, i: int)
    requires
        0 <= i <= s.len(),
        orders_within(s),
    ensures
        sum_left_offer(s.subrange(0, i)) <= sum_left_offer(s),
        sum_left_ask(s.subrange(0, i)) <= sum_left_ask(s),
        0 <= sum_left_offer(s.subrange(0, i)),
        0 <= sum_left_ask(s.subrange(0, i)),
    decreases s.len(),
{
    if s.len() == 0 {
        assert(s.subrange(0, i) =~= s);
    } else if i == s.len() {
        assert(s.subrange(0, i) =~= s);
        lemma_sum_left_prefix(s.drop_last(), i - 1);
        assert(s.drop_last().subrange(0, i - 1) =~= s.drop_last());
    } else {
        lemma_sum_left_prefix(s.drop_last(), i);
        assert(s.drop_last().subrange(0, i) =~= s.subrange(0, i));
        assert(s.drop_last() =~= s.subrange(0, s.len() - 1));
    }
}

impl BulkOrders {
    /// Sums what the orders still offer and still ask.
    pub fn from_orders(orders: &Vec<Order>, price: u128, direction: OrderDirection) -> (r: BulkOrders)
        requires
            orders_within(orders@),
            sum_left_offer(orders@) <= u128::MAX,
            sum_left_ask(orders@) <= u128::MAX,
        ensures
            r.orders@ == orders@,
            r.direction == direction,
            r.price == price,
            r.volume == sum_left_offer(orders@),
            r.ask_volume == sum_left_ask(orders@),
            r.filled_volume == 0,
            r.filled_ask_volume == 0,
            r.spread_volume == 0,
    {
        let mut volume: u128 = 0;
        let mut ask_volume: u128 = 0;
        let mut copies: Vec<Order> = Vec::new();
        let mut i: usize = 0;
        while i < orders.len()
            invariant
                i <= orders@.len(),
                orders_within(orders@),
                sum_left_offer(orders@) <= u128::MAX,
                sum_left_ask(orders@) <= u128::MAX,
                volume == sum_left_offer(orders@.subrange(0, i as int)),
                ask_volume == sum_left_ask(orders@.subrange(0, i as int)),
                copies@ == orders@.subrange(0, i as int),
            decreases orders@.len() - i,
        {
            let o = &orders[i];
            proof {
                assert(orders@.subrange(0, i + 1).drop_last() =~= orders@.subrange(0, i as int));
                lemma_sum_left_prefix(orders@, i + 1);
                assert(orders@[i as int].filled_offer_amount <= orders@[i as int].offer_amount);
            }
            volume = volume + (o.offer_amount - o.filled_offer_amount);
            ask_volume = ask_volume + (o.ask_amount - o.filled_ask_amount);
            copies.push(o.duplicate());
            proof {
                assert(copies@ =~= orders@.subrange(0, i + 1));
            }
            i = i + 1;
        }
        proof {
            assert(orders@.subrange(0, orders@.len() as int) =~= orders@);
        }
        BulkOrders {
            orders: copies,
            direction,
            price,
            volume,
            filled_volume: 0,
            ask_volume,
            filled_ask_volume: 0,
            spread_volume: 0,
        }
    }
}

/// Sum of what the orders ask.
pub open spec fn sum_ask(s: Seq<Order>) -> int
    decreases s.len(),
{
    if s.len() == 0 { 0 } else { sum_ask(s.drop_last()) + s.last().ask_amount }
}

proof fn lemma_sum_ask_prefix(s: Seq<Order>, i: int)
    requires
        0 <= i <= s.len(),
    ensures
        0 <= sum_ask(s.subrange(0, i)) <= sum_ask(s),
    decreases s.len(),
{
    if s.len() == 0 {
        assert(s.subrange(0, i) =~= s);
    } else if i == s.len() {
        assert(s.subrange(0, i) =~= s);
        lemma_sum_ask_prefix(s.drop_last(), i - 1);
        assert(s.drop_last().subrange(0, i - 1) =~= s.drop_last());
    } else {
        lemma_sum_ask_prefix(s.drop_last(), i);
        assert(s.drop_last().subrange(0, i) =~= s.subrange(0, i));
    }
}

/// The amount the orders at one price ask in all.
pub fn find_match_amount_at_price(orders: &Vec<Order>) -> (r: u128)
    requires
        sum_ask(orders@) <= u128::MAX,
    ensures
        r == sum_ask(orders@),
{
    let mut total: u128 = 0;
    let mut i: usize = 0;
    while i < orders.len()
        invariant
            i <= orders@.len(),
            sum_ask(orders@) <= u128::MAX,
            total == sum_ask(orders@.subrange(0, i as int)),
        decreases orders@.len() - i,
    {
        proof {
            assert(orders@.subrange(0, i + 1).drop_last() =~= orders@.subrange(0, i as int));
            lemma_sum_ask_prefix(orders@, i + 1);
        }
        total = total + orders[i].ask_amount;
        i = i + 1;
    }
    proof {
        assert(orders@.subrange(0, orders@.len() as int) =~= orders@);
    }
    total
}

/// The market price and base amount a trade of `base_amount` would reach,
/// walking the prices of the other side best first with the base amount
/// available at each: it stops at the price where enough is available, and
/// caps the amount at what is available in all.
pub open spec fn spec_price_by_base_amount(levels: Seq<(u128, u128)>, i: int, total: u128, market: u128, base_amount: u128)
    -> Option<(u128, u128)>
    decreases levels.len() - i,
{
    if i < 0 || i >= levels.len() {
        Some((market, if total < base_amount { total } else { base_amount }))
    } else if total + levels[i].1 > u128::MAX {
        None
    } else {
        let t = (total + levels[i].1) as u128;
        if t >= base_amount {
            Some((levels[i].0, base_amount))
        } else {
            spec_price_by_base_amount(levels, i + 1, t, levels[i].0, base_amount)
        }
    }
}

/// `None` when the running total overflows.
pub fn query_price_by_base_amount(levels: &Vec<(u128, u128)>, base_amount: u128) -> (r: Option<(u128, u128)>)
    ensures
        r == spec_price_by_base_amount(levels@, 0, 0, 0, base_amount),
{
    let mut total: u128 = 0;
    let mut market_price: u128 = 0;
    let mut i: usize = 0;
    while i < levels.len()
        invariant
            i <= levels@.len(),
            spec_price_by_base_amount(levels@, 0, 0, 0, base_amount)
                == spec_price_by_base_amount(levels@, i as int, total, market_price, base_amount),
        decreases levels@.len() - i,
    {
        let (price, amount) = levels[i];
        total = match total.checked_add(amount) {
            Some(v) => v,
            None => { return None; },
        };
        market_price = price;
        if total >= base_amount {
            return Some((market_price, base_amount));
        }
        i = i + 1;
    }
    let expected = if total < base_amount { total } else { base_amount };
    Some((market_price, expected))
}

/// An order as queried: its assets named by the pair's base and quote.
pub struct OrderResponse {
    pub order_id: u64,
    pub status: OrderStatus,
    pub direction: OrderDirection,
    pub bidder_addr: String,
    pub offer_asset: Asset,
    pub ask_asset: Asset,
    pub filled_offer_amount: u128,
    pub filled_ask_amount: u128,
}

/// Describes an order: a buy offers the quote asset and asks for the base
/// asset, a sell the reverse.
pub fn order_to_response(order: &Order, base_info: &AssetInfo, quote_info: &AssetInfo) -> (r: OrderResponse)
    ensures
        r.order_id == order.order_id,
        r.status == order.status,
        r.direction == order.direction,
        r.bidder_addr == order.bidder_addr,
        r.offer_asset == (Asset { amount: order.offer_amount, info: match order.direction {
            OrderDirection::Buy => *quote_info, OrderDirection::Sell => *base_info } }),
        r.ask_asset == (Asset { amount: order.ask_amount, info: match order.direction {
            OrderDirection::Buy => *base_info, OrderDirection::Sell => *quote_info } }),
        r.filled_offer_amount == order.filled_offer_amount,
        r.filled_ask_amount == order.filled_ask_amount,
{
    let (offer_info, ask_info) = match order.direction {
        OrderDirection::Buy => (quote_info.duplicate(), base_info.duplicate()),
        OrderDirection::Sell => (base_info.duplicate(), quote_info.duplicate()),
    };
    OrderResponse {
        order_id: order.order_id,
        status: order.status,
        direction: order.direction,
        bidder_addr: order.bidder_addr.clone(),
        offer_asset: Asset { amount: order.offer_amount, info: offer_info },
        ask_asset: Asset { amount: order.ask_amount, info: ask_info },
        filled_offer_amount: order.filled_offer_amount,
        filled_ask_amount: order.filled_ask_amount,
    }
}

/// Whether a new pair may be created: only by the admin, and only once.
pub fn create_pair_check(admin: &String, sender: &String, exists: bool) -> (r: Result<(), ContractError>)
    ensures
        admin@ != sender@ ==> r == Err::<(), ContractError>(ContractError::Unauthorized),
        admin@ == sender@ && exists ==> r == Err::<(), ContractError>(ContractError::OrderBookAlreadyExists),
        admin@ == sender@ && !exists ==> r is Ok,
{
    if !admin.eq(sender) {
        return Err(ContractError::Unauthorized);
    }
    if exists {
        return Err(ContractError::OrderBookAlreadyExists);
    }
    Ok(())
}

/// A new pair's book with its spread and minimum quote amount.
pub fn new_order_book(base_coin_info: Vec<u8>, quote_coin_info: Vec<u8>, spread: Option<u128>, min_quote_coin_amount: u128)
    -> (r: OrderBook)
    ensures
        r == (OrderBook { base_coin_info, quote_coin_info, spread, min_quote_coin_amount }),
{
    OrderBook { base_coin_info, quote_coin_info, spread, min_quote_coin_amount }
}

} // verus!
