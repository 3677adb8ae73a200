//! Orders and their fills.
use vstd::prelude::*;
use crate::math::{DECIMAL_FRACTIONAL, spec_mul_dec, spec_from_ratio, mul_dec, dec_from_ratio};
use super::types::{OrderDirection, OrderStatus, ContractError};

verus! {

/// An order resting in the book: it offers `offer_amount` and asks for
/// `ask_amount`; the filled amounts say how much of each has been traded.
#[derive(Debug)]
pub struct Order {
    pub order_id: u64,
    pub status: OrderStatus,
    pub direction: OrderDirection,
    pub bidder_addr: String,
    pub offer_amount: u128,
    pub ask_amount: u128,
    pub filled_offer_amount: u128,
    pub filled_ask_amount: u128,
}

/// The amount offered by a new order for `ask_amount` at `price`: the quote
/// amount `ask * price` for a buy, and for a sell the base amount
/// `ask * 10^6 / (price * 10^6)` with the price truncated to six places.
pub open spec fn spec_new_offer_amount(direction: OrderDirection, price: u128, ask_amount: u128) -> int {
    match direction {
        OrderDirection::Buy => spec_mul_dec(ask_amount as int, price as int),
        OrderDirection::Sell => (ask_amount * 1_000_000) / spec_mul_dec(1_000_000, price as int),
    }
}

/// Whether `Order::new` panics on these inputs.
pub open spec fn spec_new_order_panics(direction: OrderDirection, price: u128, ask_amount: u128) -> bool {
    match direction {
        OrderDirection::Buy => spec_mul_dec(ask_amount as int, price as int) > u128::MAX,
        OrderDirection::Sell => ask_amount * 1_000_000 > u128::MAX || spec_mul_dec(1_000_000, price as int) == 0,
    }
}

/// The price of an order in quote per base: offer over ask for a buy, ask
/// over offer for a sell.
pub open spec fn spec_order_price(direction: OrderDirection, offer_amount: u128, ask_amount: u128) -> int {
    match direction {
        OrderDirection::Buy => spec_from_ratio(offer_amount as int, ask_amount as int),
        OrderDirection::Sell => spec_from_ratio(ask_amount as int, offer_amount as int),
    }
}

/// Whether the price of an order can be computed without a panic.
pub open spec fn spec_price_defined(direction: OrderDirection, offer_amount: u128, ask_amount: u128) -> bool {
    match direction {
        OrderDirection::Buy => ask_amount != 0 && spec_from_ratio(offer_amount as int, ask_amount as int) <= u128::MAX,
        OrderDirection::Sell => offer_amount != 0 && spec_from_ratio(ask_amount as int, offer_amount as int) <= u128::MAX,
    }
}

/// The status after a fill: fulfilled once either side is complete.
pub open spec fn spec_fill_status(offer_amount: u128, ask_amount: u128, filled_offer: int, filled_ask: int) -> OrderStatus {
    if filled_offer == offer_amount || filled_ask == ask_amount {
        OrderStatus::Fulfilled
    } else {
        OrderStatus::PartialFilled
    }
}

pub proof fn lemma_small_scale(a: int, p: int)
    requires
        0 <= a <= DECIMAL_FRACTIONAL,
        0 <= p,
    ensures
        spec_mul_dec(a, p) <= p,
{
    assert(a * p <= DECIMAL_FRACTIONAL * p) by (nonlinear_arith)
        requires 0 <= a <= DECIMAL_FRACTIONAL, 0 <= p;
    assert((a * p) / (DECIMAL_FRACTIONAL as int) <= p) by (nonlinear_arith)
        requires 0 <= a * p <= DECIMAL_FRACTIONAL * p, DECIMAL_FRACTIONAL > 0;
}

impl Order {
    /// A new open order asking `ask_amount` at `price` (decimal atomics).
    pub fn new(order_id: u64, bidder_addr: String, direction: OrderDirection, price: u128, ask_amount: u128) -> (r: Order)
        requires
            !spec_new_order_panics(direction, price, ask_amount),
        ensures
            r.order_id == order_id,
            r.bidder_addr == bidder_addr,
            r.direction == direction,
            r.ask_amount == ask_amount,
            r.offer_amount == spec_new_offer_amount(direction, price, ask_amount),
            r.filled_offer_amount == 0,
            r.filled_ask_amount == 0,
            r.status == OrderStatus::Open,
    {
        let offer_amount = match direction {
            OrderDirection::Buy => mul_dec(ask_amount, price),
            OrderDirection::Sell => {
                proof { lemma_small_scale(1_000_000, price as int); }
                let scaled_price = mul_dec(1_000_000, price);
                (ask_amount * 1_000_000) / scaled_price
            },
        };
        Order {
            direction,
            order_id,
            bidder_addr,
            offer_amount,
            ask_amount,
            filled_offer_amount: 0,
            filled_ask_amount: 0,
            status: OrderStatus::Open,
        }
    }

    /// Adds a fill and updates the status.
    pub fn fill_order(&mut self, ask_amount: u128, offer_amount: u128)
        requires
            old(self).filled_ask_amount + ask_amount <= u128::MAX,
            old(self).filled_offer_amount + offer_amount <= u128::MAX,
        ensures
            final(self).filled_ask_amount == old(self).filled_ask_amount + ask_amount,
            final(self).filled_offer_amount == old(self).filled_offer_amount + offer_amount,
            final(self).status == spec_fill_status(old(self).offer_amount, old(self).ask_amount,
                final(self).filled_offer_amount as int, final(self).filled_ask_amount as int),
            final(self).order_id == old(self).order_id,
            final(self).direction == old(self).direction,
            final(self).bidder_addr == old(self).bidder_addr,
            final(self).offer_amount == old(self).offer_amount,
            final(self).ask_amount == old(self).ask_amount,
    {
        self.filled_ask_amount = self.filled_ask_amount + ask_amount;
        self.filled_offer_amount = self.filled_offer_amount + offer_amount;
        if self.filled_offer_amount == self.offer_amount || self.filled_ask_amount == self.ask_amount {
            self.status = OrderStatus::Fulfilled;
        } else {
            self.status = OrderStatus::PartialFilled;
        }
    }

    /// The price of the order in decimal atomics.
    pub fn get_price(&self) -> (r: u128)
        requires
            spec_price_defined(self.direction, self.offer_amount, self.ask_amount),
        ensures
            r == spec_order_price(self.direction, self.offer_amount, self.ask_amount),
    {
        match self.direction {
            OrderDirection::Buy => dec_from_ratio(self.offer_amount, self.ask_amount),
            OrderDirection::Sell => dec_from_ratio(self.ask_amount, self.offer_amount),
        }
    }

    /// A copy of the order.
    pub fn duplicate(&self) -> (r: Order)
        ensures
            r == *self,
    {
        Order {
            order_id: self.order_id,
            status: self.status,
            direction: self.direction,
            bidder_addr: self.bidder_addr.clone(),
            offer_amount: self.offer_amount,
            ask_amount: self.ask_amount,
            filled_offer_amount: self.filled_offer_amount,
            filled_ask_amount: self.filled_ask_amount,
        }
    }
}

/// An order as it goes through a matching round, with what it traded in this
/// round and the fees charged on it.
#[derive(Debug)]
pub struct OrderWithFee {
    pub order_id: u64,
    pub status: OrderStatus,
    pub direction: OrderDirection,
    pub bidder_addr: String,
    pub offer_amount: u128,
    pub ask_amount: u128,
    pub filled_offer_amount: u128,
    pub filled_ask_amount: u128,
    pub reward_fee: u128,
    pub relayer_fee: u128,
    pub filled_offer_this_round: u128,
    pub filled_ask_this_round: u128,
}

pub open spec fn spec_from_order(o: Order) -> OrderWithFee {
    OrderWithFee {
        order_id: o.order_id,
        status: o.status,
        direction: o.direction,
        bidder_addr: o.bidder_addr,
        offer_amount: o.offer_amount,
        ask_amount: o.ask_amount,
        filled_offer_amount: o.filled_offer_amount,
        filled_ask_amount: o.filled_ask_amount,
        reward_fee: 0,
        relayer_fee: 0,
        filled_offer_this_round: 0,
        filled_ask_this_round: 0,
    }
}

/// The order after trading `ask` and `offer` in this round; `None` when a
/// filled amount would overflow.
pub open spec fn spec_fill_with_fee(o: OrderWithFee, ask: u128, offer: u128) -> Option<OrderWithFee> {
    if o.filled_ask_amount + ask > u128::MAX || o.filled_offer_amount + offer > u128::MAX {
        None
    } else {
        let fa = (o.filled_ask_amount + ask) as u128;
        let fo = (o.filled_offer_amount + offer) as u128;
        Some(OrderWithFee {
            filled_ask_amount: fa,
            filled_offer_amount: fo,
            filled_ask_this_round: ask,
            filled_offer_this_round: offer,
            status: spec_fill_status(o.offer_amount, o.ask_amount, fo as int, fa as int),
            ..o
        })
    }
}

/// Whether adding these totals fills one side of the order.
pub open spec fn spec_will_fulfilled(o: OrderWithFee, total_ask: u128, total_offer: u128) -> bool {
    o.filled_ask_amount + total_ask >= o.ask_amount || o.filled_offer_amount + total_offer >= o.offer_amount
}

impl OrderWithFee {
    pub fn from_order(o: &Order) -> (r: OrderWithFee)
        ensures
            r == spec_from_order(*o),
    {
        OrderWithFee {
            order_id: o.order_id,
            status: o.status,
            direction: o.direction,
            bidder_addr: o.bidder_addr.clone(),
            offer_amount: o.offer_amount,
            ask_amount: o.ask_amount,
            filled_offer_amount: o.filled_offer_amount,
            filled_ask_amount: o.filled_ask_amount,
            reward_fee: 0,
            relayer_fee: 0,
            filled_offer_this_round: 0,
            filled_ask_this_round: 0,
        }
    }

    /// Records the fill of this round: `Err` when a filled amount would
    /// overflow, and then the order is unchanged.
    pub fn fill_order(&mut self, ask_amount: u128, offer_amount: u128) -> (res: Result<(), ContractError>)
        ensures
            res is Ok <==> spec_fill_with_fee(*old(self), ask_amount, offer_amount) is Some,
            res is Ok ==> spec_fill_with_fee(*old(self), ask_amount, offer_amount) == Some(*final(self)),
            res is Err ==> *final(self) == *old(self),
            res is Err ==> res == Err::<(), ContractError>(ContractError::Arithmetic),
    {
        let fa = match self.filled_ask_amount.checked_add(ask_amount) {
            Some(v) => v,
            None => return Err(ContractError::Arithmetic),
        };
        let fo = match self.filled_offer_amount.checked_add(offer_amount) {
            Some(v) => v,
            None => return Err(ContractError::Arithmetic),
        };
        self.filled_ask_amount = fa;
        self.filled_offer_amount = fo;
        self.filled_ask_this_round = ask_amount;
        self.filled_offer_this_round = offer_amount;
        if fo == self.offer_amount || fa == self.ask_amount {
            self.status = OrderStatus::Fulfilled;
        } else {
            self.status = OrderStatus::PartialFilled;
        }
        Ok(())
    }

    /// Whether the order would be complete on one side after these totals.
    pub fn will_fulfilled(&self, total_ask: u128, total_offer: u128) -> (r: bool)
        ensures
            r == spec_will_fulfilled(*self, total_ask, total_offer),
    {
        let ask_done = if self.filled_ask_amount >= self.ask_amount {
            true
        } else {
            total_ask >= self.ask_amount - self.filled_ask_amount
        };
        let offer_done = if self.filled_offer_amount >= self.offer_amount {
            true
        } else {
            total_offer >= self.offer_amount - self.filled_offer_amount
        };
        ask_done || offer_done
    }

    /// The price of the order in decimal atomics.
    pub fn get_price(&self) -> (r: u128)
        requires
            spec_price_defined(self.direction, self.offer_amount, self.ask_amount),
        ensures
            r == spec_order_price(self.direction, self.offer_amount, self.ask_amount),
    {
        match self.direction {
            OrderDirection::Buy => dec_from_ratio(self.offer_amount, self.ask_amount),
            OrderDirection::Sell => dec_from_ratio(self.ask_amount, self.offer_amount),
        }
    }

    /// A copy of the order.
    pub fn duplicate(&self) -> (r: OrderWithFee)
        ensures
            r == *self,
    {
        OrderWithFee {
            order_id: self.order_id,
            status: self.status,
            direction: self.direction,
            bidder_addr: self.bidder_addr.clone(),
            offer_amount: self.offer_amount,
            ask_amount: self.ask_amount,
            filled_offer_amount: self.filled_offer_amount,
            filled_ask_amount: self.filled_ask_amount,
            reward_fee: self.reward_fee,
            relayer_fee: self.relayer_fee,
            filled_offer_this_round: self.filled_offer_this_round,
            filled_ask_this_round: self.filled_ask_this_round,
        }
    }
}

} // verus!
