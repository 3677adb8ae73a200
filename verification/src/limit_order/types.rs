//! Directions, statuses and errors of the order book.
use vstd::prelude::*;

verus! {

/// Buy offers the quote asset for the base asset; sell offers the base asset
/// for the quote asset.
#[derive(PartialEq, Eq, Structural, Clone, Copy, Debug)]
pub enum OrderDirection {
    Buy,
    Sell,
}

#[derive(PartialEq, Eq, Structural, Clone, Copy, Debug)]
pub enum OrderStatus {
    Open,
    PartialFilled,
    Fulfilled,
    Cancel,
}

impl OrderDirection {
    /// The direction of the orders that can match this one.
    pub open spec fn spec_opposite(self) -> OrderDirection {
        match self {
            OrderDirection::Buy => OrderDirection::Sell,
            OrderDirection::Sell => OrderDirection::Buy,
        }
    }

    pub fn opposite(&self) -> (r: OrderDirection)
        ensures
            r == self.spec_opposite(),
    {
        match self {
            OrderDirection::Buy => OrderDirection::Sell,
            OrderDirection::Sell => OrderDirection::Buy,
        }
    }
}

/// The errors of the order book contract.
#[derive(PartialEq, Eq, Structural, Clone, Copy, Debug)]
pub enum ContractError {
    /// An amount went out of range: an overflow, an underflow or a division by zero.
    Arithmetic,
    AssetMustNotBeZero,
    /// The slippage, in decimal atomics, is one or more.
    SlippageMustLessThanOne { slippage: u128 },
    CannotCreateMarketOrder,
    Unauthorized,
    /// The quote asset is below the book's minimum.
    TooSmallQuoteAsset { min_quote_amount: u128 },
    AssetMismatch,
    InvalidCw20HookMessage,
    OrderBookAlreadyExists,
    /// A native asset was expected.
    MustBeNativeToken,
    /// The native funds sent differ from the asset amount.
    NativeTokenMismatch,
}

/// What a computation that can fail or panic comes to: a value, an error
/// returned to the caller, or an abort.
pub enum Outcome<T> {
    Done(T),
    Failed,
    Aborted,
}

} // verus!
