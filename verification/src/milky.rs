//! The taxed token: a cw20 token that keeps a share of what is sent to the
//! router, for the tax receiver.
use vstd::prelude::*;
use crate::math::{mul_ratio, multiply_ratio};

verus! {

/// The tax, in percent.
pub const TAX_RATE: u128 = 5u128;

/// The amount left after the tax: `amount - amount * 5 / 100`, rounded so
/// that the tax is rounded down; an amount whose tax would take everything
/// is left whole.
pub open spec fn spec_compute_tax(amount: u128) -> u128 {
    let left = amount - mul_ratio(amount as int, TAX_RATE as int, 100);
    if left == 0 {
        amount
    } else {
        left as u128
    }
}

/// `left - right`, `None` when it would go below zero.
pub fn checked_sub(left: u128, right: u128) -> (r: Option<u128>)
    ensures
        r is Some <==> right <= left,
        r matches Some(v) ==> v == left - right,
{
    left.checked_sub(right)
}

pub fn compute_tax(amount: u128) -> (r: u128)
    ensures
        r == spec_compute_tax(amount),
        r <= amount,
{
    assert(mul_ratio(amount as int, TAX_RATE as int, 100) <= amount) by (nonlinear_arith);
    let tax = multiply_ratio(amount, TAX_RATE, 100);
    match checked_sub(amount, tax) {
        Some(new_amount) => {
            if new_amount == 0 {
                amount
            } else {
                new_amount
            }
        },
        None => amount,
    }
}

/// The tax never takes the whole amount: what is left is positive whenever
/// something is sent, and the tax is at most five percent.
pub proof fn lemma_tax_bounds(amount: u128)
    ensures
        amount > 0 ==> spec_compute_tax(amount) > 0,
        (amount - spec_compute_tax(amount)) * 100 <= amount * TAX_RATE,
{
    let t = mul_ratio(amount as int, TAX_RATE as int, 100);
    assert(t * 100 <= amount * 5) by (nonlinear_arith)
        requires t == amount * 5 / 100, amount >= 0;
    assert(amount > 0 ==> t < amount) by (nonlinear_arith)
        requires t == amount * 5 / 100, amount >= 0;
}

/// Taxing `amount`: what goes on, and the tax receiver's new balance, which
/// grows by the difference.
pub fn handle_tax(receiver_balance: Option<u128>, amount: u128) -> (r: (u128, u128))
    requires
        (match receiver_balance {
            Some(b) => b,
            None => 0,
        }) + amount - spec_compute_tax(amount) <= u128::MAX,
    ensures
        r.0 == spec_compute_tax(amount),
        r.1 == (match receiver_balance {
            Some(b) => b,
            None => 0,
        }) + amount - spec_compute_tax(amount),
{
    let new_amount = compute_tax(amount);
    let balance = match receiver_balance {
        Some(b) => b,
        None => 0,
    };
    (new_amount, balance + (amount - new_amount))
}

/// A send to the router is taxed, any other send is not: the amount sent on
/// and, for a taxed send, the tax receiver's new balance.
pub fn send_after_tax(to_router: bool, receiver_balance: Option<u128>, amount: u128) -> (r: (u128, Option<u128>))
    requires
        to_router ==> (match receiver_balance {
            Some(b) => b,
            None => 0,
        }) + amount - spec_compute_tax(amount) <= u128::MAX,
    ensures
        !to_router ==> r == (amount, None::<u128>),
        to_router ==> r.0 == spec_compute_tax(amount) && r.1 == Some(
            ((match receiver_balance {
                Some(b) => b,
                None => 0,
            }) + amount - spec_compute_tax(amount)) as u128,
        ),
{
    if to_router {
        let (new_amount, balance) = handle_tax(receiver_balance, amount);
        (new_amount, Some(balance))
    } else {
        (amount, None)
    }
}

/// Only the minter changes the tax settings or the minter: a token without
/// a minter refuses everyone.
pub fn is_minter(minter: Option<&str>, sender: &str) -> (r: bool)
    ensures
        r == (minter is Some && minter->Some_0@ == sender@),
{
    match minter {
        Some(m) => crate::text::text_eq(m, sender),
        None => false,
    }
}

/// The minting rights after a change: the new minter and cap, for the
/// minter only.
pub fn change_minter(minter: Option<&str>, sender: &str, new_minter: String, cap: Option<u128>) -> (r: Option<(String, Option<u128>)>)
    ensures
        r is Some <==> (minter is Some && minter->Some_0@ == sender@),
        r matches Some((m, c)) ==> m == new_minter && c == cap,
{
    if is_minter(minter, sender) {
        Some((new_minter, cap))
    } else {
        None
    }
}

/// Where the tax goes and which contract's transfers are taxed.
#[derive(Clone, Debug, PartialEq, Eq)]
pub struct TaxInfo {
    pub tax_receiver: String,
    pub router_contract: String,
}

/// The tax settings after a change, for the minter only: each one given is
/// replaced, the others kept.
pub fn change_tax_info(
    minter: Option<&str>,
    sender: &str,
    current: TaxInfo,
    new_tax_receiver: Option<String>,
    new_router_contract: Option<String>,
) -> (r: Option<TaxInfo>)
    ensures
        r is Some <==> (minter is Some && minter->Some_0@ == sender@),
        r matches Some(t) ==> t == (TaxInfo {
            tax_receiver: match new_tax_receiver { Some(x) => x, None => current.tax_receiver },
            router_contract: match new_router_contract { Some(x) => x, None => current.router_contract },
        }),
{
    if !is_minter(minter, sender) {
        return None;
    }
    let tax_receiver = match new_tax_receiver {
        Some(x) => x,
        None => current.tax_receiver,
    };
    let router_contract = match new_router_contract {
        Some(x) => x,
        None => current.router_contract,
    };
    Some(TaxInfo { tax_receiver, router_contract })
}

/// The initial supply must not exceed the cap.
pub fn check_initial_supply(total_supply: u128, cap: Option<u128>) -> (r: bool)
    ensures
        r == (match cap {
            Some(c) => total_supply <= c,
            None => true,
        }),
{
    match cap {
        Some(c) => total_supply <= c,
        None => true,
    }
}

} // verus!
