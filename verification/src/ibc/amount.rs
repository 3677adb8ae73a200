//! An amount sent over a channel: native coins, or cw20 tokens named by
//! `cw20:` and the token contract.
use vstd::prelude::*;
use crate::asset::Coin;
use crate::text::{join_with, starts_with};

verus! {

/// `cw20:`, the prefix of the denomination of a cw20 token.
pub open spec fn cw20_prefix() -> Seq<char> {
    seq!['c', 'w', '2', '0', ':']
}

/// The denomination that names the cw20 token at `address`.
pub open spec fn spec_cw20_denom(address: Seq<char>) -> Seq<char> {
    cw20_prefix() + address
}

/// Whether a denomination names a cw20 token.
pub open spec fn is_cw20_denom(denom: Seq<char>) -> bool {
    cw20_prefix().len() <= denom.len() && denom.subrange(0, cw20_prefix().len() as int) == cw20_prefix()
}

/// `cw20:` followed by the token contract address.
pub fn get_cw20_denom(address: &str) -> (r: String)
    ensures
        r@ == spec_cw20_denom(address@),
{
    proof {
        reveal_strlit("cw20");
        reveal_strlit(":");
    }
    let r = join_with("cw20", ":", address);
    proof {
        assert(r@ =~= spec_cw20_denom(address@));
    }
    r
}

/// cw20 tokens of a contract.
#[derive(Clone, Debug, PartialEq, Eq)]
pub struct Cw20Coin {
    pub address: String,
    pub amount: u128,
}

#[derive(Clone, Debug, PartialEq, Eq)]
pub enum Amount {
    Native(Coin),
    Cw20(Cw20Coin),
}

/// The mathematical form of an `Amount`.
pub enum AmountView {
    Native { denom: Seq<char>, amount: u128 },
    Cw20 { address: Seq<char>, amount: u128 },
}

impl View for Amount {
    type V = AmountView;

    open spec fn view(&self) -> AmountView {
        match self {
            Amount::Native(c) => AmountView::Native { denom: c.denom@, amount: c.amount },
            Amount::Cw20(c) => AmountView::Cw20 { address: c.address@, amount: c.amount },
        }
    }
}

impl AmountView {
    /// The denomination: the coin's, or `cw20:` and the contract.
    pub open spec fn denom(self) -> Seq<char> {
        match self {
            AmountView::Native { denom, .. } => denom,
            AmountView::Cw20 { address, .. } => spec_cw20_denom(address),
        }
    }

    pub open spec fn amount(self) -> u128 {
        match self {
            AmountView::Native { amount, .. } => amount,
            AmountView::Cw20 { amount, .. } => amount,
        }
    }
}

/// The amount that a denomination and a quantity stand for: cw20 tokens
/// where the denomination begins with `cw20:`, native coins otherwise.
pub open spec fn spec_from_parts(denom: Seq<char>, amount: u128) -> AmountView {
    if is_cw20_denom(denom) {
        AmountView::Cw20 { address: denom.subrange(cw20_prefix().len() as int, denom.len() as int), amount }
    } else {
        AmountView::Native { denom, amount }
    }
}

impl Amount {
    pub fn from_parts(denom: String, amount: u128) -> (r: Amount)
        ensures
            r@ == spec_from_parts(denom@, amount),
            r@.denom() == denom@,
            r@.amount() == amount,
    {
        proof {
            reveal_strlit("cw20:");
            assert("cw20:"@ =~= cw20_prefix());
        }
        if starts_with(denom.as_str(), "cw20:") {
            let n = denom.unicode_len();
            let address = String::from_str(denom.as_str().substring_char(5, n));
            proof {
                assert(spec_cw20_denom(address@) =~= denom@);
            }
            Amount::Cw20(Cw20Coin { address, amount })
        } else {
            Amount::Native(Coin { denom, amount })
        }
    }

    /// `amount` tokens of the cw20 contract at `address`.
    pub fn cw20(amount: u128, address: &str) -> (r: Amount)
        ensures
            r@ == (AmountView::Cw20 { address: address@, amount }),
    {
        Amount::Cw20(Cw20Coin { address: String::from_str(address), amount })
    }

    /// `amount` native coins of `denom`.
    pub fn native(amount: u128, denom: &str) -> (r: Amount)
        ensures
            r@ == (AmountView::Native { denom: denom@, amount }),
    {
        Amount::Native(Coin { denom: String::from_str(denom), amount })
    }

    pub fn denom(&self) -> (r: String)
        ensures
            r@ == self@.denom(),
    {
        match self {
            Amount::Native(c) => c.denom.clone(),
            Amount::Cw20(c) => get_cw20_denom(c.address.as_str()),
        }
    }

    pub fn amount(&self) -> (r: u128)
        ensures
            r == self@.amount(),
    {
        match self {
            Amount::Native(c) => c.amount,
            Amount::Cw20(c) => c.amount,
        }
    }

    /// Whether nothing is sent.
    pub fn is_empty(&self) -> (r: bool)
        ensures
            r == (self@.amount() == 0),
    {
        self.amount() == 0
    }

    /// A copy of this amount.
    pub fn duplicate(&self) -> (r: Amount)
        ensures
            r@ == self@,
    {
        match self {
            Amount::Native(c) => Amount::Native(Coin { denom: c.denom.clone(), amount: c.amount }),
            Amount::Cw20(c) => Amount::Cw20(Cw20Coin { address: c.address.clone(), amount: c.amount }),
        }
    }
}

/// Reading back the denomination of a cw20 token gives the token again.
pub proof fn lemma_cw20_denom_round_trip(address: Seq<char>, amount: u128)
    ensures
        spec_from_parts(spec_cw20_denom(address), amount) == (AmountView::Cw20 { address, amount }),
{
    let d = spec_cw20_denom(address);
    assert(d.subrange(0, 5) =~= cw20_prefix());
    assert(d.subrange(5, d.len() as int) =~= address);
}

} // verus!
