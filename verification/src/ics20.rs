//! The cw20 ICS20 bridge: the balance it keeps per channel and denomination,
//! the mapping of remote denominations to cw20 tokens, and its errors.
use vstd::prelude::*;
use crate::text::{join_with, spec_join_path};

verus! {

#[derive(Clone, Debug, PartialEq, Eq)]
pub enum ContractError {
    NoSuchChannel { id: String },
    NoFunds,
    AmountOverflow,
    InvalidIbcVersion { version: String },
    OnlyOrderedChannel,
    InsufficientFunds,
    NoForeignTokens,
    FromOtherPort { port: String },
    FromOtherChannel { channel: String },
    CannotMigrate { previous_contract: String },
    CannotMigrateVersion { previous_version: String },
    UnknownReplyId { id: u64 },
    CannotLowerGas,
    Unauthorized,
    NotOnAllowList,
    NotOnMappingList,
    CustomContractRevoked,
    MappingPairNotFound,
}

/// The balance of a channel in one denomination; a channel with none kept
/// has zero of both.
#[derive(PartialEq, Eq, Structural, Clone, Copy, Debug)]
pub struct ChannelState {
    pub outstanding: u128,
    pub total_sent: u128,
}

#[derive(Clone, Debug, PartialEq, Eq)]
pub struct Config {
    pub default_timeout: u64,
    pub default_gas_limit: Option<u64>,
}

#[derive(PartialEq, Eq, Structural, Clone, Copy, Debug)]
pub struct AllowInfo {
    pub gas_limit: Option<u64>,
}

/// The cw20 token a remote denomination maps to, and the decimals on both
/// sides.
#[derive(Clone, Debug, PartialEq, Eq)]
pub struct Cw20MappingMetadata {
    /// `cw20:` and the token contract.
    pub cw20_denom: String,
    pub remote_decimals: u8,
    pub cw20_decimals: u8,
}

#[derive(Clone, Debug, PartialEq, Eq)]
pub struct ReplyArgs {
    pub channel: String,
    pub denom: String,
    pub amount: u128,
}

/// The kept balance, or zero of both.
pub open spec fn or_default(orig: Option<ChannelState>) -> ChannelState {
    match orig {
        Some(s) => s,
        None => ChannelState { outstanding: 0, total_sent: 0 },
    }
}

fn state_or_default(orig: Option<ChannelState>) -> (r: ChannelState)
    ensures
        r == or_default(orig),
{
    match orig {
        Some(s) => s,
        None => ChannelState { outstanding: 0, total_sent: 0 },
    }
}

/// Sending `amount` out: what is outstanding and what was ever sent grow by it.
pub fn increase_channel_balance(orig: Option<ChannelState>, amount: u128) -> (r: ChannelState)
    requires
        or_default(orig).outstanding + amount <= u128::MAX,
        or_default(orig).total_sent + amount <= u128::MAX,
    ensures
        r.outstanding == or_default(orig).outstanding + amount,
        r.total_sent == or_default(orig).total_sent + amount,
{
    let s = state_or_default(orig);
    ChannelState { outstanding: s.outstanding + amount, total_sent: s.total_sent + amount }
}

/// `amount` coming back: refused when no balance is kept or it holds less.
pub open spec fn spec_reduce(orig: Option<ChannelState>, amount: u128) -> Result<ChannelState, ContractError> {
    match orig {
        None => Err(ContractError::InsufficientFunds),
        Some(s) => if s.outstanding < amount {
            Err(ContractError::InsufficientFunds)
        } else {
            Ok(ChannelState { outstanding: (s.outstanding - amount) as u128, total_sent: s.total_sent })
        },
    }
}

pub fn reduce_channel_balance(orig: Option<ChannelState>, amount: u128) -> (r: Result<ChannelState, ContractError>)
    ensures
        r == spec_reduce(orig, amount),
{
    match orig {
        None => Err(ContractError::InsufficientFunds),
        Some(s) => {
            if s.outstanding < amount {
                Err(ContractError::InsufficientFunds)
            } else {
                Ok(ChannelState { outstanding: s.outstanding - amount, total_sent: s.total_sent })
            }
        },
    }
}

/// Taking a reduce back: what is outstanding grows, what was sent does not.
pub open spec fn spec_undo_reduce(orig: Option<ChannelState>, amount: u128) -> ChannelState {
    ChannelState {
        outstanding: (or_default(orig).outstanding + amount) as u128,
        total_sent: or_default(orig).total_sent,
    }
}

pub fn undo_reduce_channel_balance(orig: Option<ChannelState>, amount: u128) -> (r: ChannelState)
    requires
        or_default(orig).outstanding + amount <= u128::MAX,
    ensures
        r == spec_undo_reduce(orig, amount),
{
    let s = state_or_default(orig);
    ChannelState { outstanding: s.outstanding + amount, total_sent: s.total_sent }
}

/// Taking an increase back: what is outstanding shrinks, what was sent does
/// not.
pub open spec fn spec_undo_increase(orig: Option<ChannelState>, amount: u128) -> ChannelState {
    ChannelState {
        outstanding: (or_default(orig).outstanding - amount) as u128,
        total_sent: or_default(orig).total_sent,
    }
}

pub fn undo_increase_channel_balance(orig: Option<ChannelState>, amount: u128) -> (r: ChannelState)
    requires
        amount <= or_default(orig).outstanding,
    ensures
        r == spec_undo_increase(orig, amount),
{
    let s = state_or_default(orig);
    ChannelState { outstanding: s.outstanding - amount, total_sent: s.total_sent }
}

/// A reduce followed by its undo leaves the balance as it was.
pub proof fn lemma_reduce_then_undo(s: ChannelState, amount: u128)
    requires
        amount <= s.outstanding,
    ensures
        spec_reduce(Some(s), amount) is Ok,
        spec_undo_reduce(Some(spec_reduce(Some(s), amount)->Ok_0), amount) == s,
{
}

/// An increase followed by its undo gives back what is outstanding; what
/// was ever sent keeps the increase.
pub proof fn lemma_increase_then_undo(orig: Option<ChannelState>, amount: u128)
    requires
        or_default(orig).outstanding + amount <= u128::MAX,
        or_default(orig).total_sent + amount <= u128::MAX,
    ensures
        ({
            let up = ChannelState {
                outstanding: (or_default(orig).outstanding + amount) as u128,
                total_sent: (or_default(orig).total_sent + amount) as u128,
            };
            &&& spec_undo_increase(Some(up), amount).outstanding == or_default(orig).outstanding
            &&& spec_undo_increase(Some(up), amount).total_sent == or_default(orig).total_sent + amount
        }),
{
}

/// `port/channel/denom`, the key of a remote denomination in the mapping.
pub fn get_key_ics20_ibc_denom(port_id: &str, channel_id: &str, denom: &str) -> (r: String)
    ensures
        r@ == spec_join_path(spec_join_path(port_id@, channel_id@), denom@),
{
    proof {
        reveal_strlit("/");
    }
    let prefix = join_with(port_id, "/", channel_id);
    join_with(prefix.as_str(), "/", denom)
}

} // verus!
