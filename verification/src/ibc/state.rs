//! What the IBC swap client keeps: its configuration, the channels, the
//! balance of each channel in each denomination, and the allowed tokens.
use vstd::prelude::*;
use crate::ibc::msg::{AllowedInfo, AllowedTokenInfo};
use crate::asset::PaymentError;
use crate::text::{join_with, spec_join_path, text_eq};

verus! {

#[derive(Clone, Debug, PartialEq, Eq)]
pub enum ContractError {
    NoSuchChannel { id: String },
    NoFunds,
    InvalidIbcVersion { version: String },
    OnlyOrderedChannel,
    InsufficientFunds,
    NoForeignTokens,
    FromOtherPort { port: String },
    FromOtherChannel { channel: String },
    UnknownReplyId { id: u64 },
    CannotLowerGas,
    Unauthorized,
    NotOnAllowList,
    NoAllowedToken,
    ExternalTokenExists,
    LockupAccountFound,
    NoLockupAccount,
    OnlyOneChannel,
    CannotClose,
    UnknownRequest,
    /// No balance is kept for the channel in the denomination.
    ChannelIsEmpty,
    /// A reply came with nothing left for it.
    ReplyArgsMissing,
    /// The funds sent are refused.
    Payment(PaymentError),
    /// Only the admin may do this.
    Admin(AdminError),
}

/// Why the admin check refuses a sender.
#[derive(PartialEq, Eq, Structural, Clone, Copy, Debug)]
pub enum AdminError {
    /// The sender is not the admin.
    NotAdmin,
}

/// The mathematical form of a `ContractError`: texts as sequences.
pub enum ErrorView {
    NoSuchChannel { id: Seq<char> },
    NoFunds,
    InvalidIbcVersion { version: Seq<char> },
    OnlyOrderedChannel,
    InsufficientFunds,
    NoForeignTokens,
    FromOtherPort { port: Seq<char> },
    FromOtherChannel { channel: Seq<char> },
    UnknownReplyId { id: u64 },
    CannotLowerGas,
    Unauthorized,
    NotOnAllowList,
    NoAllowedToken,
    ExternalTokenExists,
    LockupAccountFound,
    NoLockupAccount,
    OnlyOneChannel,
    CannotClose,
    UnknownRequest,
    ChannelIsEmpty,
    ReplyArgsMissing,
    Payment(PaymentError),
    Admin(AdminError),
}

impl View for ContractError {
    type V = ErrorView;

    open spec fn view(&self) -> ErrorView {
        match self {
            ContractError::NoSuchChannel { id } => ErrorView::NoSuchChannel { id: id@ },
            ContractError::NoFunds => ErrorView::NoFunds,
            ContractError::InvalidIbcVersion { version } => ErrorView::InvalidIbcVersion { version: version@ },
            ContractError::OnlyOrderedChannel => ErrorView::OnlyOrderedChannel,
            ContractError::InsufficientFunds => ErrorView::InsufficientFunds,
            ContractError::NoForeignTokens => ErrorView::NoForeignTokens,
            ContractError::FromOtherPort { port } => ErrorView::FromOtherPort { port: port@ },
            ContractError::FromOtherChannel { channel } => ErrorView::FromOtherChannel { channel: channel@ },
            ContractError::UnknownReplyId { id } => ErrorView::UnknownReplyId { id: *id },
            ContractError::CannotLowerGas => ErrorView::CannotLowerGas,
            ContractError::Unauthorized => ErrorView::Unauthorized,
            ContractError::NotOnAllowList => ErrorView::NotOnAllowList,
            ContractError::NoAllowedToken => ErrorView::NoAllowedToken,
            ContractError::ExternalTokenExists => ErrorView::ExternalTokenExists,
            ContractError::LockupAccountFound => ErrorView::LockupAccountFound,
            ContractError::NoLockupAccount => ErrorView::NoLockupAccount,
            ContractError::OnlyOneChannel => ErrorView::OnlyOneChannel,
            ContractError::CannotClose => ErrorView::CannotClose,
            ContractError::UnknownRequest => ErrorView::UnknownRequest,
            ContractError::ChannelIsEmpty => ErrorView::ChannelIsEmpty,
            ContractError::ReplyArgsMissing => ErrorView::ReplyArgsMissing,
            ContractError::Payment(e) => ErrorView::Payment(*e),
            ContractError::Admin(e) => ErrorView::Admin(*e),
        }
    }
}

/// A result taken by its views.
pub open spec fn view_result<T: View>(r: Result<T, ContractError>) -> Result<T::V, ErrorView> {
    match r {
        Ok(v) => Ok(v@),
        Err(e) => Err(e@),
    }
}

/// The balance of a channel in one denomination.
#[derive(PartialEq, Eq, Structural, Clone, Copy, Debug)]
pub struct ChannelState {
    /// What was sent and has not come back.
    pub outstanding: u128,
    /// What was ever sent.
    pub total_sent: u128,
}

#[derive(Clone, Debug, PartialEq, Eq)]
pub struct Config {
    pub default_timeout: u64,
    /// Whether a channel was opened; only one is.
    pub init_channel: bool,
    /// The remote denomination of packets that carry only an action.
    pub default_remote_denom: Option<String>,
}

/// A port and channel of a chain.
#[derive(Clone, Debug, PartialEq, Eq)]
pub struct Endpoint {
    pub port_id: String,
    pub channel_id: String,
}

#[derive(Clone, Debug, PartialEq, Eq)]
pub struct ChannelInfo {
    pub id: String,
    pub counterparty_endpoint: Endpoint,
    pub connection_id: String,
}

#[derive(PartialEq, Eq, Structural, Clone, Copy, Debug)]
pub struct AllowInfo {
    pub gas_limit: Option<u64>,
}

#[derive(Clone, Debug, PartialEq, Eq)]
pub struct ExternalTokenInfo {
    pub contract: String,
}

/// What a receive leaves for its reply.
#[derive(Clone, Debug, PartialEq, Eq)]
pub struct ReplyArgs {
    pub channel: String,
    pub denom: String,
    pub amount: u128,
    pub our_chain: bool,
}

/// The balance of a channel in one denomination, as kept.
#[derive(Clone, Debug, PartialEq, Eq)]
pub struct DenomBalance {
    pub denom: String,
    pub state: ChannelState,
}

/// `a/b`.
pub fn join_ibc_paths(path_a: &str, path_b: &str) -> (r: String)
    ensures
        r@ == spec_join_path(path_a@, path_b@),
{
    proof {
        reveal_strlit("/");
    }
    join_with(path_a, "/", path_b)
}

/// The kept state, or nothing sent yet.
pub open spec fn state_or_zero(orig: Option<ChannelState>) -> ChannelState {
    match orig {
        Some(s) => s,
        None => ChannelState { outstanding: 0, total_sent: 0 },
    }
}

pub open spec fn increase_fits(orig: Option<ChannelState>, amount: u128) -> bool {
    state_or_zero(orig).outstanding + amount <= u128::MAX && state_or_zero(orig).total_sent + amount
        <= u128::MAX
}

/// The balance after sending `amount` out: both what is outstanding and what
/// was ever sent grow by it.
pub open spec fn spec_increase(orig: Option<ChannelState>, amount: u128) -> ChannelState {
    ChannelState {
        outstanding: (state_or_zero(orig).outstanding + amount) as u128,
        total_sent: (state_or_zero(orig).total_sent + amount) as u128,
    }
}

/// The balance after `amount` comes back: refused when the channel holds
/// less.
pub open spec fn spec_reduce(orig: Option<ChannelState>, amount: u128) -> Result<ChannelState, ContractError> {
    match orig {
        None => Err(ContractError::InsufficientFunds),
        Some(s) => if s.outstanding < amount {
            Err(ContractError::InsufficientFunds)
        } else {
            Ok(ChannelState { outstanding: (s.outstanding - amount) as u128, total_sent: s.total_sent })
        },
    }
}

/// The balance after a reduce is taken back.
pub open spec fn spec_undo_reduce(orig: Option<ChannelState>, amount: u128) -> Result<ChannelState, ContractError> {
    match orig {
        None => Err(ContractError::ChannelIsEmpty),
        Some(s) => Ok(ChannelState { outstanding: (s.outstanding + amount) as u128, total_sent: s.total_sent }),
    }
}

pub fn increase_channel_balance(orig: Option<ChannelState>, amount: u128) -> (r: ChannelState)
    requires
        increase_fits(orig, amount),
    ensures
        r == spec_increase(orig, amount),
{
    let s = match orig {
        Some(s) => s,
        None => ChannelState { outstanding: 0, total_sent: 0 },
    };
    ChannelState { outstanding: s.outstanding + amount, total_sent: s.total_sent + amount }
}

pub fn reduce_channel_balance(orig: Option<ChannelState>, amount: u128) -> (r: Result<ChannelState, ContractError>)
    ensures
        r == spec_reduce(orig, amount),
{
    match orig {
        None => Err(ContractError::InsufficientFunds),
        Some(s) => {
            if s.outstanding < amount {
                Err(ContractError::InsufficientFunds)
            } else {
                Ok(ChannelState { outstanding: s.outstanding - amount, total_sent: s.total_sent })
            }
        },
    }
}

/// Like an increase, but only what is outstanding grows, not what was sent.
pub fn undo_reduce_channel_balance(orig: Option<ChannelState>, amount: u128) -> (r: Result<ChannelState, ContractError>)
    requires
        orig matches Some(s) ==> s.outstanding + amount <= u128::MAX,
    ensures
        r == spec_undo_reduce(orig, amount),
{
    match orig {
        None => Err(ContractError::ChannelIsEmpty),
        Some(s) => Ok(ChannelState { outstanding: s.outstanding + amount, total_sent: s.total_sent }),
    }
}

/// A reduce followed by its undo leaves the balance as it was.
pub proof fn lemma_reduce_then_undo(s: ChannelState, amount: u128)
    requires
        amount <= s.outstanding,
    ensures
        spec_reduce(Some(s), amount) is Ok,
        spec_undo_reduce(Some(spec_reduce(Some(s), amount)->Ok_0), amount) == Ok::<ChannelState, ContractError>(s),
{
}

/// What was sent out can come back: after sending `amount`, receiving the
/// same amount succeeds and leaves what is outstanding as it was, while what
/// was ever sent keeps the increase.
pub proof fn lemma_increase_then_reduce(orig: Option<ChannelState>, amount: u128)
    requires
        increase_fits(orig, amount),
    ensures
        spec_reduce(Some(spec_increase(orig, amount)), amount) == Ok::<ChannelState, ContractError>(
            ChannelState {
                outstanding: state_or_zero(orig).outstanding,
                total_sent: (state_or_zero(orig).total_sent + amount) as u128,
            },
        ),
{
}

/// A receive never takes out more than is outstanding.
pub proof fn lemma_reduce_bounded(orig: Option<ChannelState>, amount: u128)
    ensures
        spec_reduce(orig, amount) is Ok ==> orig is Some && amount <= orig->Some_0.outstanding,
        spec_reduce(orig, amount) matches Ok(t) ==> t.total_sent == orig->Some_0.total_sent,
{
}

/// The first entry of the allow list for `contract`, from index `k` on.
pub open spec fn find_allowed(s: Seq<AllowedInfo>, contract: Seq<char>, k: int) -> Option<int>
    decreases s.len() - k,
{
    if k < 0 || k >= s.len() {
        None
    } else if s[k].contract@ == contract {
        Some(k)
    } else {
        find_allowed(s, contract, k + 1)
    }
}

/// What the allow list holds for `contract`.
pub open spec fn spec_allow_info(s: Seq<AllowedInfo>, contract: Seq<char>) -> Option<AllowInfo> {
    match find_allowed(s, contract, 0) {
        Some(k) => Some(AllowInfo { gas_limit: s[k].gas_limit }),
        None => None,
    }
}

pub fn allow_info_of(list: &Vec<AllowedInfo>, contract: &str) -> (r: Option<AllowInfo>)
    ensures
        r == spec_allow_info(list@, contract@),
{
    let mut k: usize = 0;
    while k < list.len()
        invariant
            k <= list@.len(),
            find_allowed(list@, contract@, 0) == find_allowed(list@, contract@, k as int),
        decreases list@.len() - k,
    {
        if text_eq(list[k].contract.as_str(), contract) {
            return Some(AllowInfo { gas_limit: list[k].gas_limit });
        }
        k = k + 1;
    }
    None
}

/// The first external token registered for `denom`, from index `k` on.
pub open spec fn find_external_denom(s: Seq<AllowedTokenInfo>, denom: Seq<char>, k: int) -> Option<int>
    decreases s.len() - k,
{
    if k < 0 || k >= s.len() {
        None
    } else if s[k].denom@ == denom {
        Some(k)
    } else {
        find_external_denom(s, denom, k + 1)
    }
}

/// The cw20 contract registered for a remote denomination.
pub open spec fn spec_external_contract(s: Seq<AllowedTokenInfo>, denom: Seq<char>) -> Option<Seq<char>> {
    match find_external_denom(s, denom, 0) {
        Some(k) => Some(s[k].contract@),
        None => None,
    }
}

pub fn external_contract_of(tokens: &Vec<AllowedTokenInfo>, denom: &str) -> (r: Option<String>)
    ensures
        r matches Some(c) ==> spec_external_contract(tokens@, denom@) == Some(c@),
        r is None ==> spec_external_contract(tokens@, denom@) is None,
{
    let mut k: usize = 0;
    while k < tokens.len()
        invariant
            k <= tokens@.len(),
            find_external_denom(tokens@, denom@, 0) == find_external_denom(tokens@, denom@, k as int),
        decreases tokens@.len() - k,
    {
        if text_eq(tokens[k].denom.as_str(), denom) {
            return Some(tokens[k].contract.clone());
        }
        k = k + 1;
    }
    None
}

/// The first external token whose contract is `contract`, from index `k` on.
pub open spec fn find_external_by_contract(s: Seq<AllowedTokenInfo>, contract: Seq<char>, k: int) -> Option<int>
    decreases s.len() - k,
{
    if k < 0 || k >= s.len() {
        None
    } else if s[k].contract@ == contract {
        Some(k)
    } else {
        find_external_by_contract(s, contract, k + 1)
    }
}

/// The first remote denomination, in the order of the list, that `contract`
/// stands for.
pub open spec fn spec_find_external_token(s: Seq<AllowedTokenInfo>, contract: Seq<char>) -> Option<Seq<char>> {
    match find_external_by_contract(s, contract, 0) {
        Some(k) => Some(s[k].denom@),
        None => None,
    }
}

/// The remote denomination that the cw20 `contract` stands for, the first
/// one in the order of `tokens` (the order of their denominations).
pub fn find_external_token(tokens: &Vec<AllowedTokenInfo>, contract: &str) -> (r: Option<String>)
    ensures
        r matches Some(d) ==> spec_find_external_token(tokens@, contract@) == Some(d@),
        r is None ==> spec_find_external_token(tokens@, contract@) is None,
{
    let mut k: usize = 0;
    while k < tokens.len()
        invariant
            k <= tokens@.len(),
            find_external_by_contract(tokens@, contract@, 0) == find_external_by_contract(
                tokens@,
                contract@,
                k as int,
            ),
        decreases tokens@.len() - k,
    {
        if text_eq(tokens[k].contract.as_str(), contract) {
            return Some(tokens[k].denom.clone());
        }
        k = k + 1;
    }
    None
}

/// The first balance kept for `denom`, from index `k` on.
pub open spec fn find_balance(s: Seq<DenomBalance>, denom: Seq<char>, k: int) -> Option<int>
    decreases s.len() - k,
{
    if k < 0 || k >= s.len() {
        None
    } else if s[k].denom@ == denom {
        Some(k)
    } else {
        find_balance(s, denom, k + 1)
    }
}

pub open spec fn spec_balance_of(s: Seq<DenomBalance>, denom: Seq<char>) -> Option<ChannelState> {
    match find_balance(s, denom, 0) {
        Some(k) => Some(s[k].state),
        None => None,
    }
}

/// The balance of a channel in `denom`, if one is kept.
pub fn balance_of(balances: &Vec<DenomBalance>, denom: &str) -> (r: Option<ChannelState>)
    ensures
        r == spec_balance_of(balances@, denom@),
{
    let mut k: usize = 0;
    while k < balances.len()
        invariant
            k <= balances@.len(),
            find_balance(balances@, denom@, 0) == find_balance(balances@, denom@, k as int),
        decreases balances@.len() - k,
    {
        if text_eq(balances[k].denom.as_str(), denom) {
            return Some(balances[k].state);
        }
        k = k + 1;
    }
    None
}

} // verus!
