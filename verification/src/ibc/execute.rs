//! The decisions of the swap client's messages: transfers and actions sent
//! over a channel, the allow lists, and the answers to queries.
use vstd::prelude::*;
use crate::ibc::amount::{spec_from_parts, Amount, AmountView};
use crate::ibc::msg::{
    AllowedInfo, AllowedResponse, AllowedTokenInfo, AllowedTokenResponse, ConfigResponse,
    ListAllowedResponse, ListExternalTokensResponse, LockupResponse,
};
use crate::ibc::state::{
    allow_info_of, balance_of, find_external_token, increase_channel_balance, increase_fits,
    join_ibc_paths, spec_allow_info, spec_balance_of, spec_find_external_token, spec_increase,
    view_result, AdminError, AllowInfo, ChannelState, Config, ContractError, DenomBalance, ErrorView,
};
use crate::asset::{one_coin, nonpayable, spec_one_coin, Coin};
use crate::ibc::packet::text_opt;
use crate::math::page_limit;
use crate::text::{seq_lt, spec_join_path, text_lt};

verus! {

/// The page size of the allow lists when none is asked for.
pub const DEFAULT_LIMIT: u32 = 10;

/// The largest page of the allow lists.
pub const MAX_LIMIT: u32 = 30;

/// The configuration a new client starts with.
pub fn instantiate_config(default_timeout: u64) -> (r: Config)
    ensures
        r.default_timeout == default_timeout,
        !r.init_channel,
        r.default_remote_denom is None,
{
    Config { default_timeout, init_channel: false, default_remote_denom: None }
}

/// `port/channel/denom`, the denomination of a remote token as the remote
/// chain sees it coming over the channel.
pub fn get_ibc_full_denom(port_id: &str, channel: &str, denom: &str) -> (r: String)
    ensures
        r@ == spec_join_path(spec_join_path(port_id@, channel@), denom@),
{
    let prefix = join_ibc_paths(port_id, channel);
    join_ibc_paths(prefix.as_str(), denom)
}

/// Whether a transfer sends this chain's tokens: native coins, or a cw20
/// token that stands for no remote denomination.
pub open spec fn spec_our_chain(amount: AmountView, tokens: Seq<AllowedTokenInfo>) -> bool {
    match amount {
        AmountView::Native { .. } => true,
        AmountView::Cw20 { address, .. } => spec_find_external_token(tokens, address) is None,
    }
}

/// The denomination a transfer's packet carries: the amount's own, or for a
/// cw20 token that stands for a remote one, `port/channel/` and that one.
pub open spec fn spec_packet_denom(amount: AmountView, tokens: Seq<AllowedTokenInfo>, port_id: Seq<char>, channel: Seq<char>) -> Seq<char> {
    match amount {
        AmountView::Native { .. } => amount.denom(),
        AmountView::Cw20 { address, .. } => match spec_find_external_token(tokens, address) {
            None => amount.denom(),
            Some(d) => spec_join_path(spec_join_path(port_id, channel), d),
        },
    }
}

/// What a transfer does: the packet's denomination, whether the tokens are
/// this chain's, the new balance of the channel, the burn of a remote
/// token's stand-in, and the timeout in seconds.
#[derive(Clone, Debug, PartialEq, Eq)]
pub struct TransferPlan {
    pub denom: String,
    pub our_chain: bool,
    pub new_state: Option<ChannelState>,
    pub burn: Option<(String, u128)>,
    pub timeout_delta: u64,
}

/// A transfer refuses nothing sent, an unknown channel and a cw20 token not
/// on the allow list, in that order.
pub open spec fn spec_transfer_error(
    amount: AmountView,
    channel: Seq<char>,
    channel_exists: bool,
    allow: Seq<AllowedInfo>,
) -> Option<ErrorView> {
    if amount.amount() == 0 {
        Some(ErrorView::NoFunds)
    } else if !channel_exists {
        Some(ErrorView::NoSuchChannel { id: channel })
    } else if amount is Cw20 && spec_allow_info(allow, amount->Cw20_address) is None {
        Some(ErrorView::NotOnAllowList)
    } else {
        None
    }
}

/// What a transfer that goes ahead does: the packet's denomination, whether
/// the tokens are this chain's, the channel's new balance for them, the burn
/// of a remote token's stand-in, and the timeout.
pub open spec fn transfer_planned(
    amount: AmountView,
    channel: Seq<char>,
    port_id: Seq<char>,
    tokens: Seq<AllowedTokenInfo>,
    balances: Seq<DenomBalance>,
    timeout: Option<u64>,
    default_timeout: u64,
    p: TransferPlan,
) -> bool {
    &&& p.our_chain == spec_our_chain(amount, tokens)
    &&& p.denom@ == spec_packet_denom(amount, tokens, port_id, channel)
    &&& p.new_state == (if p.our_chain {
        Some(spec_increase(spec_balance_of(balances, amount.denom()), amount.amount()))
    } else {
        None
    })
    &&& (p.burn matches Some((c, a)) ==> !p.our_chain && amount is Cw20 && c@ == amount->Cw20_address && a
        == amount.amount())
    &&& (p.burn is None ==> p.our_chain)
    &&& p.timeout_delta == (match timeout {
        Some(t) => t,
        None => default_timeout,
    })
}

/// `balances` are those of `channel`; `port_id` is this contract's port.
pub fn execute_transfer_with_action(
    amount: &Amount,
    channel: &str,
    channel_exists: bool,
    port_id: &str,
    allow: &Vec<AllowedInfo>,
    tokens: &Vec<AllowedTokenInfo>,
    balances: &Vec<DenomBalance>,
    timeout: Option<u64>,
    default_timeout: u64,
) -> (r: Result<TransferPlan, ContractError>)
    requires
        spec_our_chain(amount@, tokens@) ==> increase_fits(
            spec_balance_of(balances@, amount@.denom()),
            amount@.amount(),
        ),
    ensures
        r matches Err(e) ==> spec_transfer_error(amount@, channel@, channel_exists, allow@) == Some(e@),
        r matches Ok(p) ==> spec_transfer_error(amount@, channel@, channel_exists, allow@) is None
            && transfer_planned(amount@, channel@, port_id@, tokens@, balances@, timeout, default_timeout, p),
        spec_transfer_error(amount@, channel@, channel_exists, allow@) is None ==> r is Ok,
{
    if amount.is_empty() {
        return Err(ContractError::NoFunds);
    }
    if !channel_exists {
        return Err(ContractError::NoSuchChannel { id: String::from_str(channel) });
    }
    let mut denom = amount.denom();
    let mut our_chain = true;
    let mut burn: Option<(String, u128)> = None;
    match amount {
        Amount::Cw20(coin) => {
            if allow_info_of(allow, coin.address.as_str()).is_none() {
                return Err(ContractError::NotOnAllowList);
            }
            match find_external_token(tokens, coin.address.as_str()) {
                Some(ext) => {
                    denom = get_ibc_full_denom(port_id, channel, ext.as_str());
                    our_chain = false;
                    burn = Some((coin.address.clone(), coin.amount));
                },
                None => {},
            }
        },
        Amount::Native(_) => {},
    }
    let timeout_delta = match timeout {
        Some(t) => t,
        None => default_timeout,
    };
    let new_state = if our_chain {
        let orig = balance_of(balances, amount.denom().as_str());
        Some(increase_channel_balance(orig, amount.amount()))
    } else {
        None
    };
    Ok(TransferPlan { denom, our_chain, new_state, burn, timeout_delta })
}

/// What a packet that carries only an action does: its denomination and
/// its timeout in seconds.
pub open spec fn spec_only_action(
    channel: Seq<char>,
    channel_exists: bool,
    remote_denom: Option<Seq<char>>,
    port_id: Seq<char>,
) -> Result<Seq<char>, ErrorView> {
    if !channel_exists {
        Err(ErrorView::NoSuchChannel { id: channel })
    } else {
        match remote_denom {
            None => Err(ErrorView::NoSuchChannel { id: channel }),
            Some(d) => Ok(spec_join_path(spec_join_path(port_id, channel), d)),
        }
    }
}

pub fn execute_only_action(
    channel: &str,
    channel_exists: bool,
    config: &Config,
    port_id: &str,
    timeout: Option<u64>,
) -> (r: Result<(String, u64), ContractError>)
    ensures
        r matches Ok((d, t)) ==> spec_only_action(
            channel@,
            channel_exists,
            match config.default_remote_denom {
                Some(s) => Some(s@),
                None => None,
            },
            port_id@,
        ) == Ok::<Seq<char>, ErrorView>(d@) && t == (match timeout {
            Some(t) => t,
            None => config.default_timeout,
        }),
        r matches Err(e) ==> spec_only_action(
            channel@,
            channel_exists,
            match config.default_remote_denom {
                Some(s) => Some(s@),
                None => None,
            },
            port_id@,
        ) == Err::<Seq<char>, ErrorView>(e@),
{
    if !channel_exists {
        return Err(ContractError::NoSuchChannel { id: String::from_str(channel) });
    }
    match &config.default_remote_denom {
        None => Err(ContractError::NoSuchChannel { id: String::from_str(channel) }),
        Some(d) => {
            let t = match timeout {
                Some(t) => t,
                None => config.default_timeout,
            };
            Ok((get_ibc_full_denom(port_id, channel, d.as_str()), t))
        },
    }
}

/// A lockup account is created once per channel and owner.
pub fn create_lockup_check(lockup_exists: bool) -> (r: Result<(), ContractError>)
    ensures
        r is Ok <==> !lockup_exists,
        r matches Err(e) ==> e == ContractError::LockupAccountFound,
{
    if lockup_exists {
        Err(ContractError::LockupAccountFound)
    } else {
        Ok(())
    }
}

/// Locking, claiming and unlocking need the sender's lockup account.
pub fn assert_lockup_owner(lockup_exists: bool) -> (r: Result<(), ContractError>)
    ensures
        r is Ok <==> lockup_exists,
        r matches Err(e) ==> e == ContractError::NoLockupAccount,
{
    if !lockup_exists {
        Err(ContractError::NoLockupAccount)
    } else {
        Ok(())
    }
}

/// Creating a lockup account on the remote chain: once per channel and
/// owner, by a packet that carries only the action.
pub fn execute_create_lockup(
    lockup_exists: bool,
    channel: &str,
    channel_exists: bool,
    config: &Config,
    port_id: &str,
    timeout: Option<u64>,
) -> (r: Result<(String, u64), ContractError>)
    ensures
        lockup_exists ==> r == Err::<(String, u64), ContractError>(ContractError::LockupAccountFound),
        !lockup_exists ==> match spec_only_action(channel@, channel_exists, match config.default_remote_denom {
            Some(s) => Some(s@),
            None => None,
        }, port_id@) {
            Ok(d) => r matches Ok((d2, t)) && d2@ == d && t == (match timeout {
                Some(t) => t,
                None => config.default_timeout,
            }),
            Err(e) => r matches Err(e2) && e2@ == e,
        },
{
    create_lockup_check(lockup_exists)?;
    execute_only_action(channel, channel_exists, config, port_id, timeout)
}

/// Claiming tokens or unlocking them on the remote chain: for the owner of
/// a lockup account, by a packet that carries only the action.
pub fn execute_claim_tokens(
    lockup_exists: bool,
    channel: &str,
    channel_exists: bool,
    config: &Config,
    port_id: &str,
    timeout: Option<u64>,
) -> (r: Result<(String, u64), ContractError>)
    ensures
        !lockup_exists ==> r == Err::<(String, u64), ContractError>(ContractError::NoLockupAccount),
        lockup_exists ==> match spec_only_action(channel@, channel_exists, match config.default_remote_denom {
            Some(s) => Some(s@),
            None => None,
        }, port_id@) {
            Ok(d) => r matches Ok((d2, t)) && d2@ == d && t == (match timeout {
                Some(t) => t,
                None => config.default_timeout,
            }),
            Err(e) => r matches Err(e2) && e2@ == e,
        },
{
    assert_lockup_owner(lockup_exists)?;
    execute_only_action(channel, channel_exists, config, port_id, timeout)
}

/// Unlocking is decided as a claim is.
pub fn execute_unlock_tokens(
    lockup_exists: bool,
    channel: &str,
    channel_exists: bool,
    config: &Config,
    port_id: &str,
    timeout: Option<u64>,
) -> (r: Result<(String, u64), ContractError>)
    ensures
        !lockup_exists ==> r == Err::<(String, u64), ContractError>(ContractError::NoLockupAccount),
        lockup_exists ==> match spec_only_action(channel@, channel_exists, match config.default_remote_denom {
            Some(s) => Some(s@),
            None => None,
        }, port_id@) {
            Ok(d) => r matches Ok((d2, t)) && d2@ == d && t == (match timeout {
                Some(t) => t,
                None => config.default_timeout,
            }),
            Err(e) => r matches Err(e2) && e2@ == e,
        },
{
    execute_claim_tokens(lockup_exists, channel, channel_exists, config, port_id, timeout)
}

/// Locking tokens on the remote chain: for the owner of a lockup account, a
/// transfer that carries the lock.
pub fn execute_lock_tokens(
    lockup_exists: bool,
    amount: &Amount,
    channel: &str,
    channel_exists: bool,
    port_id: &str,
    allow: &Vec<AllowedInfo>,
    tokens: &Vec<AllowedTokenInfo>,
    balances: &Vec<DenomBalance>,
    timeout: Option<u64>,
    default_timeout: u64,
) -> (r: Result<TransferPlan, ContractError>)
    requires
        spec_our_chain(amount@, tokens@) ==> increase_fits(
            spec_balance_of(balances@, amount@.denom()),
            amount@.amount(),
        ),
    ensures
        !lockup_exists ==> r is Err && r->Err_0 == ContractError::NoLockupAccount,
        lockup_exists ==> (r is Ok <==> spec_transfer_error(amount@, channel@, channel_exists, allow@) is None),
        lockup_exists ==> (r matches Err(e) ==> spec_transfer_error(amount@, channel@, channel_exists, allow@) == Some(e@)),
        r matches Ok(p) ==> transfer_planned(amount@, channel@, port_id@, tokens@, balances@, timeout, default_timeout, p),
{
    assert_lockup_owner(lockup_exists)?;
    execute_transfer_with_action(amount, channel, channel_exists, port_id, allow, tokens, balances, timeout, default_timeout)
}

/// Whether a gas limit is at least another, no limit being the highest.
pub open spec fn gas_at_least(new: Option<u64>, old: Option<u64>) -> bool {
    match (new, old) {
        (None, _) => true,
        (Some(_), None) => false,
        (Some(n), Some(o)) => n >= o,
    }
}

/// A token can be allowed anew, or its gas limit raised; lowering it is
/// refused.
pub open spec fn spec_add_allow(old: Option<AllowInfo>, gas_limit: Option<u64>) -> Result<AllowInfo, ContractError> {
    match old {
        Some(o) => if gas_at_least(gas_limit, o.gas_limit) {
            Ok(AllowInfo { gas_limit })
        } else {
            Err(ContractError::CannotLowerGas)
        },
        None => Ok(AllowInfo { gas_limit }),
    }
}

pub fn add_allow_token(old: Option<AllowInfo>, gas_limit: Option<u64>) -> (r: Result<AllowInfo, ContractError>)
    ensures
        r == spec_add_allow(old, gas_limit),
{
    match old {
        Some(o) => {
            match (o.gas_limit, gas_limit) {
                (None, Some(_)) => return Err(ContractError::CannotLowerGas),
                (Some(a), Some(b)) => {
                    if b < a {
                        return Err(ContractError::CannotLowerGas);
                    }
                },
                _ => {},
            }
            Ok(AllowInfo { gas_limit })
        },
        None => Ok(AllowInfo { gas_limit }),
    }
}

/// The governance can allow new tokens or raise the gas limit of allowed
/// ones, never lower it, so tokens cannot be stuck in the channel: after an
/// allow succeeds, the limit is at least what it was.
pub proof fn lemma_allow_never_lowers(old: AllowInfo, gas_limit: Option<u64>)
    ensures
        spec_add_allow(Some(old), gas_limit) matches Ok(n) ==> gas_at_least(n.gas_limit, old.gas_limit),
        gas_at_least(gas_limit, old.gas_limit) ==> spec_add_allow(Some(old), gas_limit) is Ok,
{
}

/// The native amount paid with a transfer: exactly one nonzero coin.
pub fn native_amount(funds: &Vec<Coin>) -> (r: Result<Amount, ContractError>)
    ensures
        r == (match spec_one_coin(funds@) {
            Ok(c) => Ok::<Amount, ContractError>(Amount::Native(c)),
            Err(e) => Err(ContractError::Payment(e)),
        }),
{
    match one_coin(funds) {
        Ok(c) => Ok(Amount::Native(c)),
        Err(e) => Err(ContractError::Payment(e)),
    }
}

/// Messages that carry no transfer take no funds.
pub fn assert_nonpayable(funds: &Vec<Coin>) -> (r: Result<(), ContractError>)
    ensures
        r is Ok <==> funds@.len() == 0,
        r is Err ==> r == Err::<(), ContractError>(ContractError::Payment(crate::asset::PaymentError::NonPayable)),
{
    match nonpayable(funds) {
        Ok(()) => Ok(()),
        Err(e) => Err(ContractError::Payment(e)),
    }
}

/// Only the admin allows tokens.
pub fn execute_allow(is_admin: bool, old: Option<AllowInfo>, gas_limit: Option<u64>) -> (r: Result<
    AllowInfo,
    ContractError,
>)
    ensures
        !is_admin ==> r == Err::<AllowInfo, ContractError>(ContractError::Admin(AdminError::NotAdmin)),
        is_admin ==> r == spec_add_allow(old, gas_limit),
{
    if !is_admin {
        return Err(ContractError::Admin(AdminError::NotAdmin));
    }
    add_allow_token(old, gas_limit)
}

/// Allowing an external token: only by the admin, once per denomination. The
/// first such denomination becomes the one of packets that carry only an
/// action, and the token is put on the allow list with no gas limit.
pub fn allow_external_token(
    is_admin: bool,
    exists: bool,
    config: &Config,
    denom: &str,
    old: Option<AllowInfo>,
) -> (r: Result<(Config, AllowInfo), ContractError>)
    ensures
        !is_admin ==> r == Err::<(Config, AllowInfo), ContractError>(ContractError::Admin(AdminError::NotAdmin)),
        is_admin && exists ==> r == Err::<(Config, AllowInfo), ContractError>(
            ContractError::ExternalTokenExists,
        ),
        is_admin && !exists ==> r is Ok,
        r matches Ok((c, a)) ==> {
            &&& c.default_timeout == config.default_timeout
            &&& c.init_channel == config.init_channel
            &&& (config.default_remote_denom is Some ==> c.default_remote_denom == config.default_remote_denom)
            &&& (config.default_remote_denom is None ==> c.default_remote_denom is Some
                && c.default_remote_denom->Some_0@ == denom@)
            &&& a.gas_limit is None
        },
{
    if !is_admin {
        return Err(ContractError::Admin(AdminError::NotAdmin));
    }
    if exists {
        return Err(ContractError::ExternalTokenExists);
    }
    let remote = match &config.default_remote_denom {
        Some(d) => Some(d.clone()),
        None => Some(String::from_str(denom)),
    };
    let c = Config {
        default_timeout: config.default_timeout,
        init_channel: config.init_channel,
        default_remote_denom: remote,
    };
    match add_allow_token(old, None) {
        Ok(a) => Ok((c, a)),
        Err(e) => Err(e),
    }
}

pub fn query_allowed(info: Option<AllowInfo>) -> (r: AllowedResponse)
    ensures
        r.is_allowed == info is Some,
        r.gas_limit == (match info {
            Some(a) => a.gas_limit,
            None => None,
        }),
{
    match info {
        None => AllowedResponse { is_allowed: false, gas_limit: None },
        Some(a) => AllowedResponse { is_allowed: true, gas_limit: a.gas_limit },
    }
}

pub fn query_external_token(contract: Option<String>) -> (r: AllowedTokenResponse)
    ensures
        r.is_allowed == contract is Some,
        r.contract == contract,
{
    match contract {
        None => AllowedTokenResponse { is_allowed: false, contract: None },
        Some(c) => AllowedTokenResponse { is_allowed: true, contract: Some(c) },
    }
}

/// The lockup address of an owner, empty when there is none.
pub fn query_lockup(owner: String, address: Option<String>) -> (r: LockupResponse)
    ensures
        r.owner == owner,
        address matches Some(a) ==> r.address == a,
        address is None ==> r.address@ == Seq::<char>::empty(),
{
    let address = match address {
        Some(a) => a,
        None => String::new(),
    };
    LockupResponse { owner, address }
}

/// The configuration, with the admin or the empty text when there is none.
pub fn query_config(config: &Config, admin: Option<String>) -> (r: ConfigResponse)
    ensures
        r.default_timeout == config.default_timeout,
        admin matches Some(a) ==> r.gov_contract == a,
        admin is None ==> r.gov_contract@ == Seq::<char>::empty(),
{
    let gov_contract = match admin {
        Some(a) => a,
        None => String::new(),
    };
    ConfigResponse { default_timeout: config.default_timeout, gov_contract }
}

/// Whether a key comes after the start of a page.
pub open spec fn key_after(key: Seq<char>, start_after: Option<Seq<char>>) -> bool {
    match start_after {
        None => true,
        Some(s) => seq_lt(s, key),
    }
}

/// The first `n` elements, or all when there are fewer.
pub open spec fn take_upto<T>(s: Seq<T>, n: int) -> Seq<T> {
    if n < s.len() {
        s.take(n)
    } else {
        s
    }
}

/// The allowed tokens whose contract comes after `start_after`.
pub open spec fn allowed_after(s: Seq<AllowedInfo>, start_after: Option<Seq<char>>) -> Seq<AllowedInfo>
    decreases s.len(),
{
    if s.len() == 0 {
        Seq::empty()
    } else {
        let rest = allowed_after(s.drop_last(), start_after);
        if key_after(s.last().contract@, start_after) {
            rest.push(s.last())
        } else {
            rest
        }
    }
}

/// The page of the allow list, which is kept in the order of the contracts:
/// the entries after `start_after`, at most the page size.
pub fn list_allowed(list: &Vec<AllowedInfo>, start_after: Option<String>, limit: Option<u32>) -> (r: ListAllowedResponse)
    ensures
        r.allow@ == take_upto(
            allowed_after(
                list@,
                match start_after {
                    Some(s) => Some(s@),
                    None => None,
                },
            ),
            page_limit_spec(limit) as int,
        ),
{
    let n = page_limit(limit, DEFAULT_LIMIT, MAX_LIMIT) as usize;
    let ghost start = text_opt(start_after);
    let mut out: Vec<AllowedInfo> = Vec::new();
    let mut i: usize = 0;
    while i < list.len()
        invariant
            i <= list@.len(),
            n == page_limit_spec(limit),
            start == text_opt(start_after),
            out@ == take_upto(allowed_after(list@.take(i as int), start), n as int),
            out@.len() == (if allowed_after(list@.take(i as int), start).len() < n {
                allowed_after(list@.take(i as int), start).len()
            } else {
                n as nat
            }),
        decreases list@.len() - i,
    {
        let e = &list[i];
        let keep = match &start_after {
            None => true,
            Some(s) => text_lt(s.as_str(), e.contract.as_str()),
        };
        proof {
            assert(list@.take(i as int + 1).drop_last() =~= list@.take(i as int));
            assert(list@.take(i as int + 1).last() == list@[i as int]);
        }
        let ghost prev = allowed_after(list@.take(i as int), start);
        if keep && out.len() < n {
            out.push(AllowedInfo { contract: e.contract.clone(), gas_limit: e.gas_limit });
            proof {
                assert(out@ =~= take_upto(prev.push(list@[i as int]), n as int));
            }
        } else if keep {
            proof {
                assert(prev.push(list@[i as int]).take(n as int) =~= prev.take(n as int));
            }
        }
        i = i + 1;
    }
    proof {
        assert(list@.take(list@.len() as int) =~= list@);
    }
    ListAllowedResponse { allow: out }
}

/// The page size of the allow lists.
pub open spec fn page_limit_spec(limit: Option<u32>) -> u32 {
    match limit {
        Some(l) => if l < MAX_LIMIT { l } else { MAX_LIMIT },
        None => DEFAULT_LIMIT,
    }
}

/// The external tokens whose denomination comes after `start_after`.
pub open spec fn tokens_after(s: Seq<AllowedTokenInfo>, start_after: Option<Seq<char>>) -> Seq<AllowedTokenInfo>
    decreases s.len(),
{
    if s.len() == 0 {
        Seq::empty()
    } else {
        let rest = tokens_after(s.drop_last(), start_after);
        if key_after(s.last().denom@, start_after) {
            rest.push(s.last())
        } else {
            rest
        }
    }
}

/// The page of the external tokens, which are kept in the order of their
/// denominations.
pub fn list_external_tokens(tokens: &Vec<AllowedTokenInfo>, start_after: Option<String>, limit: Option<u32>) -> (r:
    ListExternalTokensResponse)
    ensures
        r.tokens@ == take_upto(
            tokens_after(
                tokens@,
                match start_after {
                    Some(s) => Some(s@),
                    None => None,
                },
            ),
            page_limit_spec(limit) as int,
        ),
{
    let n = page_limit(limit, DEFAULT_LIMIT, MAX_LIMIT) as usize;
    let ghost start = text_opt(start_after);
    let mut out: Vec<AllowedTokenInfo> = Vec::new();
    let mut i: usize = 0;
    while i < tokens.len()
        invariant
            i <= tokens@.len(),
            n == page_limit_spec(limit),
            start == text_opt(start_after),
            out@ == take_upto(tokens_after(tokens@.take(i as int), start), n as int),
            out@.len() == (if tokens_after(tokens@.take(i as int), start).len() < n {
                tokens_after(tokens@.take(i as int), start).len()
            } else {
                n as nat
            }),
        decreases tokens@.len() - i,
    {
        let e = &tokens[i];
        let keep = match &start_after {
            None => true,
            Some(s) => text_lt(s.as_str(), e.denom.as_str()),
        };
        proof {
            assert(tokens@.take(i as int + 1).drop_last() =~= tokens@.take(i as int));
            assert(tokens@.take(i as int + 1).last() == tokens@[i as int]);
        }
        let ghost prev = tokens_after(tokens@.take(i as int), start);
        if keep && out.len() < n {
            out.push(AllowedTokenInfo { denom: e.denom.clone(), contract: e.contract.clone() });
            proof {
                assert(out@ =~= take_upto(prev.push(tokens@[i as int]), n as int));
            }
        } else if keep {
            proof {
                assert(prev.push(tokens@[i as int]).take(n as int) =~= prev.take(n as int));
            }
        }
        i = i + 1;
    }
    proof {
        assert(tokens@.take(tokens@.len() as int) =~= tokens@);
    }
    ListExternalTokensResponse { tokens: out }
}

/// The balances of a channel as amounts: what is outstanding and what was
/// ever sent, one per denomination, in the order kept.
pub fn channel_amounts(balances: &Vec<DenomBalance>) -> (r: (Vec<Amount>, Vec<Amount>))
    ensures
        r.0@.len() == balances@.len(),
        r.1@.len() == balances@.len(),
        forall|i: int|
            0 <= i < balances@.len() ==> r.0@[i]@ == spec_from_parts(
                balances@[i].denom@,
                balances@[i].state.outstanding,
            ) && r.1@[i]@ == spec_from_parts(balances@[i].denom@, balances@[i].state.total_sent),
{
    let mut outstanding: Vec<Amount> = Vec::new();
    let mut total: Vec<Amount> = Vec::new();
    let mut i: usize = 0;
    while i < balances.len()
        invariant
            i <= balances@.len(),
            outstanding@.len() == i,
            total@.len() == i,
            forall|k: int|
                0 <= k < i ==> outstanding@[k]@ == spec_from_parts(
                    balances@[k].denom@,
                    balances@[k].state.outstanding,
                ) && total@[k]@ == spec_from_parts(balances@[k].denom@, balances@[k].state.total_sent),
        decreases balances@.len() - i,
    {
        let b = &balances[i];
        outstanding.push(Amount::from_parts(b.denom.clone(), b.state.outstanding));
        total.push(Amount::from_parts(b.denom.clone(), b.state.total_sent));
        i = i + 1;
    }
    (outstanding, total)
}

} // verus!
