//! Packets: which denomination a packet carries, the balance it moves, what
//! is paid out for it, and the channel handshake.
use vstd::prelude::*;
use crate::asset::Coin;
use crate::ibc::amount::{get_cw20_denom, spec_cw20_denom, spec_from_parts, Amount, AmountView};
use crate::ibc::msg::{AllowedInfo, AllowedTokenInfo};
use crate::ibc::state::{
    allow_info_of, balance_of, external_contract_of, join_ibc_paths, reduce_channel_balance,
    spec_allow_info, spec_balance_of, spec_external_contract, spec_reduce, spec_undo_reduce,
    undo_reduce_channel_balance, view_result, ChannelState, ContractError, DenomBalance, Endpoint,
    ErrorView, ReplyArgs,
};
use crate::text::{spec_join_path, spec_split3, spec_starts_with, split3, starts_with, text_eq};

verus! {

/// An optional text as a sequence.
pub open spec fn text_opt(o: Option<String>) -> Option<Seq<char>> {
    match o {
        Some(s) => Some(s@),
        None => None,
    }
}

pub open spec fn str_opt(o: Option<&str>) -> Option<Seq<char>> {
    match o {
        Some(s) => Some(s@),
        None => None,
    }
}

/// The reply id of the payout of a received packet.
pub const RECEIVE_ID: u64 = 1337u64;

/// The reply id of a refund or of a payout after an acknowledgement.
pub const ACK_TRANSFER_ID: u64 = 64023u64;

/// The local denomination a packet's denomination stands for, and whether
/// the tokens came from this chain.
#[derive(Clone, Debug, PartialEq, Eq)]
pub struct Voucher {
    pub denom: String,
    pub our_chain: bool,
}

pub struct VoucherView {
    pub denom: Seq<char>,
    pub our_chain: bool,
}

impl View for Voucher {
    type V = VoucherView;

    open spec fn view(&self) -> VoucherView {
        VoucherView { denom: self.denom@, our_chain: self.our_chain }
    }
}

/// A denomination that does not begin with `port/channel` of the remote end
/// came from there: it must be a registered external token, and stands for
/// its cw20 token. One that does came from here, and must read
/// `port/channel/denom` with the remote end's port and channel.
pub open spec fn spec_parse_voucher(
    d: Seq<char>,
    port: Seq<char>,
    channel: Seq<char>,
    tokens: Seq<AllowedTokenInfo>,
) -> Result<VoucherView, ErrorView> {
    if !spec_starts_with(d, spec_join_path(port, channel)) {
        match spec_external_contract(tokens, d) {
            None => Err(ErrorView::NoAllowedToken),
            Some(c) => Ok(VoucherView { denom: spec_cw20_denom(c), our_chain: false }),
        }
    } else {
        match spec_split3(d) {
            None => Err(ErrorView::NoForeignTokens),
            Some((a, b, c)) => if a != port {
                Err(ErrorView::FromOtherPort { port: a })
            } else if b != channel {
                Err(ErrorView::FromOtherChannel { channel: b })
            } else {
                Ok(VoucherView { denom: c, our_chain: true })
            },
        }
    }
}

/// A denomination sent from here as `port/channel/denom` (the full
/// denomination a transfer builds) reads back, on a packet from that port
/// and channel, as `denom` from this chain, when neither the port nor the
/// channel holds a slash.
pub proof fn lemma_voucher_round_trip(
    port: Seq<char>,
    channel: Seq<char>,
    denom: Seq<char>,
    tokens: Seq<AllowedTokenInfo>,
)
    requires
        !port.contains('/'),
        !channel.contains('/'),
    ensures
        spec_parse_voucher(spec_join_path(spec_join_path(port, channel), denom), port, channel, tokens)
            == Ok::<VoucherView, ErrorView>(VoucherView { denom, our_chain: true }),
{
    crate::text::lemma_split_joined_path(port, channel, denom);
}

pub fn parse_voucher(voucher_denom: &str, remote: &Endpoint, tokens: &Vec<AllowedTokenInfo>) -> (r: Result<
    Voucher,
    ContractError,
>)
    ensures
        view_result(r) == spec_parse_voucher(voucher_denom@, remote.port_id@, remote.channel_id@, tokens@),
{
    let prefix = join_ibc_paths(remote.port_id.as_str(), remote.channel_id.as_str());
    if !starts_with(voucher_denom, prefix.as_str()) {
        return match external_contract_of(tokens, voucher_denom) {
            None => Err(ContractError::NoAllowedToken),
            Some(c) => Ok(Voucher { denom: get_cw20_denom(c.as_str()), our_chain: false }),
        };
    }
    match split3(voucher_denom) {
        None => Err(ContractError::NoForeignTokens),
        Some((a, b, c)) => {
            if !text_eq(a.as_str(), remote.port_id.as_str()) {
                return Err(ContractError::FromOtherPort { port: a });
            }
            if !text_eq(b.as_str(), remote.channel_id.as_str()) {
                return Err(ContractError::FromOtherChannel { channel: b });
            }
            Ok(Voucher { denom: c, our_chain: true })
        },
    }
}

/// The denomination of a packet that failed, read back: one that does not
/// begin with `port/channel` is taken as it is, from this chain; one that
/// does must end in a registered external token, and stands for its cw20
/// token.
pub open spec fn spec_parse_voucher_ack(
    d: Seq<char>,
    port: Seq<char>,
    channel: Seq<char>,
    tokens: Seq<AllowedTokenInfo>,
) -> Result<VoucherView, ErrorView> {
    if !spec_starts_with(d, spec_join_path(port, channel)) {
        Ok(VoucherView { denom: d, our_chain: true })
    } else {
        match spec_split3(d) {
            None => Err(ErrorView::NoForeignTokens),
            Some((_a, _b, c)) => match spec_external_contract(tokens, c) {
                None => Err(ErrorView::NoAllowedToken),
                Some(k) => Ok(VoucherView { denom: spec_cw20_denom(k), our_chain: false }),
            },
        }
    }
}

pub fn parse_voucher_ack(voucher_denom: &str, remote: &Endpoint, tokens: &Vec<AllowedTokenInfo>) -> (r: Result<
    Voucher,
    ContractError,
>)
    ensures
        view_result(r) == spec_parse_voucher_ack(voucher_denom@, remote.port_id@, remote.channel_id@, tokens@),
{
    let prefix = join_ibc_paths(remote.port_id.as_str(), remote.channel_id.as_str());
    if !starts_with(voucher_denom, prefix.as_str()) {
        return Ok(Voucher { denom: String::from_str(voucher_denom), our_chain: true });
    }
    match split3(voucher_denom) {
        None => Err(ContractError::NoForeignTokens),
        Some((_a, _b, c)) => match external_contract_of(tokens, c.as_str()) {
            None => Err(ContractError::NoAllowedToken),
            Some(k) => Ok(Voucher { denom: get_cw20_denom(k.as_str()), our_chain: false }),
        },
    }
}

/// Funds that a packet moves: the voucher, the new balance of the channel
/// in its denomination when the tokens are this chain's, and what is paid.
pub struct Funds {
    pub voucher: Voucher,
    pub new_state: Option<ChannelState>,
    pub to_send: Amount,
}

pub struct FundsView {
    pub voucher: VoucherView,
    pub new_state: Option<ChannelState>,
    pub to_send: AmountView,
}

impl View for Funds {
    type V = FundsView;

    open spec fn view(&self) -> FundsView {
        FundsView { voucher: self.voucher@, new_state: self.new_state, to_send: self.to_send@ }
    }
}

/// Tokens of this chain come back out of the channel's balance, refused
/// when it holds less; tokens of the remote chain are minted.
pub open spec fn spec_pay_out(
    parsed: Result<VoucherView, ErrorView>,
    amount: u128,
    balances: Seq<DenomBalance>,
) -> Result<FundsView, ErrorView> {
    match parsed {
        Err(e) => Err(e),
        Ok(v) => if v.our_chain {
            match spec_reduce(spec_balance_of(balances, v.denom), amount) {
                Err(_) => Err(ErrorView::InsufficientFunds),
                Ok(s) => Ok(FundsView { voucher: v, new_state: Some(s), to_send: spec_from_parts(v.denom, amount) }),
            }
        } else {
            Ok(FundsView { voucher: v, new_state: None, to_send: spec_from_parts(v.denom, amount) })
        },
    }
}

fn pay_out(voucher: Voucher, amount: u128, balances: &Vec<DenomBalance>) -> (r: Result<Funds, ContractError>)
    ensures
        view_result(r) == spec_pay_out(Ok(voucher@), amount, balances@),
{
    if voucher.our_chain {
        let orig = balance_of(balances, voucher.denom.as_str());
        match reduce_channel_balance(orig, amount) {
            Err(_) => Err(ContractError::InsufficientFunds),
            Ok(s) => {
                let to_send = Amount::from_parts(voucher.denom.clone(), amount);
                Ok(Funds { voucher, new_state: Some(s), to_send })
            },
        }
    } else {
        let to_send = Amount::from_parts(voucher.denom.clone(), amount);
        Ok(Funds { voucher, new_state: None, to_send })
    }
}

/// The funds of a packet received from `remote`: `balances` are those of
/// the channel it arrived on. The same holds of the payout after a remote
/// swap, with the packet's destination as `remote`.
pub fn incoming_funds(
    denom: &str,
    amount: u128,
    remote: &Endpoint,
    tokens: &Vec<AllowedTokenInfo>,
    balances: &Vec<DenomBalance>,
) -> (r: Result<Funds, ContractError>)
    ensures
        view_result(r) == spec_pay_out(
            spec_parse_voucher(denom@, remote.port_id@, remote.channel_id@, tokens@),
            amount,
            balances@,
        ),
{
    match parse_voucher(denom, remote, tokens) {
        Err(e) => Err(e),
        Ok(v) => pay_out(v, amount, balances),
    }
}

/// The refund of a packet that failed or timed out: `source` is the
/// packet's source and `balances` those of its channel.
pub fn refund_funds(
    denom: &str,
    amount: u128,
    source: &Endpoint,
    tokens: &Vec<AllowedTokenInfo>,
    balances: &Vec<DenomBalance>,
) -> (r: Result<Funds, ContractError>)
    ensures
        view_result(r) == spec_pay_out(
            spec_parse_voucher_ack(denom@, source.port_id@, source.channel_id@, tokens@),
            amount,
            balances@,
        ),
{
    match parse_voucher_ack(denom, source, tokens) {
        Err(e) => Err(e),
        Ok(v) => pay_out(v, amount, balances),
    }
}

/// The gas limit of a payout: a cw20 token must be on the allow list and
/// brings its limit; native coins have none.
pub open spec fn spec_check_gas_limit(amount: AmountView, allow: Seq<AllowedInfo>) -> Result<Option<u64>, ContractError> {
    match amount {
        AmountView::Cw20 { address, .. } => match spec_allow_info(allow, address) {
            None => Err(ContractError::NotOnAllowList),
            Some(a) => Ok(a.gas_limit),
        },
        AmountView::Native { .. } => Ok(None),
    }
}

pub fn check_gas_limit(amount: &Amount, allow: &Vec<AllowedInfo>) -> (r: Result<Option<u64>, ContractError>)
    ensures
        r == spec_check_gas_limit(amount@, allow@),
{
    match amount {
        Amount::Cw20(c) => match allow_info_of(allow, c.address.as_str()) {
            None => Err(ContractError::NotOnAllowList),
            Some(a) => Ok(a.gas_limit),
        },
        Amount::Native(_) => Ok(None),
    }
}

/// A payment: native coins by the bank, or cw20 tokens, moved from this
/// contract's holdings or minted.
#[derive(Clone, Debug, PartialEq, Eq)]
pub enum SendMsg {
    Bank { to_address: String, coin: Coin },
    Cw20Transfer { contract: String, recipient: String, amount: u128 },
    Cw20Mint { contract: String, recipient: String, amount: u128 },
}

pub enum SendView {
    Bank { to_address: Seq<char>, denom: Seq<char>, amount: u128 },
    Cw20Transfer { contract: Seq<char>, recipient: Seq<char>, amount: u128 },
    Cw20Mint { contract: Seq<char>, recipient: Seq<char>, amount: u128 },
}

impl View for SendMsg {
    type V = SendView;

    open spec fn view(&self) -> SendView {
        match self {
            SendMsg::Bank { to_address, coin } => SendView::Bank {
                to_address: to_address@,
                denom: coin.denom@,
                amount: coin.amount,
            },
            SendMsg::Cw20Transfer { contract, recipient, amount } => SendView::Cw20Transfer {
                contract: contract@,
                recipient: recipient@,
                amount: *amount,
            },
            SendMsg::Cw20Mint { contract, recipient, amount } => SendView::Cw20Mint {
                contract: contract@,
                recipient: recipient@,
                amount: *amount,
            },
        }
    }
}

/// Native coins go by the bank; cw20 tokens of this chain are transferred,
/// those that stand for remote tokens are minted.
pub open spec fn spec_send(amount: AmountView, recipient: Seq<char>, our_chain: bool) -> SendView {
    match amount {
        AmountView::Native { denom, amount } => SendView::Bank { to_address: recipient, denom, amount },
        AmountView::Cw20 { address, amount } => if our_chain {
            SendView::Cw20Transfer { contract: address, recipient, amount }
        } else {
            SendView::Cw20Mint { contract: address, recipient, amount }
        },
    }
}

pub fn send_amount(amount: Amount, recipient: String, our_chain: bool) -> (r: SendMsg)
    ensures
        r@ == spec_send(amount@, recipient@, our_chain),
{
    match amount {
        Amount::Native(coin) => SendMsg::Bank { to_address: recipient, coin },
        Amount::Cw20(c) => {
            if our_chain {
                SendMsg::Cw20Transfer { contract: c.address, recipient, amount: c.amount }
            } else {
                SendMsg::Cw20Mint { contract: c.address, recipient, amount: c.amount }
            }
        },
    }
}

/// What a reply does: the new balance to keep, and the error to acknowledge.
#[derive(Clone, Debug, PartialEq, Eq)]
pub struct ReplyOutcome {
    pub new_state: Option<ChannelState>,
    pub fail_ack: Option<String>,
}

/// A failed payout of a received packet of this chain's tokens puts the
/// amount back into the channel's balance, and is acknowledged as the
/// error; a failed refund is acknowledged as the error; a success does
/// nothing; any other reply id is refused.
pub open spec fn spec_reply(
    id: u64,
    error: Option<Seq<char>>,
    args: Option<ReplyArgs>,
    state: Option<ChannelState>,
) -> Result<(Option<ChannelState>, Option<Seq<char>>), ErrorView> {
    if id == RECEIVE_ID {
        match error {
            None => Ok((None, None)),
            Some(e) => match args {
                None => Err(ErrorView::ReplyArgsMissing),
                Some(a) => if a.our_chain {
                    match spec_undo_reduce(state, a.amount) {
                        Err(_) => Err(ErrorView::ChannelIsEmpty),
                        Ok(s) => Ok((Some(s), Some(e))),
                    }
                } else {
                    Ok((None, Some(e)))
                },
            },
        }
    } else if id == ACK_TRANSFER_ID {
        match error {
            None => Ok((None, None)),
            Some(e) => Ok((None, Some(e))),
        }
    } else {
        Err(ErrorView::UnknownReplyId { id })
    }
}

/// `state` is the balance kept for the channel and denomination of `args`.
pub fn reply(id: u64, error: Option<String>, args: Option<ReplyArgs>, state: Option<ChannelState>) -> (r: Result<
    ReplyOutcome,
    ContractError,
>)
    requires
        args matches Some(a) ==> (a.our_chain && state is Some ==> state->Some_0.outstanding + a.amount
            <= u128::MAX),
    ensures
        r matches Ok(o) ==> spec_reply(id, text_opt(error), args, state) == Ok::<
            (Option<ChannelState>, Option<Seq<char>>),
            ErrorView,
        >((o.new_state, text_opt(o.fail_ack))),
        r matches Err(e) ==> spec_reply(id, text_opt(error), args, state) == Err::<
            (Option<ChannelState>, Option<Seq<char>>),
            ErrorView,
        >(e@),
{
    if id == RECEIVE_ID {
        match error {
            None => Ok(ReplyOutcome { new_state: None, fail_ack: None }),
            Some(e) => match args {
                None => Err(ContractError::ReplyArgsMissing),
                Some(a) => {
                    if a.our_chain {
                        match undo_reduce_channel_balance(state, a.amount) {
                            Err(_) => Err(ContractError::ChannelIsEmpty),
                            Ok(s) => Ok(ReplyOutcome { new_state: Some(s), fail_ack: Some(e) }),
                        }
                    } else {
                        Ok(ReplyOutcome { new_state: None, fail_ack: Some(e) })
                    }
                },
            },
        }
    } else if id == ACK_TRANSFER_ID {
        match error {
            None => Ok(ReplyOutcome { new_state: None, fail_ack: None }),
            Some(e) => Ok(ReplyOutcome { new_state: None, fail_ack: Some(e) }),
        }
    } else {
        Err(ContractError::UnknownReplyId { id })
    }
}

/// How a channel orders its packets.
#[derive(PartialEq, Eq, Structural, Clone, Copy, Debug)]
pub enum ChannelOrder {
    Unordered,
    Ordered,
}

/// `ics20-1`, the only version spoken.
pub open spec fn ics20_version() -> Seq<char> {
    "ics20-1"@
}

/// The channel must speak `ics20-1` on both ends and be unordered.
pub open spec fn spec_enforce_order_and_version(
    version: Seq<char>,
    order: ChannelOrder,
    counterparty_version: Option<Seq<char>>,
) -> Result<(), ErrorView> {
    if version != ics20_version() {
        Err(ErrorView::InvalidIbcVersion { version })
    } else if counterparty_version is Some && counterparty_version->Some_0 != ics20_version() {
        Err(ErrorView::InvalidIbcVersion { version: counterparty_version->Some_0 })
    } else if order != ChannelOrder::Unordered {
        Err(ErrorView::OnlyOrderedChannel)
    } else {
        Ok(())
    }
}

pub fn enforce_order_and_version(version: &str, order: ChannelOrder, counterparty_version: Option<&str>) -> (r: Result<
    (),
    ContractError,
>)
    ensures
        view_result(r) == spec_enforce_order_and_version(
            version@,
            order,
            str_opt(counterparty_version),
        ),
{
    if !text_eq(version, "ics20-1") {
        return Err(ContractError::InvalidIbcVersion { version: String::from_str(version) });
    }
    match counterparty_version {
        Some(v) => {
            if !text_eq(v, "ics20-1") {
                return Err(ContractError::InvalidIbcVersion { version: String::from_str(v) });
            }
        },
        None => {},
    }
    match order {
        ChannelOrder::Unordered => Ok(()),
        ChannelOrder::Ordered => Err(ContractError::OnlyOrderedChannel),
    }
}

/// A channel opens when it speaks `ics20-1` unordered and no channel was
/// opened before.
pub fn ibc_channel_open(
    version: &str,
    order: ChannelOrder,
    counterparty_version: Option<&str>,
    init_channel: bool,
) -> (r: Result<(), ContractError>)
    ensures
        spec_enforce_order_and_version(version@, order, str_opt(counterparty_version)) is Err
            ==> view_result(r) == spec_enforce_order_and_version(
            version@,
            order,
            str_opt(counterparty_version),
        ),
        spec_enforce_order_and_version(version@, order, str_opt(counterparty_version)) is Ok
            ==> (r is Ok <==> !init_channel) && (r is Err ==> r->Err_0 == ContractError::OnlyOneChannel),
{
    match enforce_order_and_version(version, order, counterparty_version) {
        Err(e) => Err(e),
        Ok(()) => {
            if init_channel {
                Err(ContractError::OnlyOneChannel)
            } else {
                Ok(())
            }
        },
    }
}


/// The action a packet carries to the remote chain.
#[derive(PartialEq, Eq, Structural, Clone, Copy, Debug)]
pub enum PacketAction {
    Swap,
    JoinPool,
    ExitPool,
    LockupAccount,
    Lock,
    Claim,
    Unlock,
}

/// What an acknowledgement leads to.
#[derive(PartialEq, Eq, Structural, Clone, Copy, Debug)]
pub enum AckRoute {
    /// A plain transfer arrived: nothing more to do.
    Success,
    /// The tokens go back to the sender.
    Refund,
    /// The remote chain sent tokens back, paid to the sender.
    Payout,
    /// The lockup account's address is kept.
    SaveLockup,
    /// The action was done; it is only reported.
    Done,
    /// The action failed; it is only reported.
    ReportError,
}

/// A transfer that failed is refunded. A pool action that succeeded pays out
/// what came back, and one that failed is refunded. A lockup account is kept
/// when created. A lock that failed is refunded. A claim that succeeded pays
/// out. Other outcomes are only reported.
pub open spec fn spec_ack_route(action: Option<PacketAction>, success: bool) -> AckRoute {
    match action {
        None => if success { AckRoute::Success } else { AckRoute::Refund },
        Some(a) => match a {
            PacketAction::Swap | PacketAction::JoinPool | PacketAction::ExitPool => if success {
                AckRoute::Payout
            } else {
                AckRoute::Refund
            },
            PacketAction::LockupAccount => if success { AckRoute::SaveLockup } else { AckRoute::ReportError },
            PacketAction::Lock => if success { AckRoute::Done } else { AckRoute::Refund },
            PacketAction::Claim => if success { AckRoute::Payout } else { AckRoute::ReportError },
            PacketAction::Unlock => if success { AckRoute::Done } else { AckRoute::ReportError },
        },
    }
}

pub fn ack_route(action: Option<PacketAction>, success: bool) -> (r: AckRoute)
    ensures
        r == spec_ack_route(action, success),
        (r == AckRoute::Refund) <==> (!success && carries_tokens(action)),
{
    match action {
        None => if success { AckRoute::Success } else { AckRoute::Refund },
        Some(a) => match a {
            PacketAction::Swap | PacketAction::JoinPool | PacketAction::ExitPool => {
                if success {
                    AckRoute::Payout
                } else {
                    AckRoute::Refund
                }
            },
            PacketAction::LockupAccount => if success { AckRoute::SaveLockup } else { AckRoute::ReportError },
            PacketAction::Lock => if success { AckRoute::Done } else { AckRoute::Refund },
            PacketAction::Claim => if success { AckRoute::Payout } else { AckRoute::ReportError },
            PacketAction::Unlock => if success { AckRoute::Done } else { AckRoute::ReportError },
        },
    }
}

/// Whether a packet carries tokens: a plain transfer, a pool action (swap,
/// join, exit) or a lock is sent with the tokens it spends.
pub open spec fn carries_tokens(action: Option<PacketAction>) -> bool {
    match action {
        None => true,
        Some(PacketAction::Swap) => true,
        Some(PacketAction::JoinPool) => true,
        Some(PacketAction::ExitPool) => true,
        Some(PacketAction::Lock) => true,
        Some(_) => false,
    }
}

/// Whether a successful action sends tokens back to be paid out: a pool
/// action returns what it swapped or withdrew, a claim the rewards claimed.
pub open spec fn brings_tokens_back(action: Option<PacketAction>) -> bool {
    match action {
        Some(PacketAction::Swap) => true,
        Some(PacketAction::JoinPool) => true,
        Some(PacketAction::ExitPool) => true,
        Some(PacketAction::Claim) => true,
        _ => false,
    }
}

/// The refund law: an acknowledgement leads to a refund exactly when it is
/// an error and the packet carried tokens, so no tokens sent out are lost
/// on a failure and none is refunded on a success.
pub proof fn lemma_failed_transfers_are_refunded(action: Option<PacketAction>, success: bool)
    ensures
        (spec_ack_route(action, success) == AckRoute::Refund) <==> (!success && carries_tokens(action)),
        success ==> spec_ack_route(action, success) != AckRoute::Refund
            && spec_ack_route(action, success) != AckRoute::ReportError,
        (spec_ack_route(action, success) == AckRoute::Payout) <==> (success && brings_tokens_back(action)),
        !success && !carries_tokens(action) ==> spec_ack_route(action, success) == AckRoute::ReportError,
        (spec_ack_route(action, success) == AckRoute::SaveLockup) <==> (success && action == Some(PacketAction::LockupAccount)),
        (spec_ack_route(action, success) == AckRoute::Success) <==> (success && action is None),
{
}

/// The label of an acknowledgement's events.
pub fn ack_label(action: Option<PacketAction>) -> (r: &'static str)
    ensures
        r@ == (match action {
            None => "acknowledge"@,
            Some(PacketAction::Swap) => "acknowledge_swap"@,
            Some(PacketAction::JoinPool) => "acknowledge_join_pool"@,
            Some(PacketAction::ExitPool) => "acknowledge_exit_pool"@,
            Some(PacketAction::LockupAccount) => "acknowledge_create_lockup"@,
            Some(PacketAction::Lock) => "acknowledge_lock"@,
            Some(PacketAction::Claim) => "acknowledge_claim_tokens"@,
            Some(PacketAction::Unlock) => "acknowledge_unlock"@,
        }),
{
    match action {
        None => "acknowledge",
        Some(PacketAction::Swap) => "acknowledge_swap",
        Some(PacketAction::JoinPool) => "acknowledge_join_pool",
        Some(PacketAction::ExitPool) => "acknowledge_exit_pool",
        Some(PacketAction::LockupAccount) => "acknowledge_create_lockup",
        Some(PacketAction::Lock) => "acknowledge_lock",
        Some(PacketAction::Claim) => "acknowledge_claim_tokens",
        Some(PacketAction::Unlock) => "acknowledge_unlock",
    }
}

/// The error reported with a refund: a failed pool action or lock is a
/// `Gamm error: ` of the remote one.
pub fn refund_error(action: Option<PacketAction>, err: &str) -> (r: String)
    ensures
        action is None ==> r@ == err@,
        action is Some ==> r@ == "Gamm error"@ + ": "@ + err@,
{
    match action {
        None => String::from_str(err),
        Some(_) => crate::text::join_with("Gamm error", ": ", err),
    }
}

/// A claim that brought nothing back pays nothing.
pub fn claim_pays(amount: u128) -> (r: bool)
    ensures
        r == (amount != 0),
{
    amount != 0
}

} // verus!
