//! Messages and responses of the IBC swap client.
use vstd::prelude::*;
use crate::ibc::amount::Amount;
use crate::ibc::state::ChannelInfo;

verus! {

#[derive(Clone, Debug, PartialEq, Eq)]
pub struct InstantiateMsg {
    /// Default timeout of outgoing packets, in seconds.
    pub default_timeout: u64,
    /// Who can allow more tokens.
    pub gov_contract: String,
    /// The cw20 tokens allowed from the start.
    pub allowlist: Vec<AllowMsg>,
}

#[derive(Clone, Debug, PartialEq, Eq)]
pub struct AllowMsg {
    pub contract: String,
    pub gas_limit: Option<u64>,
}

#[derive(Clone, Debug, PartialEq, Eq)]
pub struct ExternalTokenMsg {
    /// The denomination on the remote chain.
    pub denom: String,
    /// The cw20 token that stands for it here.
    pub contract: String,
}

#[derive(Clone, Debug, PartialEq, Eq)]
pub struct SwapMsg {
    pub channel: String,
    pub pool: u64,
    pub token_out: String,
    pub min_amount_out: u128,
    pub timeout: Option<u64>,
}

#[derive(Clone, Debug, PartialEq, Eq)]
pub struct JoinPoolMsg {
    pub channel: String,
    pub pool: u64,
    pub share_min_out: u128,
    pub timeout: Option<u64>,
}

#[derive(Clone, Debug, PartialEq, Eq)]
pub struct ExitPoolMsg {
    pub channel: String,
    pub token_out: String,
    pub min_amount_out: u128,
    pub timeout: Option<u64>,
}

#[derive(Clone, Debug, PartialEq, Eq)]
pub struct CreateLockupMsg {
    pub channel: String,
    pub timeout: Option<u64>,
}

#[derive(Clone, Debug, PartialEq, Eq)]
pub struct LockTokensMsg {
    pub channel: String,
    pub timeout: Option<u64>,
    pub duration: u64,
}

#[derive(Clone, Debug, PartialEq, Eq)]
pub struct ClaimTokensMsg {
    pub channel: String,
    pub timeout: Option<u64>,
    pub denom: String,
}

#[derive(Clone, Debug, PartialEq, Eq)]
pub struct UnlockTokensMsg {
    pub channel: String,
    pub timeout: Option<u64>,
    pub lock_id: u64,
}

/// A transfer over a channel.
#[derive(Clone, Debug, PartialEq, Eq)]
pub struct TransferMsg {
    /// The local channel to send the packet on.
    pub channel: String,
    /// The address on the remote chain.
    pub remote_address: String,
    /// How long the packet lives, in seconds; the default timeout when absent.
    pub timeout: Option<u64>,
}

#[derive(Clone, Debug, PartialEq, Eq)]
pub enum QueryMsg {
    ListChannels {},
    Channel { id: String },
    Config {},
    Admin {},
    Allowed { contract: String },
    ExternalToken { denom: String },
    ListAllowed { start_after: Option<String>, limit: Option<u32> },
    ListExternalTokens { start_after: Option<String>, limit: Option<u32> },
    Lockup { channel: String, owner: String },
}

#[derive(Clone, Debug, PartialEq, Eq)]
pub struct ListChannelsResponse {
    pub channels: Vec<ChannelInfo>,
}

#[derive(Clone, Debug, PartialEq, Eq)]
pub struct ChannelResponse {
    pub info: ChannelInfo,
    /// What is outstanding on the channel, per denomination.
    pub balances: Vec<Amount>,
    /// What was ever sent over the channel, per denomination.
    pub total_sent: Vec<Amount>,
}

#[derive(Clone, Debug, PartialEq, Eq)]
pub struct ConfigResponse {
    pub default_timeout: u64,
    pub gov_contract: String,
}

#[derive(Clone, Debug, PartialEq, Eq)]
pub struct AllowedResponse {
    pub is_allowed: bool,
    pub gas_limit: Option<u64>,
}

#[derive(Clone, Debug, PartialEq, Eq)]
pub struct ListAllowedResponse {
    pub allow: Vec<AllowedInfo>,
}

#[derive(Clone, Debug, PartialEq, Eq)]
pub struct AllowedTokenResponse {
    pub is_allowed: bool,
    pub contract: Option<String>,
}

/// An allowed cw20 token and its gas limit.
#[derive(Clone, Debug, PartialEq, Eq)]
pub struct AllowedInfo {
    pub contract: String,
    pub gas_limit: Option<u64>,
}

#[derive(Clone, Debug, PartialEq, Eq)]
pub struct ListExternalTokensResponse {
    pub tokens: Vec<AllowedTokenInfo>,
}

/// A remote denomination and the cw20 token that stands for it here.
#[derive(Clone, Debug, PartialEq, Eq)]
pub struct AllowedTokenInfo {
    pub denom: String,
    pub contract: String,
}

#[derive(Clone, Debug, PartialEq, Eq)]
pub struct LockupResponse {
    pub owner: String,
    pub address: String,
}

} // verus!
