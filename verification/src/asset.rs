//! Assets: a native denomination or a cw20 token contract, and an amount of
//! one of them.
use vstd::prelude::*;

verus! {

/// Which asset: a cw20 token by its contract address, or a native coin by
/// its denomination.
#[derive(Clone, Debug)]
pub enum AssetInfo {
    Token { contract_addr: String },
    NativeToken { denom: String },
}

/// The mathematical form of an `AssetInfo`.
pub enum AssetInfoView {
    Token { contract_addr: Seq<char> },
    NativeToken { denom: Seq<char> },
}

impl View for AssetInfo {
    type V = AssetInfoView;

    open spec fn view(&self) -> AssetInfoView {
        match self {
            AssetInfo::Token { contract_addr } => AssetInfoView::Token { contract_addr: contract_addr@ },
            AssetInfo::NativeToken { denom } => AssetInfoView::NativeToken { denom: denom@ },
        }
    }
}

impl AssetInfoView {
    /// The text an asset is shown by: the contract address or the denomination.
    pub open spec fn name(self) -> Seq<char> {
        match self {
            AssetInfoView::Token { contract_addr } => contract_addr,
            AssetInfoView::NativeToken { denom } => denom,
        }
    }

    pub open spec fn is_native(self) -> bool {
        self is NativeToken
    }
}

impl AssetInfo {
    /// A copy of this asset info.
    pub fn duplicate(&self) -> (r: AssetInfo)
        ensures
            r == *self,
    {
        match self {
            AssetInfo::Token { contract_addr } => AssetInfo::Token { contract_addr: contract_addr.clone() },
            AssetInfo::NativeToken { denom } => AssetInfo::NativeToken { denom: denom.clone() },
        }
    }

    /// Whether two asset infos name the same asset.
    pub fn same_as(&self, other: &AssetInfo) -> (r: bool)
        ensures
            r == (self@ == other@),
    {
        match (self, other) {
            (AssetInfo::Token { contract_addr: a }, AssetInfo::Token { contract_addr: b }) => a.eq(b),
            (AssetInfo::NativeToken { denom: a }, AssetInfo::NativeToken { denom: b }) => a.eq(b),
            _ => false,
        }
    }

    pub fn is_native_token(&self) -> (r: bool)
        ensures
            r == self@.is_native(),
    {
        match self {
            AssetInfo::NativeToken { .. } => true,
            AssetInfo::Token { .. } => false,
        }
    }

    /// The contract address or the denomination.
    pub fn name(&self) -> (r: String)
        ensures
            r@ == self@.name(),
    {
        match self {
            AssetInfo::Token { contract_addr } => contract_addr.clone(),
            AssetInfo::NativeToken { denom } => denom.clone(),
        }
    }
}

/// An amount of an asset.
#[derive(Clone, Debug)]
pub struct Asset {
    pub info: AssetInfo,
    pub amount: u128,
}

pub struct AssetView {
    pub info: AssetInfoView,
    pub amount: u128,
}

impl View for Asset {
    type V = AssetView;

    open spec fn view(&self) -> AssetView {
        AssetView { info: self.info@, amount: self.amount }
    }
}

impl Asset {
    pub fn duplicate(&self) -> (r: Asset)
        ensures
            r == *self,
    {
        Asset { info: self.info.duplicate(), amount: self.amount }
    }
}

/// Native coins sent along with a message.
#[derive(Clone, Debug, PartialEq, Eq)]
pub struct Coin {
    pub denom: String,
    pub amount: u128,
}

/// The first coin of the denomination, from index `k` on.
pub open spec fn spec_find_coin(funds: Seq<Coin>, denom: Seq<char>, k: int) -> Option<int>
    decreases funds.len() - k,
{
    if k < 0 || k >= funds.len() {
        None
    } else if funds[k].denom@ == denom {
        Some(k)
    } else {
        spec_find_coin(funds, denom, k + 1)
    }
}

/// The amount of the first coin of the denomination.
pub fn find_coin(funds: &Vec<Coin>, denom: &String) -> (r: Option<u128>)
    ensures
        r == (match spec_find_coin(funds@, denom@, 0) { Some(k) => Some(funds@[k].amount), None => None }),
{
    let mut k: usize = 0;
    while k < funds.len()
        invariant
            k <= funds@.len(),
            spec_find_coin(funds@, denom@, 0) == spec_find_coin(funds@, denom@, k as int),
        decreases funds@.len() - k,
    {
        if funds[k].denom.eq(denom) {
            return Some(funds[k].amount);
        }
        k = k + 1;
    }
    None
}

/// Whether the native funds sent pay exactly for a native asset: the first
/// coin of its denomination must carry its amount, and with no such coin the
/// amount must be zero. A token asset is not checked.
pub open spec fn spec_sent_native_balance_ok(asset: Asset, funds: Seq<Coin>) -> bool {
    match asset.info {
        AssetInfo::NativeToken { denom } => match spec_find_coin(funds, denom@, 0) {
            Some(k) => funds[k].amount == asset.amount,
            None => asset.amount == 0,
        },
        AssetInfo::Token { .. } => true,
    }
}

pub fn sent_native_balance_ok(asset: &Asset, funds: &Vec<Coin>) -> (r: bool)
    ensures
        r == spec_sent_native_balance_ok(*asset, funds@),
{
    match &asset.info {
        AssetInfo::NativeToken { denom } => match find_coin(funds, denom) {
            Some(a) => a == asset.amount,
            None => asset.amount == 0,
        },
        AssetInfo::Token { .. } => true,
    }
}

/// Why the native funds sent with a message are refused.
#[derive(PartialEq, Eq, Structural, Clone, Copy, Debug)]
pub enum PaymentError {
    /// Nothing was sent, or only a zero amount.
    NoFunds,
    /// Coins of several denominations were sent where one is paid.
    MultipleDenoms,
    /// Funds were sent where none are taken.
    NonPayable,
}

/// Exactly one coin paid: none sent, or a zero one, is no funds; two or
/// more are several denominations.
pub open spec fn spec_one_coin(funds: Seq<Coin>) -> Result<Coin, PaymentError> {
    if funds.len() == 0 {
        Err(PaymentError::NoFunds)
    } else if funds.len() == 1 {
        if funds[0].amount == 0 {
            Err(PaymentError::NoFunds)
        } else {
            Ok(funds[0])
        }
    } else {
        Err(PaymentError::MultipleDenoms)
    }
}

/// The one coin paid with a message, whatever its denomination.
pub fn one_coin(funds: &Vec<Coin>) -> (r: Result<Coin, PaymentError>)
    ensures
        r == spec_one_coin(funds@),
{
    if funds.len() == 0 {
        Err(PaymentError::NoFunds)
    } else if funds.len() == 1 {
        if funds[0].amount == 0 {
            Err(PaymentError::NoFunds)
        } else {
            Ok(Coin { denom: funds[0].denom.clone(), amount: funds[0].amount })
        }
    } else {
        Err(PaymentError::MultipleDenoms)
    }
}

/// A message that takes no funds is refused when any are sent.
pub fn nonpayable(funds: &Vec<Coin>) -> (r: Result<(), PaymentError>)
    ensures
        r is Ok <==> funds@.len() == 0,
        r is Err ==> r == Err::<(), PaymentError>(PaymentError::NonPayable),
{
    if funds.len() == 0 {
        Ok(())
    } else {
        Err(PaymentError::NonPayable)
    }
}

} // verus!
