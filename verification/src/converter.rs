//! The token converter: it swaps a token for another at the ratio of their
//! decimals, by transfer or by mint and burn.
use vstd::prelude::*;
use crate::asset::{spec_find_coin, Asset, AssetInfo, AssetInfoView, Coin};
use crate::math::{
    div_ratio_decimal, dec_from_ratio, mul_dec, mul_ratio, spec_from_ratio, spec_mul_dec,
    DECIMAL_FRACTIONAL,
};

verus! {

#[derive(Clone, Debug, PartialEq, Eq)]
pub enum ConverterError {
    Unauthorized,
    /// Mint and burn needs a cw20 token to convert to.
    MintBurnNeedsToken,
    InvalidCw20HookMessage,
    /// No native coin of the pair's denomination was sent.
    NativeNotFound,
    /// No pair is registered for a coin sent.
    RatioNotFound,
    /// The ratio is zero or the result does not fit.
    Arithmetic,
}

/// A token and its number of decimals.
#[derive(Clone, Debug)]
pub struct TokenInfo {
    pub info: AssetInfo,
    pub decimals: u8,
}

/// What a registered token converts to: the token, the ratio as a decimal in
/// atomics, and whether the target is minted and the source burnt.
#[derive(Clone, Debug)]
pub struct TokenRatio {
    pub info: AssetInfo,
    pub ratio: u128,
    pub is_mint_burn: bool,
}

#[derive(Clone, Debug, PartialEq, Eq)]
pub struct Config {
    pub owner: String,
}

/// `10^n`.
pub open spec fn pow10(n: nat) -> nat
    decreases n,
{
    if n == 0 {
        1
    } else {
        10 * pow10((n - 1) as nat)
    }
}

proof fn lemma_pow10_bound(n: nat)
    requires
        n <= 38,
    ensures
        pow10(n) <= 100_000_000_000_000_000_000_000_000_000_000_000_000,
{
    lemma_pow10_monotone(n, 38);
    assert(pow10(38) == 100_000_000_000_000_000_000_000_000_000_000_000_000) by {
        reveal_with_fuel(pow10, 39);
    }
}

proof fn lemma_pow10_monotone(a: nat, b: nat)
    requires
        a <= b,
    ensures
        pow10(a) <= pow10(b),
    decreases b,
{
    if a < b {
        lemma_pow10_monotone(a, (b - 1) as nat);
    }
}

pub fn checked_pow10(n: u8) -> (r: u128)
    requires
        n <= 38,
    ensures
        r == pow10(n as nat),
{
    let mut r: u128 = 1;
    let mut i: u8 = 0;
    while i < n
        invariant
            i <= n,
            n <= 38,
            r == pow10(i as nat),
        decreases n - i,
    {
        proof {
            lemma_pow10_bound((i + 1) as nat);
        }
        r = r * 10;
        i = i + 1;
    }
    r
}

/// The ratio of a pair: `10^to / 10^from` as a decimal.
pub open spec fn spec_pair_ratio(from_decimals: u8, to_decimals: u8) -> int {
    spec_from_ratio(pow10(to_decimals as nat) as int, pow10(from_decimals as nat) as int)
}

/// Registering a pair: by the owner only; a mint and burn pair must convert
/// to a cw20 token. The ratio is `10^to / 10^from`.
pub fn update_pair(is_owner: bool, from_decimals: u8, to: &TokenInfo, is_mint_burn: bool) -> (r: Result<
    TokenRatio,
    ConverterError,
>)
    requires
        from_decimals <= 38,
        to.decimals <= 38,
        spec_pair_ratio(from_decimals, to.decimals) <= u128::MAX,
    ensures
        !is_owner ==> r == Err::<TokenRatio, ConverterError>(ConverterError::Unauthorized),
        is_owner && is_mint_burn && to.info@.is_native() ==> r == Err::<TokenRatio, ConverterError>(
            ConverterError::MintBurnNeedsToken,
        ),
        is_owner && !(is_mint_burn && to.info@.is_native()) ==> r is Ok,
        r matches Ok(t) ==> t.info@ == to.info@ && t.ratio == spec_pair_ratio(from_decimals, to.decimals)
            && t.is_mint_burn == is_mint_burn,
{
    if !is_owner {
        return Err(ConverterError::Unauthorized);
    }
    if is_mint_burn && to.info.is_native_token() {
        return Err(ConverterError::MintBurnNeedsToken);
    }
    let num = checked_pow10(to.decimals);
    let den = checked_pow10(from_decimals);
    proof {
        assert(pow10(from_decimals as nat) >= 1) by {
            lemma_pow10_monotone(0, from_decimals as nat);
        }
    }
    let ratio = dec_from_ratio(num, den);
    Ok(TokenRatio { info: to.info.duplicate(), ratio, is_mint_burn })
}

/// A message that moves converted tokens.
#[derive(Clone, Debug, PartialEq, Eq)]
pub enum ConvertMsg {
    Bank { to_address: String, coin: Coin },
    Cw20Transfer { contract: String, recipient: String, amount: u128 },
    Cw20Mint { contract: String, recipient: String, amount: u128 },
    Cw20Burn { contract: String, amount: u128 },
}

pub enum ConvertView {
    Bank { to_address: Seq<char>, denom: Seq<char>, amount: u128 },
    Cw20Transfer { contract: Seq<char>, recipient: Seq<char>, amount: u128 },
    Cw20Mint { contract: Seq<char>, recipient: Seq<char>, amount: u128 },
    Cw20Burn { contract: Seq<char>, amount: u128 },
}

impl View for ConvertMsg {
    type V = ConvertView;

    open spec fn view(&self) -> ConvertView {
        match self {
            ConvertMsg::Bank { to_address, coin } => ConvertView::Bank {
                to_address: to_address@,
                denom: coin.denom@,
                amount: coin.amount,
            },
            ConvertMsg::Cw20Transfer { contract, recipient, amount } => ConvertView::Cw20Transfer {
                contract: contract@,
                recipient: recipient@,
                amount: *amount,
            },
            ConvertMsg::Cw20Mint { contract, recipient, amount } => ConvertView::Cw20Mint {
                contract: contract@,
                recipient: recipient@,
                amount: *amount,
            },
            ConvertMsg::Cw20Burn { contract, amount } => ConvertView::Cw20Burn { contract: contract@, amount: *amount },
        }
    }
}

/// Paying out converted tokens: native coins by the bank (refused for a mint
/// and burn pair), cw20 tokens minted or transferred.
pub open spec fn spec_convert_msg(to: AssetInfoView, amount: u128, recipient: Seq<char>, is_mint_burn: bool) -> Result<
    ConvertView,
    ConverterError,
> {
    match to {
        AssetInfoView::NativeToken { denom } => if is_mint_burn {
            Err(ConverterError::MintBurnNeedsToken)
        } else {
            Ok(ConvertView::Bank { to_address: recipient, denom, amount })
        },
        AssetInfoView::Token { contract_addr } => if is_mint_burn {
            Ok(ConvertView::Cw20Mint { contract: contract_addr, recipient, amount })
        } else {
            Ok(ConvertView::Cw20Transfer { contract: contract_addr, recipient, amount })
        },
    }
}

pub fn process_build_convert_msg(to: &AssetInfo, amount: u128, recipient: String, is_mint_burn: bool) -> (r: Result<
    ConvertMsg,
    ConverterError,
>)
    ensures
        r matches Ok(m) ==> spec_convert_msg(to@, amount, recipient@, is_mint_burn) == Ok::<
            ConvertView,
            ConverterError,
        >(m@),
        r matches Err(e) ==> spec_convert_msg(to@, amount, recipient@, is_mint_burn) == Err::<
            ConvertView,
            ConverterError,
        >(e),
{
    match to {
        AssetInfo::NativeToken { denom } => {
            if is_mint_burn {
                return Err(ConverterError::MintBurnNeedsToken);
            }
            Ok(ConvertMsg::Bank { to_address: recipient, coin: Coin { denom: denom.clone(), amount } })
        },
        AssetInfo::Token { contract_addr } => {
            if is_mint_burn {
                Ok(ConvertMsg::Cw20Mint { contract: contract_addr.clone(), recipient, amount })
            } else {
                Ok(ConvertMsg::Cw20Transfer { contract: contract_addr.clone(), recipient, amount })
            }
        },
    }
}

/// An asset sent to a recipient: native coins by the bank, cw20 tokens by
/// transfer.
pub open spec fn spec_asset_msg(info: AssetInfoView, amount: u128, recipient: Seq<char>) -> ConvertView {
    match info {
        AssetInfoView::NativeToken { denom } => ConvertView::Bank { to_address: recipient, denom, amount },
        AssetInfoView::Token { contract_addr } => ConvertView::Cw20Transfer { contract: contract_addr, recipient, amount },
    }
}

pub fn asset_msg(info: &AssetInfo, amount: u128, recipient: String) -> (r: ConvertMsg)
    ensures
        r@ == spec_asset_msg(info@, amount, recipient@),
{
    match info {
        AssetInfo::NativeToken { denom } => ConvertMsg::Bank {
            to_address: recipient,
            coin: Coin { denom: denom.clone(), amount },
        },
        AssetInfo::Token { contract_addr } => ConvertMsg::Cw20Transfer {
            contract: contract_addr.clone(),
            recipient,
            amount,
        },
    }
}

/// Converting `amount` of a registered token: `amount * ratio`, paid to
/// `recipient`.
pub fn convert_amount(ratio: &TokenRatio, amount: u128, recipient: String) -> (r: Result<(u128, ConvertMsg), ConverterError>)
    requires
        spec_mul_dec(amount as int, ratio.ratio as int) <= u128::MAX,
    ensures
        r matches Ok((a, m)) ==> a == spec_mul_dec(amount as int, ratio.ratio as int) && spec_convert_msg(
            ratio.info@,
            a,
            recipient@,
            ratio.is_mint_burn,
        ) == Ok::<ConvertView, ConverterError>(m@),
        r matches Err(e) ==> spec_convert_msg(
            ratio.info@,
            spec_mul_dec(amount as int, ratio.ratio as int) as u128,
            recipient@,
            ratio.is_mint_burn,
        ) == Err::<ConvertView, ConverterError>(e),
{
    let to_amount = mul_dec(amount, ratio.ratio);
    match process_build_convert_msg(&ratio.info, to_amount, recipient, ratio.is_mint_burn) {
        Ok(m) => Ok((to_amount, m)),
        Err(e) => Err(e),
    }
}

/// `amount / ratio`, what converting back gives.
pub open spec fn spec_reverse_amount(amount: u128, ratio: u128) -> Option<u128> {
    if ratio != 0 && mul_ratio(amount as int, DECIMAL_FRACTIONAL as int, ratio as int) <= u128::MAX {
        Some(mul_ratio(amount as int, DECIMAL_FRACTIONAL as int, ratio as int) as u128)
    } else {
        None
    }
}

/// Converting back tokens received from a cw20 contract: the pair must
/// convert to that very contract. The sender gets `amount / ratio` of the
/// source asset, and for a mint and burn pair the received tokens are burnt.
pub fn receive_convert_reverse(
    ratio: &TokenRatio,
    token_sender: &str,
    amount: u128,
    from: &AssetInfo,
    recipient: String,
) -> (r: Result<(u128, Vec<ConvertMsg>), ConverterError>)
    ensures
        !(ratio.info@ matches AssetInfoView::Token { contract_addr } && contract_addr == token_sender@)
            ==> r == Err::<(u128, Vec<ConvertMsg>), ConverterError>(ConverterError::InvalidCw20HookMessage),
        (ratio.info@ matches AssetInfoView::Token { contract_addr } && contract_addr == token_sender@) ==> {
            match spec_reverse_amount(amount, ratio.ratio) {
                None => r == Err::<(u128, Vec<ConvertMsg>), ConverterError>(ConverterError::Arithmetic),
                Some(back) => r matches Ok((a, msgs)) && a == back && msgs@.len() == (if ratio.is_mint_burn {
                    2int
                } else {
                    1int
                }) && msgs@[0]@ == spec_asset_msg(from@, back, recipient@) && (ratio.is_mint_burn
                    ==> msgs@[1]@ == (ConvertView::Cw20Burn { contract: token_sender@, amount })),
            }
        },
{
    match &ratio.info {
        AssetInfo::Token { contract_addr } => {
            if !crate::text::text_eq(contract_addr.as_str(), token_sender) {
                return Err(ConverterError::InvalidCw20HookMessage);
            }
            match div_ratio_decimal(amount, ratio.ratio) {
                None => Err(ConverterError::Arithmetic),
                Some(back) => {
                    let mut msgs: Vec<ConvertMsg> = Vec::new();
                    msgs.push(asset_msg(from, back, recipient));
                    if ratio.is_mint_burn {
                        msgs.push(ConvertMsg::Cw20Burn { contract: contract_addr.clone(), amount });
                    }
                    Ok((back, msgs))
                },
            }
        },
        AssetInfo::NativeToken { .. } => Err(ConverterError::InvalidCw20HookMessage),
    }
}

/// Converting back native coins: the pair must convert to a native
/// denomination, and the first coin sent of it is converted back to
/// `amount / ratio` of the source asset. Returns the coin's amount and what
/// is paid.
pub fn convert_reverse(ratio: &TokenRatio, funds: &Vec<Coin>) -> (r: Result<(u128, u128), ConverterError>)
    ensures
        !(ratio.info@ is NativeToken) ==> r == Err::<(u128, u128), ConverterError>(
            ConverterError::InvalidCw20HookMessage,
        ),
        ratio.info@ matches AssetInfoView::NativeToken { denom } ==> match spec_find_coin(funds@, denom, 0) {
            None => r == Err::<(u128, u128), ConverterError>(ConverterError::NativeNotFound),
            Some(k) => match spec_reverse_amount(funds@[k].amount, ratio.ratio) {
                None => r == Err::<(u128, u128), ConverterError>(ConverterError::Arithmetic),
                Some(back) => r == Ok::<(u128, u128), ConverterError>((funds@[k].amount, back)),
            },
        },
{
    match &ratio.info {
        AssetInfo::NativeToken { denom } => {
            match crate::asset::find_coin(funds, denom) {
                None => Err(ConverterError::NativeNotFound),
                Some(a) => match div_ratio_decimal(a, ratio.ratio) {
                    None => Err(ConverterError::Arithmetic),
                    Some(back) => Ok((a, back)),
                },
            }
        },
        AssetInfo::Token { .. } => Err(ConverterError::InvalidCw20HookMessage),
    }
}

/// Whether every coin sent has a registered pair and converts without
/// overflow, up to the first one that fails.
pub open spec fn convert_fits(funds: Seq<Coin>, ratios: Seq<Option<TokenRatio>>) -> bool {
    forall|i: int|
        #![trigger funds[i]]
        0 <= i < funds.len() && i < ratios.len() && ratios[i] is Some ==> spec_mul_dec(
            funds[i].amount as int,
            ratios[i]->Some_0.ratio as int,
        ) <= u128::MAX
}

/// The outcome of converting each coin in turn: the first missing pair or
/// refused message ends it with that error.
pub open spec fn spec_convert_all(funds: Seq<Coin>, ratios: Seq<Option<TokenRatio>>, recipient: Seq<char>, i: int) -> Option<ConverterError>
    decreases funds.len() - i,
{
    if i < 0 || i >= funds.len() {
        None
    } else {
        match ratios[i] {
            None => Some(ConverterError::RatioNotFound),
            Some(t) => match spec_convert_msg(
                t.info@,
                spec_mul_dec(funds[i].amount as int, t.ratio as int) as u128,
                recipient,
                t.is_mint_burn,
            ) {
                Err(e) => Some(e),
                Ok(_) => spec_convert_all(funds, ratios, recipient, i + 1),
            },
        }
    }
}

/// Converting the native coins sent: `ratios[i]` is the pair registered for
/// the `i`th coin. Each coin is converted at its pair's ratio and paid to
/// `recipient`, in the order sent.
pub fn convert(funds: &Vec<Coin>, ratios: &Vec<Option<TokenRatio>>, recipient: &String) -> (r: Result<
    Vec<(u128, ConvertMsg)>,
    ConverterError,
>)
    requires
        ratios@.len() == funds@.len(),
        convert_fits(funds@, ratios@),
    ensures
        r matches Err(e) ==> spec_convert_all(funds@, ratios@, recipient@, 0) == Some(e),
        r is Ok <==> spec_convert_all(funds@, ratios@, recipient@, 0) is None,
        r matches Ok(out) ==> out@.len() == funds@.len() && forall|i: int|
            0 <= i < funds@.len() ==> {
                &&& ratios@[i] is Some
                &&& (#[trigger] out@[i]).0 == spec_mul_dec(funds@[i].amount as int, ratios@[i]->Some_0.ratio as int)
                &&& spec_convert_msg(
                    ratios@[i]->Some_0.info@,
                    out@[i].0,
                    recipient@,
                    ratios@[i]->Some_0.is_mint_burn,
                ) == Ok::<ConvertView, ConverterError>(out@[i].1@)
            },
{
    let mut out: Vec<(u128, ConvertMsg)> = Vec::new();
    let mut i: usize = 0;
    while i < funds.len()
        invariant
            i <= funds@.len(),
            ratios@.len() == funds@.len(),
            convert_fits(funds@, ratios@),
            spec_convert_all(funds@, ratios@, recipient@, 0) == spec_convert_all(funds@, ratios@, recipient@, i as int),
            out@.len() == i,
            forall|k: int|
                0 <= k < i ==> {
                    &&& ratios@[k] is Some
                    &&& (#[trigger] out@[k]).0 == spec_mul_dec(funds@[k].amount as int, ratios@[k]->Some_0.ratio as int)
                    &&& spec_convert_msg(
                        ratios@[k]->Some_0.info@,
                        out@[k].0,
                        recipient@,
                        ratios@[k]->Some_0.is_mint_burn,
                    ) == Ok::<ConvertView, ConverterError>(out@[k].1@)
                },
        decreases funds@.len() - i,
    {
        match &ratios[i] {
            None => return Err(ConverterError::RatioNotFound),
            Some(t) => {
                proof {
                    assert(funds@[i as int] == funds@[i as int]);
                }
                match convert_amount(t, funds[i].amount, recipient.clone()) {
                    Err(e) => return Err(e),
                    Ok(p) => {
                        out.push(p);
                    },
                }
            },
        }
        i = i + 1;
    }
    Ok(out)
}

/// Only the owner changes the owner, registers pairs or withdraws.
pub fn is_owner(config: &Config, sender: &str) -> (r: bool)
    ensures
        r == (config.owner@ == sender@),
{
    crate::text::text_eq(config.owner.as_str(), sender)
}

/// The owner withdraws what the converter holds: one transfer to the owner
/// of the whole balance of each asset, in the order asked.
pub fn withdraw_tokens(config: &Config, sender: &str, balances: &Vec<Asset>) -> (r: Result<Vec<ConvertMsg>, ConverterError>)
    ensures
        config.owner@ != sender@ ==> r == Err::<Vec<ConvertMsg>, ConverterError>(ConverterError::Unauthorized),
        config.owner@ == sender@ ==> (r matches Ok(msgs) && msgs@.len() == balances@.len()
            && forall|i: int| 0 <= i < balances@.len() ==> #[trigger] msgs@[i]@
                == spec_asset_msg(balances@[i].info@, balances@[i].amount, config.owner@)),
{
    if !is_owner(config, sender) {
        return Err(ConverterError::Unauthorized);
    }
    let mut msgs: Vec<ConvertMsg> = Vec::new();
    let mut i: usize = 0;
    while i < balances.len()
        invariant
            i <= balances@.len(),
            msgs@.len() == i,
            forall|k: int| 0 <= k < i ==> #[trigger] msgs@[k]@
                == spec_asset_msg(balances@[k].info@, balances@[k].amount, config.owner@),
        decreases balances@.len() - i,
    {
        msgs.push(asset_msg(&balances[i].info, balances[i].amount, config.owner.clone()));
        i = i + 1;
    }
    Ok(msgs)
}

/// The configuration after the owner hands over.
pub fn update_config(config: &Config, sender: &str, owner: String) -> (r: Result<Config, ConverterError>)
    ensures
        config.owner@ != sender@ ==> r == Err::<Config, ConverterError>(ConverterError::Unauthorized),
        config.owner@ == sender@ ==> r == Ok::<Config, ConverterError>(Config { owner }),
{
    if !is_owner(config, sender) {
        return Err(ConverterError::Unauthorized);
    }
    Ok(Config { owner })
}


/// Converting and then converting back never gives more than was converted:
/// both ways round down.
pub proof fn lemma_round_trip_no_gain(amount: u128, ratio: u128)
    requires
        ratio > 0,
        spec_mul_dec(amount as int, ratio as int) <= u128::MAX,
    ensures
        spec_reverse_amount(spec_mul_dec(amount as int, ratio as int) as u128, ratio) matches Some(b) ==> b <= amount,
{
    let x = spec_mul_dec(amount as int, ratio as int);
    let d = DECIMAL_FRACTIONAL as int;
    assert(x * d <= amount * ratio) by (nonlinear_arith)
        requires
            x == amount * ratio / d,
            d > 0,
            amount >= 0,
            ratio >= 0,
    ;
    assert((x * d) / (ratio as int) <= amount) by (nonlinear_arith)
        requires
            x * d <= amount * ratio,
            ratio > 0,
            x >= 0,
            d > 0,
    ;
}

} // verus!
