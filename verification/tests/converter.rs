use oraiswap_contracts::asset::{Asset, AssetInfo, Coin};
use oraiswap_contracts::converter::{
    asset_msg, convert, convert_reverse, process_build_convert_msg, receive_convert_reverse,
    update_config, update_pair, withdraw_tokens, Config, ConvertMsg, ConverterError, TokenInfo, TokenRatio,
};
use cosmwasm_std::Decimal;
use oraiswap_contracts::math::div_ratio_decimal;

const ORAI_DENOM: &str = "orai";
const ATOM_DENOM: &str = "ibc/atom";

fn token(addr: &str) -> AssetInfo {
    AssetInfo::Token { contract_addr: addr.to_string() }
}

fn native(denom: &str) -> AssetInfo {
    AssetInfo::NativeToken { denom: denom.to_string() }
}

/// A decimal's atomics.
fn dec_from_ratio(numerator: u128, denominator: u128) -> u128 {
    Decimal::from_ratio(numerator, denominator).atomics().u128()
}

#[test]
fn test_decimal_valid_same_decimal() {
    let result = div_ratio_decimal(1, dec_from_ratio(10u128.pow(6), 10u128.pow(6))).unwrap();
    assert_eq!(result, 1);
}

#[test]
fn test_decimal_valid_different_decimal() {
    let result = div_ratio_decimal(1, dec_from_ratio(10u128.pow(6), 10u128.pow(18))).unwrap();
    assert_eq!(result, 1000000000000);
}

#[test]
fn test_decimal_valid_large_number() {
    let result = div_ratio_decimal(100000000000000000000000000000000000000u128, dec_from_ratio(10u128.pow(18), 10u128.pow(6)));
    println!("result: {:?}", result);
    assert_eq!(result, Some(10u128.pow(26)));
}

#[test]
fn test_convert_reverse() {
    // pair 1: asset1 (18 decimals) to asset2 (6 decimals)
    let to = TokenInfo { info: token("asset2"), decimals: 6 };
    let ratio = update_pair(true, 18, &to, false).unwrap();

    // convert back 1 asset2 to asset1
    let (amount, msgs) = receive_convert_reverse(&ratio, "asset2", 1, &token("asset1"), "asset2".to_string()).unwrap();
    assert_eq!(amount, 10u128.pow(12));
    assert_eq!(
        msgs,
        vec![ConvertMsg::Cw20Transfer { contract: "asset1".to_string(), recipient: "asset2".to_string(), amount: 10u128.pow(12) }]
    );

    // the sender is not asset2
    let err = receive_convert_reverse(&ratio, "addr", 1, &token("asset1"), "addr".to_string()).err();
    assert_eq!(err, Some(ConverterError::InvalidCw20HookMessage));

    // pair 2: asset1 (6 decimals) to orai (18 decimals)
    let to = TokenInfo { info: native(ORAI_DENOM), decimals: 18 };
    let ratio = update_pair(true, 6, &to, false).unwrap();

    // convert back 10^12 orai to asset1
    let funds = vec![Coin { denom: ORAI_DENOM.to_string(), amount: 1000000000000 }];
    let (from_amount, back) = convert_reverse(&ratio, &funds).unwrap();
    assert_eq!(from_amount, 1000000000000);
    assert_eq!(back, 1);
    assert_eq!(
        asset_msg(&token("asset1"), back, "addr".to_string()),
        ConvertMsg::Cw20Transfer { contract: "asset1".to_string(), recipient: "addr".to_string(), amount: 1 }
    );

    // no orai sent
    let funds = vec![Coin { denom: ATOM_DENOM.to_string(), amount: 1000000000000 }];
    assert_eq!(convert_reverse(&ratio, &funds).err(), Some(ConverterError::NativeNotFound));
}

#[test]
fn pairs_are_registered_by_the_owner() {
    let to = TokenInfo { info: native(ORAI_DENOM), decimals: 6 };
    assert_eq!(update_pair(false, 6, &to, false).err(), Some(ConverterError::Unauthorized));
    assert_eq!(update_pair(true, 6, &to, true).err(), Some(ConverterError::MintBurnNeedsToken));
    let r = update_pair(true, 6, &to, false).unwrap();
    assert_eq!(r.ratio, dec_from_ratio(1, 1));
}

#[test]
fn conversions_pay_at_the_ratio() {
    let to = TokenInfo { info: token("cw20-orai"), decimals: 18 };
    let ratio = update_pair(true, 6, &to, true).unwrap();
    let funds = vec![Coin { denom: "uorai".to_string(), amount: 5 }];
    let out = convert(&funds, &vec![Some(ratio.clone())], &"me".to_string()).unwrap();
    assert_eq!(out.len(), 1);
    assert_eq!(out[0].0, 5 * 10u128.pow(12));
    assert_eq!(
        out[0].1,
        ConvertMsg::Cw20Mint { contract: "cw20-orai".to_string(), recipient: "me".to_string(), amount: 5 * 10u128.pow(12) }
    );
    assert_eq!(convert(&funds, &vec![None], &"me".to_string()).err(), Some(ConverterError::RatioNotFound));

    // a mint and burn pair burns what comes back
    let (back, msgs) = receive_convert_reverse(&ratio, "cw20-orai", 10u128.pow(12), &native("uorai"), "me".to_string()).unwrap();
    assert_eq!(back, 1);
    assert_eq!(msgs.len(), 2);
    assert_eq!(msgs[1], ConvertMsg::Cw20Burn { contract: "cw20-orai".to_string(), amount: 10u128.pow(12) });

    // a zero ratio cannot be divided by
    let zero = TokenRatio { info: token("t"), ratio: 0, is_mint_burn: false };
    assert_eq!(receive_convert_reverse(&zero, "t", 1, &native("x"), "me".to_string()).err(), Some(ConverterError::Arithmetic));
    assert_eq!(
        process_build_convert_msg(&native("x"), 1, "me".to_string(), true).err(),
        Some(ConverterError::MintBurnNeedsToken)
    );
}

#[test]
fn only_the_owner_hands_over() {
    let c = Config { owner: "owner".to_string() };
    assert_eq!(update_config(&c, "other", "x".to_string()).err(), Some(ConverterError::Unauthorized));
    assert_eq!(update_config(&c, "owner", "x".to_string()).unwrap(), Config { owner: "x".to_string() });
}

#[test]
fn test_withdraw_tokens() {
    let config = Config { owner: "addr".to_string() };
    let balances = vec![
        Asset { info: AssetInfo::NativeToken { denom: ORAI_DENOM.to_string() }, amount: 10000000000 },
        Asset { info: AssetInfo::NativeToken { denom: ATOM_DENOM.to_string() }, amount: 20000000000 },
    ];
    // the owner gets each whole balance
    let msgs = withdraw_tokens(&config, "addr", &balances).unwrap();
    assert_eq!(msgs.len(), 2);
    for (m, (denom, amount)) in msgs.iter().zip([(ORAI_DENOM, 10000000000u128), (ATOM_DENOM, 20000000000u128)]) {
        match m {
            ConvertMsg::Bank { to_address, coin } => {
                assert_eq!(to_address, "addr");
                assert_eq!(coin.denom, denom);
                assert_eq!(coin.amount, amount);
            }
            _ => panic!("a bank send was expected"),
        }
    }
    // anyone else is refused
    assert!(matches!(withdraw_tokens(&config, "addr1", &balances), Err(ConverterError::Unauthorized)));
}
