use oraiswap_contracts::factory::{
    bytes_less, calc_range_start, create_pair_check, init_config, pair_key, register_pair_check,
    handle_update_config, handle_create_pair, FactoryError,
};
use oraiswap_contracts::asset::AssetInfo;

#[test]
fn pair_keys_do_not_depend_on_the_order() {
    let uusd = b"uusd".to_vec();
    let token = b"token0000".to_vec();
    assert_eq!(pair_key(&uusd, &token), pair_key(&token, &uusd));
    assert_eq!(pair_key(&uusd, &token), b"token0000uusd".to_vec());
    assert!(bytes_less(&b"ab".to_vec(), &b"abc".to_vec()));
    assert!(!bytes_less(&b"abc".to_vec(), &b"ab".to_vec()));
}

#[test]
fn listings_start_just_after_a_pair() {
    let start = calc_range_start(Some((b"b".to_vec(), b"a".to_vec())));
    assert_eq!(start, Some(vec![b'a', b'b', 1u8]));
    assert_eq!(calc_range_start(None), None);
}

#[test]
fn pairs_are_created_and_registered_once() {
    assert_eq!(create_pair_check(true), Err(FactoryError::PairExisted));
    assert_eq!(create_pair_check(false), Ok(()));
    assert_eq!(register_pair_check(&b"pair0000".to_vec()), Err(FactoryError::PairRegistered));
    assert_eq!(register_pair_check(&vec![]), Ok(()));
}

#[test]
fn factory_config_defaults_and_updates() {
    let c = init_config("owner".to_string(), "oracle".to_string(), 1, 2, None);
    assert_eq!(c.commission_rate, "0.003");
    let c = init_config("owner".to_string(), "oracle".to_string(), 1, 2, Some("0.01".to_string()));
    assert_eq!(c.commission_rate, "0.01");
    assert_eq!(handle_update_config(c.clone(), "x", None, None, None), Err(FactoryError::Unauthorized));
    let u = handle_update_config(c, "owner", Some("o2".to_string()), None, Some(9)).unwrap();
    assert_eq!(u.owner, "o2");
    assert_eq!(u.pair_code_id, 9);
    assert_eq!(u.token_code_id, 2);
}

fn token(addr: &str) -> AssetInfo {
    AssetInfo::Token { contract_addr: addr.to_string() }
}

fn is_token(a: &AssetInfo, addr: &str) -> bool {
    matches!(a, AssetInfo::Token { contract_addr } if contract_addr == addr)
}

#[test]
fn create_pair() {
    let config = init_config("owner".to_string(), "oracle".to_string(), 321, 123, None);
    let asset_infos = [token("asset0000"), token("asset0001")];
    let factory = "factory".to_string();

    let plan = handle_create_pair(&config, false, &asset_infos, true, &factory).unwrap();
    // the pair keeps the factory's default commission rate and oracle
    assert_eq!(plan.pair.commission_rate, "0.003");
    assert_eq!(plan.pair.oracle_addr, "oracle");
    assert!(plan.pair.contract_addr.is_empty() && plan.pair.liquidity_token.is_empty());
    assert!(is_token(&plan.pair.asset_infos[0], "asset0000") && is_token(&plan.pair.asset_infos[1], "asset0001"));
    // a pair contract of the factory's code, registering back to the factory
    assert_eq!(plan.instantiate.code_id, 321);
    assert_eq!(plan.instantiate.token_code_id, 123);
    assert_eq!(plan.instantiate.commission_rate, Some("0.003".to_string()));
    match &plan.instantiate.register_hook {
        Some((contract, infos)) => {
            assert_eq!(contract, "factory");
            assert!(is_token(&infos[0], "asset0000") && is_token(&infos[1], "asset0001"));
        }
        None => panic!("auto registration asks for a hook"),
    }
    // registering is open while no contract is recorded
    assert_eq!(register_pair_check(&plan.pair.contract_addr.as_bytes().to_vec()), Ok(()));

    let plain = handle_create_pair(&config, false, &asset_infos, false, &factory).unwrap();
    assert!(plain.instantiate.register_hook.is_none());
    // a pair is created once
    assert!(matches!(
        handle_create_pair(&config, true, &asset_infos, true, &factory),
        Err(FactoryError::PairExisted)
    ));
}
