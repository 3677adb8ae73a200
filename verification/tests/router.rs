use oraiswap_contracts::asset::{Asset, AssetInfo};
use oraiswap_contracts::router::{swap_offer_amount, v3_swap_needs_allowance};
use oraiswap_contracts::router::{
    assert_minimum_receive_and_transfer, assert_operations, deduct_tax,
    get_swap_v3_asset_info, swap_operation_check, execute_update_config, Affiliate, Config, Payout,
    RouterCall, RouterError, SwapOperation,
};
use oraiswap_contracts::router;

fn token(addr: &str) -> AssetInfo {
    AssetInfo::Token { contract_addr: addr.to_string() }
}

fn native(denom: &str) -> AssetInfo {
    AssetInfo::NativeToken { denom: denom.to_string() }
}

fn swap(offer: AssetInfo, ask: AssetInfo) -> SwapOperation {
    SwapOperation::OraiSwap { offer_asset_info: offer, ask_asset_info: ask }
}

#[test]
fn test_affiliates() {
    // the swap yields 99600 of token y; affiliates take 1% and 10%
    let affiliates = vec![
        Affiliate { basis_points_fee: 100, address: "affiliate_1".to_string() },
        Affiliate { basis_points_fee: 1000, address: "affiliate_2".to_string() },
    ];
    let out = assert_minimum_receive_and_transfer(99600, 0, &affiliates, "addr0000".to_string()).unwrap();
    assert_eq!(
        out,
        vec![
            Payout { address: "affiliate_1".to_string(), amount: 996 },
            Payout { address: "affiliate_2".to_string(), amount: 9960 },
            Payout { address: "addr0000".to_string(), amount: 88644 },
        ]
    );
}

#[test]
fn the_minimum_must_be_reached() {
    assert_eq!(
        assert_minimum_receive_and_transfer(5, 6, &vec![], "r".to_string()).err(),
        Some(RouterError::SwapAssertionFailure { minimum_receive: 6, swap_amount: 5 })
    );
    let out = assert_minimum_receive_and_transfer(6, 6, &vec![], "r".to_string()).unwrap();
    assert_eq!(out, vec![Payout { address: "r".to_string(), amount: 6 }]);
    // a fee that rounds to zero is not paid
    let tiny = vec![Affiliate { basis_points_fee: 1, address: "a".to_string() }];
    let out = assert_minimum_receive_and_transfer(100, 0, &tiny, "r".to_string()).unwrap();
    assert_eq!(out, vec![Payout { address: "r".to_string(), amount: 100 }]);
}

#[test]
fn operations_must_end_in_one_token() {
    let ops = vec![swap(token("x"), token("y")), swap(token("y"), native("orai"))];
    assert_eq!(assert_operations(&ops), Ok(()));
    let forked = vec![swap(token("x"), token("y")), swap(token("x"), token("z"))];
    assert_eq!(assert_operations(&forked), Err(RouterError::MultipleOutputToken));
    assert_eq!(assert_operations(&vec![]), Err(RouterError::MultipleOutputToken));

    let v3 = SwapOperation::SwapV3 { token_x: token("x"), token_y: native("orai"), x_to_y: false };
    let mixed = vec![swap(token("x"), token("y")), swap(token("y"), token("x")), v3];
    assert_eq!(assert_operations(&mixed), Ok(()));
}

#[test]
fn swap_chains_are_set_up() {
    assert_eq!(
        router::execute_swap_operations(&vec![], "s".to_string(), None, None, vec![]).err(),
        Some(RouterError::NoSwapOperation)
    );
    let ops = vec![swap(token("x"), token("y"))];
    let plan = router::execute_swap_operations(&ops, "s".to_string(), None, None, vec![]).unwrap();
    assert_eq!(plan.receiver, "s");
    assert!(plan.target.same_as(&token("y")));
    assert_eq!(plan.minimum_receive, 0);
    let plan = router::execute_swap_operations(&ops, "s".to_string(), Some("t".to_string()), Some(5), vec![]).unwrap();
    assert_eq!(plan.receiver, "t");
    assert_eq!(plan.minimum_receive, 5);
}

#[test]
fn pool_swaps_go_either_way() {
    let (o, a) = get_swap_v3_asset_info(&token("x"), &native("y"), true);
    assert!(o.same_as(&token("x")) && a.same_as(&native("y")));
    let (o, a) = get_swap_v3_asset_info(&token("x"), &native("y"), false);
    assert!(o.same_as(&native("y")) && a.same_as(&token("x")));
}

#[test]
fn single_swaps_are_checked() {
    assert_eq!(swap_operation_check(false, true), Err(RouterError::Unauthorized));
    assert_eq!(swap_operation_check(true, false), Err(RouterError::PoolWhitelisted));
    assert_eq!(swap_operation_check(true, true), Ok(()));
    assert_eq!(deduct_tax(10, 3), Ok(7));
    assert_eq!(deduct_tax(3, 10), Err(RouterError::Overflow));
}

#[test]
fn router_config_is_the_owners() {
    let c = Config {
        factory_addr: "f".to_string(),
        factory_addr_v2: "f2".to_string(),
        oraiswap_v3: "v3".to_string(),
        owner: "o".to_string(),
    };
    assert_eq!(execute_update_config(c.clone(), "x", None, None, None, None), Err(RouterError::Unauthorized));
    let u = execute_update_config(c, "o", Some("g".to_string()), None, None, None).unwrap();
    assert_eq!(u.factory_addr, "g");
    assert_eq!(u.factory_addr_v2, "f2");
}

#[test]
fn pair_swaps_offer_native_coins_less_tax() {
    let coins = Asset { info: native("orai"), amount: 100 };
    assert_eq!(swap_offer_amount(&coins, 3), Ok(97));
    assert_eq!(swap_offer_amount(&coins, 101), Err(RouterError::Overflow));
    let tokens = Asset { info: token("x"), amount: 100 };
    assert_eq!(swap_offer_amount(&tokens, 3), Ok(100));
    assert!(v3_swap_needs_allowance(&token("x")));
    assert!(!v3_swap_needs_allowance(&native("orai")));
}

#[test]
fn execute_swap_operations() {
    // must provide operations
    assert_eq!(
        router::execute_swap_operations(&vec![], "addr0000".to_string(), None, None, vec![]).err(),
        Some(RouterError::NoSwapOperation)
    );
    let ops = vec![swap(native("orai"), token("asset0000")), swap(native("atom"), token("asset0000"))];
    let plan = router::execute_swap_operations(&ops, "addr0000".to_string(), None, None, vec![]).unwrap();
    assert_eq!(plan.calls.len(), 3);
    for (k, call) in plan.calls.iter().take(2).enumerate() {
        match call {
            RouterCall::ExecuteSwapOperation { operation: SwapOperation::OraiSwap { offer_asset_info, ask_asset_info }, sender } => {
                assert!(offer_asset_info.same_as(&native(if k == 0 { "orai" } else { "atom" })));
                assert!(ask_asset_info.same_as(&token("asset0000")));
                assert_eq!(sender, "addr0000");
            }
            _ => panic!("a swap call was expected"),
        }
    }
    match &plan.calls[2] {
        RouterCall::AssertMinimumReceiveAndTransfer { asset_info, minimum_receive, receiver, affiliates } => {
            assert!(asset_info.same_as(&token("asset0000")));
            assert_eq!(*minimum_receive, 0);
            assert_eq!(receiver, "addr0000");
            assert!(affiliates.is_empty());
        }
        _ => panic!("the minimum check was expected last"),
    }
    // the pools then refuse a router that is not whitelisted
    assert_eq!(swap_operation_check(true, false), Err(RouterError::PoolWhitelisted));
    // and swap once it is
    assert_eq!(swap_operation_check(true, true), Ok(()));
}

#[test]
fn simulated_steps_take_the_taxes() {
    assert_eq!(router::simulate_swap_operations_check(&vec![]), Err(RouterError::NoSwapOperation));
    let pair = swap(native("orai"), token("asset0000"));
    assert_eq!(router::simulate_swap_operations_check(&vec![pair.clone()]), Ok(()));
    // 1000 in, 3 taken before the pool, which returns 990, of which 9 is taxed
    assert_eq!(router::simulate_step(&pair, 1000, 3, 990, 9), Ok(981));
    assert_eq!(router::simulate_step(&pair, 2, 3, 990, 9), Err(RouterError::Overflow));
    assert_eq!(router::simulate_step(&pair, 1000, 3, 8, 9), Err(RouterError::Overflow));
    let pool = SwapOperation::SwapV3 { token_x: native("orai"), token_y: token("asset0000"), x_to_y: true };
    assert_eq!(router::simulate_step(&pool, 1000, 3, 990, 9), Ok(990));
}
