use oraiswap_contracts::asset::AssetInfo;
use oraiswap_contracts::distributor::{
    distribute, distribute_pool, to_seconds, update_config, update_reward_per_sec, Config, DistributorError, PoolInput,
    RewardWeight,
};

fn token(addr: &str) -> AssetInfo {
    AssetInfo::Token { contract_addr: addr.to_string() }
}

fn weight(addr: &str, w: u32) -> RewardWeight {
    RewardWeight { info: token(addr), weight: w }
}

#[test]
fn seconds_from_nanoseconds() {
    assert_eq!(to_seconds(1_571_797_419_879_305_533), 1_571_797_419);
    assert_eq!(to_seconds(999_999_999), 0);
}

#[test]
fn distribution_waits_for_the_interval() {
    assert_eq!(distribute(159, 100, &vec![]).err(), Some(DistributorError::TooEarly));
    let (payouts, rewards) = distribute(160, 100, &vec![]).unwrap();
    assert!(payouts.is_empty());
    assert!(rewards.is_empty());
}

#[test]
fn rewards_are_split_by_weight() {
    // 10 per second for 60 seconds, split 1:3
    let (payouts, total) = distribute_pool(600, &vec![weight("a", 1), weight("b", 3)]);
    assert_eq!(payouts.len(), 2);
    assert_eq!(payouts[0].amount, 150);
    assert_eq!(payouts[1].amount, 450);
    assert_eq!(total, Some(600));

    let pools = vec![
        PoolInput { asset: token("pool1"), weights: Some(vec![weight("a", 1), weight("b", 3)]), reward_per_sec: Some(10) },
        PoolInput { asset: token("pool2"), weights: None, reward_per_sec: Some(10) },
        PoolInput { asset: token("pool3"), weights: Some(vec![weight("c", 1)]), reward_per_sec: None },
    ];
    let (payouts, rewards) = distribute(160, 100, &pools).unwrap();
    assert_eq!(payouts.len(), 2);
    assert_eq!(rewards.len(), 1);
    assert!(rewards[0].info.same_as(&token("pool1")));
    assert_eq!(rewards[0].amount, 600);
}

#[test]
fn a_zero_part_drops_the_pool_reward_but_not_earlier_payouts() {
    // 1 per second for 60 seconds: the 1/1000 part is zero
    let pools = vec![PoolInput {
        asset: token("pool"),
        weights: Some(vec![weight("a", 999), weight("b", 1)]),
        reward_per_sec: Some(1),
    }];
    let (payouts, rewards) = distribute(160, 100, &pools).unwrap();
    assert_eq!(payouts.len(), 1);
    assert_eq!(payouts[0].amount, 59);
    assert!(rewards.is_empty());
}

#[test]
fn the_owner_updates_the_config() {
    let c = Config {
        owner: "owner".to_string(),
        staking_contract: "staking".to_string(),
        token_code_id: 1,
        base_denom: "orai".to_string(),
        genesis_time: 5,
        distribution_schedule: vec![],
    };
    assert_eq!(
        update_config(c.clone(), "other", None, Some(2), None).err(),
        Some(DistributorError::Unauthorized)
    );
    let n = update_config(c, "owner", Some("new".to_string()), Some(2), Some(vec![(1, 2, 3)])).unwrap();
    assert_eq!(n.owner, "new");
    assert_eq!(n.token_code_id, 2);
    assert_eq!(n.distribution_schedule, vec![(1, 2, 3)]);
    assert_eq!(n.genesis_time, 5);
}

#[test]
fn only_the_owner_sets_reward_rates() {
    let c = Config {
        owner: "owner".to_string(),
        staking_contract: "staking".to_string(),
        token_code_id: 1,
        base_denom: "orai".to_string(),
        genesis_time: 5,
        distribution_schedule: vec![],
    };
    let rates = vec![(token("asset0000"), 100u128), (token("asset0001"), 7u128)];
    assert_eq!(
        update_reward_per_sec(&c, "addr0000", rates.clone()).err(),
        Some(DistributorError::Unauthorized)
    );
    let stored = update_reward_per_sec(&c, "owner", rates).unwrap();
    assert_eq!(stored.len(), 2);
    assert!(matches!(&stored[0], (AssetInfo::Token { contract_addr }, 100) if contract_addr == "asset0000"));
    assert!(matches!(&stored[1], (AssetInfo::Token { contract_addr }, 7) if contract_addr == "asset0001"));
}
