//! The reward distributor: at most once a minute it pays each pool's reward
//! per second, for the time elapsed, to the staking contract, split by the
//! pools' reward weights.
use vstd::prelude::*;
use crate::asset::{Asset, AssetInfo, AssetView};

verus! {

/// The least number of seconds between two distributions.
pub const DISTRIBUTION_INTERVAL: u64 = 60u64;

#[derive(Clone, Debug, PartialEq, Eq)]
pub enum DistributorError {
    Unauthorized,
    /// The last distribution was less than the interval ago.
    TooEarly,
}

/// Whole seconds in a number of nanoseconds.
pub fn to_seconds(nanoseconds: u64) -> (r: u64)
    ensures
        r == nanoseconds / 1_000_000_000,
{
    nanoseconds / 1_000_000_000
}

/// An asset of a pool and its share of the pool's reward.
#[derive(Clone, Debug)]
pub struct RewardWeight {
    pub info: AssetInfo,
    pub weight: u32,
}

/// What a distribution knows of one pool: its reward weights and its reward
/// per second, each `None` where it could not be read.
#[derive(Clone, Debug)]
pub struct PoolInput {
    pub asset: AssetInfo,
    pub weights: Option<Vec<RewardWeight>>,
    pub reward_per_sec: Option<u128>,
}

/// The sum of the weights.
pub open spec fn weight_sum(ws: Seq<RewardWeight>) -> int
    decreases ws.len(),
{
    if ws.len() == 0 {
        0
    } else {
        weight_sum(ws.drop_last()) + ws.last().weight
    }
}

/// An asset's part of `target`: `target * weight / total`, rounded down.
pub open spec fn share(target: int, weight: u32, total: int) -> int {
    target * weight / total
}

/// The payouts of a pool from its `j`th asset on, up to the first one whose
/// part would be zero.
pub open spec fn payouts_from(target: int, total: int, ws: Seq<RewardWeight>, j: int) -> Seq<AssetView>
    decreases ws.len() - j,
{
    if j < 0 || j >= ws.len() || share(target, ws[j].weight, total) == 0 {
        Seq::empty()
    } else {
        seq![AssetView { info: ws[j].info@, amount: share(target, ws[j].weight, total) as u128 }]
            + payouts_from(target, total, ws, j + 1)
    }
}

/// What a pool distributes in all from its `j`th asset on, or `None` when
/// some part is zero: then the pool's distribution fails.
pub open spec fn paid_from(target: int, total: int, ws: Seq<RewardWeight>, j: int) -> Option<int>
    decreases ws.len() - j,
{
    if j < 0 || j >= ws.len() {
        Some(0)
    } else if share(target, ws[j].weight, total) == 0 {
        None
    } else {
        match paid_from(target, total, ws, j + 1) {
            Some(s) => Some(s + share(target, ws[j].weight, total)),
            None => None,
        }
    }
}

proof fn lemma_prefix_weight(ws: Seq<RewardWeight>, j: int)
    requires
        0 <= j < ws.len(),
    ensures
        weight_sum(ws.take(j + 1)) == weight_sum(ws.take(j)) + ws[j].weight,
{
    assert(ws.take(j + 1).drop_last() =~= ws.take(j));
}

proof fn lemma_prefix_weight_bound(ws: Seq<RewardWeight>, j: int)
    requires
        0 <= j <= ws.len(),
    ensures
        0 <= weight_sum(ws.take(j)) <= weight_sum(ws),
    decreases ws.len(),
{
    if ws.len() > 0 {
        if j == ws.len() {
            assert(ws.take(j) =~= ws);
            lemma_prefix_weight_bound(ws.drop_last(), j - 1);
            assert(ws.drop_last().take(j - 1) =~= ws.drop_last());
        } else {
            lemma_prefix_weight_bound(ws.drop_last(), j);
            assert(ws.drop_last().take(j) =~= ws.take(j));
        }
    } else {
        assert(ws.take(j) =~= ws);
    }
}

/// Whether a pool's distribution stays within machine integers: the weights
/// sum within `u32`, are not all zero, and every part's product fits.
pub open spec fn pool_fits(target: int, ws: Seq<RewardWeight>) -> bool {
    &&& weight_sum(ws) <= u32::MAX
    &&& (ws.len() > 0 ==> weight_sum(ws) > 0)
    &&& forall|k: int| 0 <= k < ws.len() ==> target * (#[trigger] ws[k]).weight <= u128::MAX
}

/// One pool's distribution of `target`: the payouts made, and the total
/// when no part is zero.
pub fn distribute_pool(target: u128, ws: &Vec<RewardWeight>) -> (r: (Vec<Asset>, Option<u128>))
    requires
        pool_fits(target as int, ws@),
    ensures
        r.0@.len() == payouts_from(target as int, weight_sum(ws@), ws@, 0).len(),
        forall|k: int|
            0 <= k < r.0@.len() ==> (#[trigger] r.0@[k])@ == payouts_from(target as int, weight_sum(ws@), ws@, 0)[k],
        r.1 is Some <==> paid_from(target as int, weight_sum(ws@), ws@, 0) is Some,
        r.1 matches Some(s) ==> paid_from(target as int, weight_sum(ws@), ws@, 0) == Some(s as int),
        r.1 matches Some(s) ==> s <= target,
{
    let mut total: u64 = 0;
    let mut i: usize = 0;
    while i < ws.len()
        invariant
            i <= ws@.len(),
            weight_sum(ws@) <= u32::MAX,
            total == weight_sum(ws@.take(i as int)),
        decreases ws@.len() - i,
    {
        proof {
            lemma_prefix_weight(ws@, i as int);
            lemma_prefix_weight_bound(ws@, i as int + 1);
        }
        total = total + ws[i].weight as u64;
        i = i + 1;
    }
    proof {
        assert(ws@.take(ws@.len() as int) =~= ws@);
    }
    let ghost tot = weight_sum(ws@);
    let mut out: Vec<Asset> = Vec::new();
    let mut acc: u128 = 0;
    let mut j: usize = 0;
    while j < ws.len()
        invariant
            j <= ws@.len(),
            total == tot,
            tot == weight_sum(ws@),
            pool_fits(target as int, ws@),
            0 <= weight_sum(ws@.take(j as int)) <= tot,
            acc * tot <= target * weight_sum(ws@.take(j as int)),
            payouts_from(target as int, tot, ws@, 0).len() == out@.len() + payouts_from(
                target as int,
                tot,
                ws@,
                j as int,
            ).len(),
            forall|k: int|
                0 <= k < out@.len() ==> (#[trigger] out@[k])@ == payouts_from(target as int, tot, ws@, 0)[k],
            forall|k: int|
                0 <= k < payouts_from(target as int, tot, ws@, j as int).len() ==> payouts_from(
                    target as int,
                    tot,
                    ws@,
                    0,
                )[out@.len() + k] == payouts_from(target as int, tot, ws@, j as int)[k],
            paid_from(target as int, tot, ws@, 0) == (match paid_from(target as int, tot, ws@, j as int) {
                Some(s) => Some(acc + s),
                None => None,
            }),
        decreases ws@.len() - j,
    {
        let w = ws[j].weight;
        assert(tot > 0);
        assert(target * w <= u128::MAX);
        let amount = target * (w as u128) / (total as u128);
        if amount == 0 {
            return (out, None);
        }
        proof {
            lemma_prefix_weight(ws@, j as int);
            lemma_prefix_weight_bound(ws@, j as int + 1);
            let pw = weight_sum(ws@.take(j as int));
            assert(amount * tot <= target * w) by (nonlinear_arith)
                requires
                    amount == target * w / tot,
                    tot > 0,
            ;
            assert((acc + amount) * tot <= target * (pw + w)) by (nonlinear_arith)
                requires
                    acc * tot <= target * pw,
                    amount * tot <= target * w,
            ;
            assert(target * (pw + w) <= target * tot) by (nonlinear_arith)
                requires
                    pw + w <= tot,
                    target >= 0,
            ;
            assert(acc + amount <= target) by (nonlinear_arith)
                requires
                    (acc + amount) * tot <= target * tot,
                    tot > 0,
            ;
        }
        let ghost old_len = out@.len() as int;
        let ghost p0 = payouts_from(target as int, tot, ws@, 0);
        let ghost pj = payouts_from(target as int, tot, ws@, j as int);
        let ghost rest = payouts_from(target as int, tot, ws@, j as int + 1);
        proof {
            assert(pj =~= seq![AssetView { info: ws@[j as int].info@, amount: amount }] + rest);
            assert(p0[old_len + 0] == pj[0]);
            assert forall|k: int| 0 <= k < rest.len() implies p0[old_len + 1 + k] == rest[k] by {
                assert(p0[old_len + (k + 1)] == pj[k + 1]);
            }
        }
        out.push(Asset { info: ws[j].info.duplicate(), amount });
        proof {
            assert(out@[old_len]@ == p0[old_len]);
        }
        acc = acc + amount;
        j = j + 1;
    }
    proof {
        assert(ws@.take(ws@.len() as int) =~= ws@);
        if tot > 0 {
            assert(acc <= target) by (nonlinear_arith)
                requires
                    acc * tot <= target * tot,
                    tot > 0,
            ;
        } else {
            assert(ws@.len() == 0);
            assert(acc * tot <= target * weight_sum(ws@.take(0)));
        }
    }
    (out, Some(acc))
}

/// What a pool pays out for `elapsed` seconds: nothing when its weights or
/// its reward could not be read.
pub open spec fn pool_payouts(p: PoolInput, elapsed: int) -> Seq<AssetView> {
    match (p.weights, p.reward_per_sec) {
        (Some(ws), Some(r)) => payouts_from(r * elapsed, weight_sum(ws@), ws@, 0),
        _ => Seq::empty(),
    }
}

/// The reward a pool reports to the staking contract, `None` when its
/// distribution failed.
pub open spec fn pool_reward(p: PoolInput, elapsed: int) -> Option<AssetView> {
    match (p.weights, p.reward_per_sec) {
        (Some(ws), Some(r)) => match paid_from(r * elapsed, weight_sum(ws@), ws@, 0) {
            Some(s) => Some(AssetView { info: p.asset@, amount: s as u128 }),
            None => None,
        },
        _ => None,
    }
}

/// All payouts of the pools, in order.
pub open spec fn all_payouts(pools: Seq<PoolInput>, elapsed: int) -> Seq<AssetView>
    decreases pools.len(),
{
    if pools.len() == 0 {
        Seq::empty()
    } else {
        all_payouts(pools.drop_last(), elapsed) + pool_payouts(pools.last(), elapsed)
    }
}

/// The rewards of the pools whose distribution succeeded, in order.
pub open spec fn all_rewards(pools: Seq<PoolInput>, elapsed: int) -> Seq<AssetView>
    decreases pools.len(),
{
    if pools.len() == 0 {
        Seq::empty()
    } else {
        match pool_reward(pools.last(), elapsed) {
            Some(a) => all_rewards(pools.drop_last(), elapsed).push(a),
            None => all_rewards(pools.drop_last(), elapsed),
        }
    }
}

/// Whether every pool's distribution stays within machine integers.
pub open spec fn pools_fit(pools: Seq<PoolInput>, elapsed: int) -> bool {
    forall|i: int|
        0 <= i < pools.len() ==> match ((#[trigger] pools[i]).weights, pools[i].reward_per_sec) {
            (Some(ws), Some(r)) => r * elapsed <= u128::MAX && pool_fits(r * elapsed, ws@),
            _ => true,
        }
}

/// A distribution at `now`: refused before the interval has passed since
/// the last one. Otherwise each pool pays its reward per second for the
/// seconds elapsed, split by weight; a pool whose weights or reward cannot
/// be read, or where some part is zero, reports no reward, though the
/// payouts before that part stand.
pub fn distribute(now: u64, last_distributed: u64, pools: &Vec<PoolInput>) -> (r: Result<(Vec<Asset>, Vec<Asset>), DistributorError>)
    requires
        last_distributed + DISTRIBUTION_INTERVAL <= u64::MAX,
        last_distributed + DISTRIBUTION_INTERVAL <= now ==> pools_fit(pools@, now - last_distributed),
    ensures
        r is Err <==> last_distributed + DISTRIBUTION_INTERVAL > now,
        r matches Err(e) ==> e == DistributorError::TooEarly,
        r matches Ok((payouts, rewards)) ==> {
            &&& payouts@.len() == all_payouts(pools@, now - last_distributed).len()
            &&& forall|k: int|
                0 <= k < payouts@.len() ==> (#[trigger] payouts@[k])@ == all_payouts(pools@, now - last_distributed)[k]
            &&& rewards@.len() == all_rewards(pools@, now - last_distributed).len()
            &&& forall|k: int|
                0 <= k < rewards@.len() ==> (#[trigger] rewards@[k])@ == all_rewards(pools@, now - last_distributed)[k]
        },
{
    if last_distributed + DISTRIBUTION_INTERVAL > now {
        return Err(DistributorError::TooEarly);
    }
    let elapsed = now - last_distributed;
    let ghost el = elapsed as int;
    let mut payouts: Vec<Asset> = Vec::new();
    let mut rewards: Vec<Asset> = Vec::new();
    let mut i: usize = 0;
    while i < pools.len()
        invariant
            i <= pools@.len(),
            el == elapsed,
            pools_fit(pools@, el),
            payouts@.len() == all_payouts(pools@.take(i as int), el).len(),
            forall|k: int|
                0 <= k < payouts@.len() ==> (#[trigger] payouts@[k])@ == all_payouts(pools@.take(i as int), el)[k],
            rewards@.len() == all_rewards(pools@.take(i as int), el).len(),
            forall|k: int|
                0 <= k < rewards@.len() ==> (#[trigger] rewards@[k])@ == all_rewards(pools@.take(i as int), el)[k],
        decreases pools@.len() - i,
    {
        let p = &pools[i];
        proof {
            assert(pools@.take(i as int + 1).drop_last() =~= pools@.take(i as int));
            assert(pools@.take(i as int + 1).last() == pools@[i as int]);
        }
        match (&p.weights, p.reward_per_sec) {
            (Some(ws), Some(rate)) => {
                assert(rate * el <= u128::MAX);
                let target = rate * (elapsed as u128);
                let (out, total) = distribute_pool(target, ws);
                let ghost before = payouts@;
                let mut k: usize = 0;
                while k < out.len()
                    invariant
                        k <= out@.len(),
                        payouts@.len() == before.len() + k,
                        forall|m: int| 0 <= m < before.len() ==> payouts@[m] == before[m],
                        forall|m: int| 0 <= m < k ==> (#[trigger] payouts@[before.len() + m])@ == out@[m]@,
                    decreases out@.len() - k,
                {
                    payouts.push(out[k].duplicate());
                    k = k + 1;
                }
                proof {
                    let whole = all_payouts(pools@.take(i as int + 1), el);
                    let prev = all_payouts(pools@.take(i as int), el);
                    assert(whole =~= prev + pool_payouts(pools@[i as int], el));
                    let pp = pool_payouts(pools@[i as int], el);
                    assert(pp =~= payouts_from(target as int, weight_sum(ws@), ws@, 0));
                    assert forall|m: int| 0 <= m < payouts@.len() implies (#[trigger] payouts@[m])@ == whole[m] by {
                        if m < before.len() {
                            assert(payouts@[m] == before[m]);
                            assert(whole[m] == prev[m]);
                        } else {
                            let q = m - before.len();
                            assert(payouts@[before.len() + q]@ == out@[q]@);
                            assert(out@[q]@ == pp[q]);
                            assert(whole[m] == pp[q]);
                        }
                    }
                }
                match total {
                    Some(s) => {
                        rewards.push(Asset { info: p.asset.duplicate(), amount: s });
                    },
                    None => {},
                }
            },
            _ => {
                proof {
                    assert(all_payouts(pools@.take(i as int + 1), el) =~= all_payouts(pools@.take(i as int), el));
                }
            },
        }
        i = i + 1;
    }
    proof {
        assert(pools@.take(pools@.len() as int) =~= pools@);
    }
    Ok((payouts, rewards))
}

/// The distributor's settings.
#[derive(Clone, Debug)]
pub struct Config {
    pub owner: String,
    pub staking_contract: String,
    pub token_code_id: u64,
    pub base_denom: String,
    pub genesis_time: u64,
    /// `(start_time, end_time, amount)` entries.
    pub distribution_schedule: Vec<(u64, u64, u128)>,
}

/// The owner sets the reward rate per second of the pools it names, and
/// only the owner: the rates to store come back as they were given.
pub fn update_reward_per_sec(
    config: &Config,
    sender: &str,
    reward_per_sec: Vec<(AssetInfo, u128)>,
) -> (r: Result<Vec<(AssetInfo, u128)>, DistributorError>)
    ensures
        config.owner@ != sender@ ==> r == Err::<Vec<(AssetInfo, u128)>, DistributorError>(
            DistributorError::Unauthorized,
        ),
        config.owner@ == sender@ ==> r == Ok::<Vec<(AssetInfo, u128)>, DistributorError>(reward_per_sec),
{
    if !crate::text::text_eq(config.owner.as_str(), sender) {
        return Err(DistributorError::Unauthorized);
    }
    Ok(reward_per_sec)
}

/// The owner changes the settings it is given, and only the owner.
pub fn update_config(
    config: Config,
    sender: &str,
    owner: Option<String>,
    token_code_id: Option<u64>,
    distribution_schedule: Option<Vec<(u64, u64, u128)>>,
) -> (r: Result<Config, DistributorError>)
    ensures
        config.owner@ != sender@ ==> r is Err && r->Err_0 == DistributorError::Unauthorized,
        config.owner@ == sender@ ==> (r matches Ok(c) && {
            &&& c.owner == (match owner {
                Some(o) => o,
                None => config.owner,
            })
            &&& c.token_code_id == (match token_code_id {
                Some(t) => t,
                None => config.token_code_id,
            })
            &&& c.distribution_schedule == (match distribution_schedule {
                Some(d) => d,
                None => config.distribution_schedule,
            })
            &&& c.staking_contract == config.staking_contract
            &&& c.base_denom == config.base_denom
            &&& c.genesis_time == config.genesis_time
        }),
{
    if !crate::text::text_eq(config.owner.as_str(), sender) {
        return Err(DistributorError::Unauthorized);
    }
    let mut c = config;
    match owner {
        Some(o) => {
            c.owner = o;
        },
        None => {},
    }
    match distribution_schedule {
        Some(d) => {
            c.distribution_schedule = d;
        },
        None => {},
    }
    match token_code_id {
        Some(t) => {
            c.token_code_id = t;
        },
        None => {},
    }
    Ok(c)
}

} // verus!
