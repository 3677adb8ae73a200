//! The mixed router: a chain of swaps over pairs and concentrated pools,
//! the check that it ends in one token, and the split of what it yields
//! between the affiliates and the receiver.
use vstd::prelude::*;
use crate::asset::{Asset, AssetInfo, AssetInfoView};
use crate::math::{mul_ratio, multiply_ratio};
use crate::text::text_eq;

verus! {

#[derive(Clone, Debug, PartialEq, Eq)]
pub enum RouterError {
    NoSwapOperation,
    /// The operations end in more than one token, or in none.
    MultipleOutputToken,
    Unauthorized,
    PoolWhitelisted,
    SwapAssertionFailure { minimum_receive: u128, swap_amount: u128 },
    Overflow,
}

/// One swap: over a pair, or over a concentrated pool in one direction.
/// The pool's tokens are given as assets.
#[derive(Clone, Debug)]
pub enum SwapOperation {
    OraiSwap { offer_asset_info: AssetInfo, ask_asset_info: AssetInfo },
    SwapV3 { token_x: AssetInfo, token_y: AssetInfo, x_to_y: bool },
}

impl SwapOperation {
    pub fn duplicate(&self) -> (r: SwapOperation)
        ensures
            r == *self,
    {
        match self {
            SwapOperation::OraiSwap { offer_asset_info, ask_asset_info } => SwapOperation::OraiSwap {
                offer_asset_info: offer_asset_info.duplicate(),
                ask_asset_info: ask_asset_info.duplicate(),
            },
            SwapOperation::SwapV3 { token_x, token_y, x_to_y } => SwapOperation::SwapV3 {
                token_x: token_x.duplicate(),
                token_y: token_y.duplicate(),
                x_to_y: *x_to_y,
            },
        }
    }
}

/// What an operation offers and what it asks.
pub open spec fn op_assets(op: SwapOperation) -> (AssetInfoView, AssetInfoView) {
    match op {
        SwapOperation::OraiSwap { offer_asset_info, ask_asset_info } => (offer_asset_info@, ask_asset_info@),
        SwapOperation::SwapV3 { token_x, token_y, x_to_y } => if x_to_y {
            (token_x@, token_y@)
        } else {
            (token_y@, token_x@)
        },
    }
}

/// The offered and asked token of a pool swap: x for y, or y for x.
pub fn get_swap_v3_asset_info(token_x: &AssetInfo, token_y: &AssetInfo, x_to_y: bool) -> (r: (AssetInfo, AssetInfo))
    ensures
        x_to_y ==> r.0@ == token_x@ && r.1@ == token_y@,
        !x_to_y ==> r.0@ == token_y@ && r.1@ == token_x@,
{
    if x_to_y {
        (token_x.duplicate(), token_y.duplicate())
    } else {
        (token_y.duplicate(), token_x.duplicate())
    }
}

pub fn operation_assets(op: &SwapOperation) -> (r: (AssetInfo, AssetInfo))
    ensures
        (r.0@, r.1@) == op_assets(*op),
{
    match op {
        SwapOperation::OraiSwap { offer_asset_info, ask_asset_info } => (
            offer_asset_info.duplicate(),
            ask_asset_info.duplicate(),
        ),
        SwapOperation::SwapV3 { token_x, token_y, x_to_y } => get_swap_v3_asset_info(token_x, token_y, *x_to_y),
    }
}

/// The tokens asked and not offered again later, by name, after the
/// operations in order.
pub open spec fn ask_set(ops: Seq<SwapOperation>) -> Set<Seq<char>>
    decreases ops.len(),
{
    if ops.len() == 0 {
        Set::empty()
    } else {
        ask_set(ops.drop_last()).remove(op_assets(ops.last()).0.name()).insert(op_assets(ops.last()).1.name())
    }
}

/// The operations must end in exactly one token.
pub fn assert_operations(ops: &Vec<SwapOperation>) -> (r: Result<(), RouterError>)
    ensures
        r is Ok <==> ask_set(ops@).len() == 1,
        r matches Err(e) ==> e == RouterError::MultipleOutputToken,
{
    let mut keys: Vec<String> = Vec::new();
    let ghost mut gk: Seq<Seq<char>> = Seq::empty();
    let mut i: usize = 0;
    while i < ops.len()
        invariant
            i <= ops@.len(),
            gk.len() == keys@.len(),
            forall|k: int| 0 <= k < gk.len() ==> gk[k] == (#[trigger] keys@[k])@,
            gk.no_duplicates(),
            gk.to_set() == ask_set(ops@.take(i as int)),
        decreases ops@.len() - i,
    {
        let (offer, ask) = operation_assets(&ops[i]);
        let o = offer.name();
        let a = ask.name();
        proof {
            assert(ops@.take(i as int + 1).drop_last() =~= ops@.take(i as int));
            assert(ops@.take(i as int + 1).last() == ops@[i as int]);
        }
        let ghost before = gk.to_set();
        let mut j: usize = 0;
        let mut found: Option<usize> = None;
        while j < keys.len()
            invariant
                j <= keys@.len(),
                gk.len() == keys@.len(),
                forall|k: int| 0 <= k < gk.len() ==> gk[k] == (#[trigger] keys@[k])@,
                found matches Some(f) ==> f < keys@.len() && gk[f as int] == o@,
                found is None ==> forall|k: int| 0 <= k < j ==> gk[k] != o@,
            decreases keys@.len() - j,
        {
            if found.is_none() && text_eq(keys[j].as_str(), o.as_str()) {
                found = Some(j);
            }
            j = j + 1;
        }
        match found {
            Some(f) => {
                keys.remove(f);
                proof {
                    let old_gk = gk;
                    gk = gk.remove(f as int);
                    assert(gk.to_set() =~= before.remove(o@)) by {
                        assert forall|x: Seq<char>| gk.contains(x) <==> (old_gk.contains(x) && x != o@) by {
                            if gk.contains(x) {
                                let k = choose|k: int| 0 <= k < gk.len() && gk[k] == x;
                                if k < f {
                                    assert(old_gk[k] == x);
                                } else {
                                    assert(old_gk[k + 1] == x);
                                }
                            }
                            if old_gk.contains(x) && x != o@ {
                                let k = choose|k: int| 0 <= k < old_gk.len() && old_gk[k] == x;
                                if k < f {
                                    assert(gk[k] == x);
                                } else {
                                    assert(k != f);
                                    assert(gk[k - 1] == x);
                                }
                            }
                        }
                    }
                }
            },
            None => {
                proof {
                    assert(gk.to_set() =~= before.remove(o@));
                }
            },
        }
        let ghost mid = gk.to_set();
        let mut present = false;
        let mut m: usize = 0;
        while m < keys.len()
            invariant
                m <= keys@.len(),
                gk.len() == keys@.len(),
                forall|k: int| 0 <= k < gk.len() ==> gk[k] == (#[trigger] keys@[k])@,
                present ==> gk.contains(a@),
                !present ==> forall|k: int| 0 <= k < m ==> gk[k] != a@,
            decreases keys@.len() - m,
        {
            if text_eq(keys[m].as_str(), a.as_str()) {
                present = true;
            }
            m = m + 1;
        }
        if !present {
            keys.push(a);
            proof {
                let old_gk = gk;
                gk = gk.push(a@);
                assert(!old_gk.contains(a@));
                assert forall|x: Seq<char>| gk.contains(x) <==> (old_gk.contains(x) || x == a@) by {
                    if gk.contains(x) {
                        let k = choose|k: int| 0 <= k < gk.len() && gk[k] == x;
                        if k < old_gk.len() {
                            assert(old_gk[k] == x);
                        }
                    }
                    if old_gk.contains(x) {
                        let k = choose|k: int| 0 <= k < old_gk.len() && old_gk[k] == x;
                        assert(gk[k] == x);
                    }
                    if x == a@ {
                        assert(gk[old_gk.len() as int] == x);
                    }
                }
                assert(gk.to_set() =~= mid.insert(a@));
            }
        } else {
            proof {
                assert(gk.to_set() =~= mid.insert(a@));
            }
        }
        i = i + 1;
    }
    proof {
        assert(ops@.take(ops@.len() as int) =~= ops@);
        gk.unique_seq_to_set();
    }
    if keys.len() != 1 {
        return Err(RouterError::MultipleOutputToken);
    }
    Ok(())
}

/// A call the router makes on itself.
pub enum RouterCall {
    /// Run one swap for the sender, the output staying with the router.
    ExecuteSwapOperation { operation: SwapOperation, sender: String },
    /// Check the output of the chain, pay the affiliates and the receiver.
    AssertMinimumReceiveAndTransfer {
        asset_info: AssetInfo,
        minimum_receive: u128,
        receiver: String,
        affiliates: Vec<Affiliate>,
    },
}

/// What a chain of swaps is set up with: who receives, the token it ends
/// in, the least amount accepted, and the calls the router makes on itself.
pub struct SwapPlan {
    pub receiver: String,
    pub target: AssetInfo,
    pub minimum_receive: u128,
    pub calls: Vec<RouterCall>,
}

/// Setting up a chain of swaps: there must be some, ending in one token;
/// the receiver is the sender unless another is given, and the minimum is
/// zero unless given. The router then calls itself once per operation, in
/// order, and last to check the minimum and pay out.
pub fn execute_swap_operations(
    ops: &Vec<SwapOperation>,
    sender: String,
    to: Option<String>,
    minimum_receive: Option<u128>,
    affiliates: Vec<Affiliate>,
) -> (r: Result<SwapPlan, RouterError>)
    ensures
        ops@.len() == 0 ==> r is Err && r->Err_0 == RouterError::NoSwapOperation,
        ops@.len() > 0 && ask_set(ops@).len() != 1 ==> r is Err && r->Err_0 == RouterError::MultipleOutputToken,
        ops@.len() > 0 && ask_set(ops@).len() == 1 ==> r is Ok,
        r matches Ok(p) ==> {
            &&& p.receiver == (match to {
                Some(t) => t,
                None => sender,
            })
            &&& p.target@ == op_assets(ops@.last()).1
            &&& p.minimum_receive == (match minimum_receive {
                Some(m) => m,
                None => 0,
            })
            &&& p.calls@.len() == ops@.len() + 1
            &&& forall|i: int| 0 <= i < ops@.len() ==> #[trigger] p.calls@[i] == (RouterCall::ExecuteSwapOperation {
                operation: ops@[i],
                sender,
            })
            &&& p.calls@[ops@.len() as int] == (RouterCall::AssertMinimumReceiveAndTransfer {
                asset_info: p.target,
                minimum_receive: p.minimum_receive,
                receiver: p.receiver,
                affiliates,
            })
        },
{
    if ops.len() == 0 {
        return Err(RouterError::NoSwapOperation);
    }
    match assert_operations(ops) {
        Err(e) => return Err(e),
        Ok(()) => {},
    }
    let mut calls: Vec<RouterCall> = Vec::new();
    let mut i: usize = 0;
    while i < ops.len()
        invariant
            i <= ops@.len(),
            calls@.len() == i,
            forall|k: int| 0 <= k < i ==> #[trigger] calls@[k] == (RouterCall::ExecuteSwapOperation {
                operation: ops@[k],
                sender,
            }),
        decreases ops@.len() - i,
    {
        calls.push(RouterCall::ExecuteSwapOperation { operation: ops[i].duplicate(), sender: sender.clone() });
        i = i + 1;
    }
    let receiver = match to {
        Some(t) => t,
        None => sender,
    };
    let (_, target) = operation_assets(&ops[ops.len() - 1]);
    let minimum_receive = match minimum_receive {
        Some(m) => m,
        None => 0,
    };
    calls.push(RouterCall::AssertMinimumReceiveAndTransfer {
        asset_info: target.duplicate(),
        minimum_receive,
        receiver: receiver.clone(),
        affiliates,
    });
    Ok(SwapPlan { receiver, target, minimum_receive, calls })
}

/// A single swap is run by the router on itself only.
pub fn swap_operation_check(sender_is_router: bool, whitelisted: bool) -> (r: Result<(), RouterError>)
    ensures
        !sender_is_router ==> r == Err::<(), RouterError>(RouterError::Unauthorized),
        sender_is_router && !whitelisted ==> r == Err::<(), RouterError>(RouterError::PoolWhitelisted),
        sender_is_router && whitelisted ==> r is Ok,
{
    if !sender_is_router {
        return Err(RouterError::Unauthorized);
    }
    if !whitelisted {
        return Err(RouterError::PoolWhitelisted);
    }
    Ok(())
}

/// `amount - tax`, refused when the tax is larger.
pub fn deduct_tax(amount: u128, tax: u128) -> (r: Result<u128, RouterError>)
    ensures
        tax <= amount ==> r == Ok::<u128, RouterError>((amount - tax) as u128),
        tax > amount ==> r == Err::<u128, RouterError>(RouterError::Overflow),
{
    if tax > amount {
        Err(RouterError::Overflow)
    } else {
        Ok(amount - tax)
    }
}

/// A simulation of a chain of swaps needs some.
pub fn simulate_swap_operations_check(ops: &Vec<SwapOperation>) -> (r: Result<(), RouterError>)
    ensures
        r is Ok <==> ops@.len() > 0,
        r is Err ==> r == Err::<(), RouterError>(RouterError::NoSwapOperation),
{
    if ops.len() == 0 {
        Err(RouterError::NoSwapOperation)
    } else {
        Ok(())
    }
}

/// One step of a simulated chain: what comes out of `op` for
/// `offer_amount`. Over a pair, the tax on the offer (`tax_in`) is taken
/// before the pool is asked, and the tax on what it returns (`tax_out`)
/// after; a tax larger than its amount is refused. A concentrated pool's
/// quote is taken as it is.
pub fn simulate_step(op: &SwapOperation, offer_amount: u128, tax_in: u128, pool_return: u128, tax_out: u128) -> (r: Result<
    u128,
    RouterError,
>)
    ensures
        op is OraiSwap && tax_in > offer_amount ==> r == Err::<u128, RouterError>(RouterError::Overflow),
        op is OraiSwap && tax_in <= offer_amount && tax_out > pool_return ==> r == Err::<u128, RouterError>(
            RouterError::Overflow,
        ),
        op is OraiSwap && tax_in <= offer_amount && tax_out <= pool_return ==> r == Ok::<u128, RouterError>(
            (pool_return - tax_out) as u128,
        ),
        op is SwapV3 ==> r == Ok::<u128, RouterError>(pool_return),
{
    match op {
        SwapOperation::OraiSwap { .. } => {
            deduct_tax(offer_amount, tax_in)?;
            deduct_tax(pool_return, tax_out)
        },
        SwapOperation::SwapV3 { .. } => Ok(pool_return),
    }
}

/// What a swap over a pair offers: native coins less their tax, which must
/// not exceed them; cw20 tokens whole.
pub fn swap_offer_amount(offer: &Asset, tax: u128) -> (r: Result<u128, RouterError>)
    ensures
        !offer.info@.is_native() ==> r == Ok::<u128, RouterError>(offer.amount),
        offer.info@.is_native() && tax <= offer.amount ==> r == Ok::<u128, RouterError>((offer.amount - tax) as u128),
        offer.info@.is_native() && tax > offer.amount ==> r == Err::<u128, RouterError>(RouterError::Overflow),
{
    if offer.info.is_native_token() {
        deduct_tax(offer.amount, tax)
    } else {
        Ok(offer.amount)
    }
}

/// A swap of a cw20 token over a concentrated pool is preceded by an
/// allowance of the balance to the pool; native coins are sent along.
pub fn v3_swap_needs_allowance(offer: &AssetInfo) -> (r: bool)
    ensures
        r == !offer@.is_native(),
{
    !offer.is_native_token()
}

/// An affiliate and its fee in basis points of what the swap yields.
#[derive(Clone, Debug, PartialEq, Eq)]
pub struct Affiliate {
    pub address: String,
    pub basis_points_fee: u128,
}

/// A payment of the swap's output.
#[derive(Clone, Debug, PartialEq, Eq)]
pub struct Payout {
    pub address: String,
    pub amount: u128,
}

/// An affiliate's fee: its basis points of the balance, rounded down.
pub open spec fn fee_of(balance: u128, bps: u128) -> int {
    mul_ratio(balance as int, bps as int, 10000)
}

/// The fees paid to affiliates in order, the zero ones left out.
pub open spec fn spec_fees(balance: u128, affs: Seq<Affiliate>) -> Seq<(Seq<char>, int)>
    decreases affs.len(),
{
    if affs.len() == 0 {
        Seq::empty()
    } else if fee_of(balance, affs.last().basis_points_fee) > 0 {
        spec_fees(balance, affs.drop_last()).push((affs.last().address@, fee_of(balance, affs.last().basis_points_fee)))
    } else {
        spec_fees(balance, affs.drop_last())
    }
}

/// The sum of the affiliates' fees.
pub open spec fn fee_total(balance: u128, affs: Seq<Affiliate>) -> int
    decreases affs.len(),
{
    if affs.len() == 0 {
        0
    } else {
        fee_total(balance, affs.drop_last()) + fee_of(balance, affs.last().basis_points_fee)
    }
}

/// The sum of the basis points.
pub open spec fn bps_total(affs: Seq<Affiliate>) -> int
    decreases affs.len(),
{
    if affs.len() == 0 {
        0
    } else {
        bps_total(affs.drop_last()) + affs.last().basis_points_fee
    }
}

/// Whether every fee's product fits.
pub open spec fn fees_fit(balance: u128, affs: Seq<Affiliate>) -> bool {
    forall|i: int| 0 <= i < affs.len() ==> fee_of(balance, (#[trigger] affs[i]).basis_points_fee) <= u128::MAX
}

/// The end of a chain of swaps: the balance must reach the minimum. Each
/// affiliate with a positive fee is paid it, in order; the receiver gets
/// the rest when the fees leave any. The fees' total must fit.
pub fn assert_minimum_receive_and_transfer(
    balance: u128,
    minimum_receive: u128,
    affiliates: &Vec<Affiliate>,
    receiver: String,
) -> (r: Result<Vec<Payout>, RouterError>)
    requires
        fees_fit(balance, affiliates@),
    ensures
        balance < minimum_receive ==> r == Err::<Vec<Payout>, RouterError>(
            RouterError::SwapAssertionFailure { minimum_receive, swap_amount: balance },
        ),
        balance >= minimum_receive && fee_total(balance, affiliates@) > u128::MAX ==> r == Err::<
            Vec<Payout>,
            RouterError,
        >(RouterError::Overflow),
        balance >= minimum_receive && fee_total(balance, affiliates@) <= u128::MAX ==> r is Ok,
        r matches Ok(out) ==> {
            let fees = spec_fees(balance, affiliates@);
            let rest = balance - fee_total(balance, affiliates@);
            &&& out@.len() == fees.len() + (if rest > 0 { 1int } else { 0int })
            &&& forall|k: int|
                0 <= k < fees.len() ==> (#[trigger] out@[k]).address@ == fees[k].0 && out@[k].amount == fees[k].1
            &&& rest > 0 ==> out@[fees.len() as int].address == receiver && out@[fees.len() as int].amount == rest
        },
{
    if balance < minimum_receive {
        return Err(RouterError::SwapAssertionFailure { minimum_receive, swap_amount: balance });
    }
    let mut out: Vec<Payout> = Vec::new();
    let mut total: u128 = 0;
    let mut i: usize = 0;
    while i < affiliates.len()
        invariant
            i <= affiliates@.len(),
            balance >= minimum_receive,
            fees_fit(balance, affiliates@),
            total == fee_total(balance, affiliates@.take(i as int)),
            out@.len() == spec_fees(balance, affiliates@.take(i as int)).len(),
            forall|k: int|
                0 <= k < out@.len() ==> (#[trigger] out@[k]).address@ == spec_fees(
                    balance,
                    affiliates@.take(i as int),
                )[k].0 && out@[k].amount == spec_fees(balance, affiliates@.take(i as int))[k].1,
        decreases affiliates@.len() - i,
    {
        let a = &affiliates[i];
        proof {
            assert(affiliates@.take(i as int + 1).drop_last() =~= affiliates@.take(i as int));
            assert(affiliates@.take(i as int + 1).last() == affiliates@[i as int]);
            assert(fee_of(balance, affiliates@[i as int].basis_points_fee) <= u128::MAX);
        }
        let fee = multiply_ratio(balance, a.basis_points_fee, 10000);
        if fee > 0 {
            match total.checked_add(fee) {
                None => {
                    proof {
                        lemma_fee_total_monotone(balance, affiliates@, i as int + 1);
                    }
                    return Err(RouterError::Overflow);
                },
                Some(t) => {
                    total = t;
                },
            }
            out.push(Payout { address: a.address.clone(), amount: fee });
        }
        i = i + 1;
    }
    proof {
        assert(affiliates@.take(affiliates@.len() as int) =~= affiliates@);
    }
    if total < balance {
        out.push(Payout { address: receiver, amount: balance - total });
    }
    Ok(out)
}

proof fn lemma_fee_total_monotone(balance: u128, affs: Seq<Affiliate>, j: int)
    requires
        0 <= j <= affs.len(),
    ensures
        fee_total(balance, affs.take(j)) <= fee_total(balance, affs),
    decreases affs.len(),
{
    if affs.len() > 0 {
        if j == affs.len() {
            assert(affs.take(j) =~= affs);
        } else {
            lemma_fee_total_monotone(balance, affs.drop_last(), j);
            assert(affs.drop_last().take(j) =~= affs.take(j));
        }
    } else {
        assert(affs.take(j) =~= affs);
    }
}

proof fn lemma_fee_total_bound(balance: u128, affs: Seq<Affiliate>)
    requires
        forall|i: int| 0 <= i < affs.len() ==> (#[trigger] affs[i]).basis_points_fee >= 0,
    ensures
        fee_total(balance, affs) * 10000 <= balance * bps_total(affs),
    decreases affs.len(),
{
    if affs.len() > 0 {
        let rest = affs.drop_last();
        assert forall|i: int| 0 <= i < rest.len() implies (#[trigger] rest[i]).basis_points_fee >= 0 by {
            assert(rest[i] == affs[i]);
        }
        lemma_fee_total_bound(balance, rest);
        let f = fee_of(balance, affs.last().basis_points_fee);
        let b = affs.last().basis_points_fee;
        assert(f * 10000 <= balance * b) by (nonlinear_arith)
            requires
                f == balance * b / 10000,
                balance >= 0,
                b >= 0,
        ;
        assert((fee_total(balance, rest) + f) * 10000 <= balance * (bps_total(rest) + b)) by (nonlinear_arith)
            requires
                fee_total(balance, rest) * 10000 <= balance * bps_total(rest),
                f * 10000 <= balance * b,
        ;
    }
}

/// With fees of at most 10000 basis points in all, the payouts of a swap's
/// output add up to exactly the output: what the affiliates do not take
/// goes to the receiver, and nothing is paid twice.
pub proof fn lemma_output_conserved(balance: u128, affs: Seq<Affiliate>)
    requires
        bps_total(affs) <= 10000,
    ensures
        fee_total(balance, affs) <= balance,
        fee_total(balance, affs) + (balance - fee_total(balance, affs)) == balance,
{
    lemma_fee_total_bound(balance, affs);
    let t = fee_total(balance, affs);
    let s = bps_total(affs);
    assert(balance * s <= balance * 10000) by (nonlinear_arith)
        requires
            s <= 10000,
            balance >= 0,
    ;
    assert(t <= balance) by (nonlinear_arith)
        requires
            t * 10000 <= balance * 10000,
    ;
}

/// The sum of the zero-free fees equals the sum of all fees.
pub proof fn lemma_paid_fees_total(balance: u128, affs: Seq<Affiliate>)
    ensures
        sum_paid(spec_fees(balance, affs)) == fee_total(balance, affs),
    decreases affs.len(),
{
    if affs.len() > 0 {
        lemma_paid_fees_total(balance, affs.drop_last());
        let prev = spec_fees(balance, affs.drop_last());
        if fee_of(balance, affs.last().basis_points_fee) > 0 {
            let next = prev.push((affs.last().address@, fee_of(balance, affs.last().basis_points_fee)));
            assert(next.drop_last() =~= prev);
        }
    }
}

/// The sum of the amounts of a list of fees.
pub open spec fn sum_paid(s: Seq<(Seq<char>, int)>) -> int
    decreases s.len(),
{
    if s.len() == 0 {
        0
    } else {
        sum_paid(s.drop_last()) + s.last().1
    }
}

/// The router's settings.
#[derive(Clone, Debug, PartialEq, Eq)]
pub struct Config {
    pub factory_addr: String,
    pub factory_addr_v2: String,
    pub oraiswap_v3: String,
    pub owner: String,
}

/// The owner changes the settings it is given, and only the owner.
pub fn execute_update_config(
    config: Config,
    sender: &str,
    factory_addr: Option<String>,
    factory_addr_v2: Option<String>,
    oraiswap_v3: Option<String>,
    owner: Option<String>,
) -> (r: Result<Config, RouterError>)
    ensures
        config.owner@ != sender@ ==> r == Err::<Config, RouterError>(RouterError::Unauthorized),
        config.owner@ == sender@ ==> r == Ok::<Config, RouterError>(
            Config {
                factory_addr: match factory_addr {
                    Some(v) => v,
                    None => config.factory_addr,
                },
                factory_addr_v2: match factory_addr_v2 {
                    Some(v) => v,
                    None => config.factory_addr_v2,
                },
                oraiswap_v3: match oraiswap_v3 {
                    Some(v) => v,
                    None => config.oraiswap_v3,
                },
                owner: match owner {
                    Some(v) => v,
                    None => config.owner,
                },
            },
        ),
{
    if !text_eq(config.owner.as_str(), sender) {
        return Err(RouterError::Unauthorized);
    }
    let mut c = config;
    match factory_addr {
        Some(v) => {
            c.factory_addr = v;
        },
        None => {},
    }
    match factory_addr_v2 {
        Some(v) => {
            c.factory_addr_v2 = v;
        },
        None => {},
    }
    match oraiswap_v3 {
        Some(v) => {
            c.oraiswap_v3 = v;
        },
        None => {},
    }
    match owner {
        Some(v) => {
            c.owner = v;
        },
        None => {},
    }
    Ok(c)
}

} // verus!
