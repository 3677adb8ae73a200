//! The pair factory: the key a pair is kept under, the listing of pairs,
//! and the checks of creating and registering one.
use vstd::prelude::*;
use crate::asset::AssetInfo;

verus! {

/// The commission rate of a pair when none is given.
pub const DEFAULT_COMMISSION_RATE: &'static str = "0.003";

#[derive(Clone, Debug, PartialEq, Eq)]
pub enum FactoryError {
    Unauthorized,
    PairExisted,
    PairRegistered,
}

/// Whether `a` comes before `b` in the order of their bytes.
pub open spec fn bytes_lt(a: Seq<u8>, b: Seq<u8>) -> bool
    decreases a.len(),
{
    if a.len() == 0 {
        b.len() > 0
    } else if b.len() == 0 {
        false
    } else if a[0] != b[0] {
        a[0] < b[0]
    } else {
        bytes_lt(a.drop_first(), b.drop_first())
    }
}

/// Of two different byte strings exactly one comes first.
pub proof fn lemma_bytes_order(a: Seq<u8>, b: Seq<u8>)
    ensures
        !(bytes_lt(a, b) && bytes_lt(b, a)),
        a != b ==> bytes_lt(a, b) || bytes_lt(b, a),
        a == b ==> !bytes_lt(a, b),
    decreases a.len(),
{
    if a.len() > 0 && b.len() > 0 && a[0] == b[0] {
        lemma_bytes_order(a.drop_first(), b.drop_first());
        if a != b {
            assert(a.drop_first() != b.drop_first()) by {
                if a.drop_first() == b.drop_first() {
                    assert(a =~= seq![a[0]] + a.drop_first());
                    assert(b =~= seq![b[0]] + b.drop_first());
                }
            }
        }
    } else if a.len() == 0 && b.len() == 0 {
        assert(a =~= b);
    }
}

proof fn lemma_bytes_lt_skip(a: Seq<u8>, b: Seq<u8>, i: int)
    requires
        0 <= i,
        i <= a.len(),
        i <= b.len(),
        forall|k: int| 0 <= k < i ==> a[k] == b[k],
    ensures
        bytes_lt(a, b) == bytes_lt(a.subrange(i, a.len() as int), b.subrange(i, b.len() as int)),
    decreases i,
{
    if i > 0 {
        let a1 = a.drop_first();
        let b1 = b.drop_first();
        assert forall|k: int| 0 <= k < i - 1 implies a1[k] == b1[k] by {
            assert(a1[k] == a[k + 1]);
            assert(b1[k] == b[k + 1]);
        }
        lemma_bytes_lt_skip(a1, b1, i - 1);
        assert(a1.subrange(i - 1, a1.len() as int) =~= a.subrange(i, a.len() as int));
        assert(b1.subrange(i - 1, b1.len() as int) =~= b.subrange(i, b.len() as int));
    } else {
        assert(a.subrange(0, a.len() as int) =~= a);
        assert(b.subrange(0, b.len() as int) =~= b);
    }
}

/// Whether `a` sorts before `b`, byte by byte.
pub fn bytes_less(a: &Vec<u8>, b: &Vec<u8>) -> (r: bool)
    ensures
        r == bytes_lt(a@, b@),
{
    let n = a.len();
    let m = b.len();
    let mut i: usize = 0;
    while i < n && i < m
        invariant
            n == a@.len(),
            m == b@.len(),
            i <= n,
            i <= m,
            forall|k: int| 0 <= k < i ==> a@[k] == b@[k],
        decreases n - i,
    {
        if a[i] != b[i] {
            proof {
                lemma_bytes_lt_skip(a@, b@, i as int);
                assert(a@.subrange(i as int, n as int)[0] == a@[i as int]);
                assert(b@.subrange(i as int, m as int)[0] == b@[i as int]);
            }
            return a[i] < b[i];
        }
        i = i + 1;
    }
    proof {
        lemma_bytes_lt_skip(a@, b@, i as int);
        assert(a@.subrange(i as int, n as int).len() == n - i);
        assert(b@.subrange(i as int, m as int).len() == m - i);
    }
    i < m
}

/// The key of the pair of two assets, by their raw bytes: the two in byte
/// order, one after the other.
pub open spec fn spec_pair_key(a: Seq<u8>, b: Seq<u8>) -> Seq<u8> {
    if bytes_lt(b, a) {
        b + a
    } else {
        a + b
    }
}

fn concat_bytes(a: &Vec<u8>, b: &Vec<u8>) -> (r: Vec<u8>)
    ensures
        r@ == a@ + b@,
{
    let mut r: Vec<u8> = Vec::new();
    let mut i: usize = 0;
    while i < a.len()
        invariant
            i <= a@.len(),
            r@ == a@.take(i as int),
        decreases a@.len() - i,
    {
        r.push(a[i]);
        i = i + 1;
        proof {
            assert(r@ =~= a@.take(i as int));
        }
    }
    let mut j: usize = 0;
    while j < b.len()
        invariant
            i == a@.len(),
            j <= b@.len(),
            r@ == a@ + b@.take(j as int),
        decreases b@.len() - j,
    {
        r.push(b[j]);
        j = j + 1;
        proof {
            assert(r@ =~= a@ + b@.take(j as int));
        }
    }
    proof {
        assert(a@.take(a@.len() as int) =~= a@);
        assert(b@.take(b@.len() as int) =~= b@);
    }
    r
}

pub fn pair_key(a: &Vec<u8>, b: &Vec<u8>) -> (r: Vec<u8>)
    ensures
        r@ == spec_pair_key(a@, b@),
{
    if bytes_less(b, a) {
        concat_bytes(b, a)
    } else {
        concat_bytes(a, b)
    }
}

/// A pair has one key whichever asset is named first.
pub proof fn lemma_pair_key_symmetric(a: Seq<u8>, b: Seq<u8>)
    ensures
        spec_pair_key(a, b) == spec_pair_key(b, a),
{
    lemma_bytes_order(a, b);
}

/// Where a listing after a pair starts: just after its key, the key with a
/// 1 byte appended.
pub fn calc_range_start(start_after: Option<(Vec<u8>, Vec<u8>)>) -> (r: Option<Vec<u8>>)
    ensures
        start_after is None ==> r is None,
        start_after matches Some((a, b)) ==> r is Some && r->Some_0@ == spec_pair_key(a@, b@).push(1u8),
{
    match start_after {
        None => None,
        Some((a, b)) => {
            let mut v = pair_key(&a, &b);
            v.push(1u8);
            Some(v)
        },
    }
}

/// The factory's settings.
#[derive(Clone, Debug, PartialEq, Eq)]
pub struct Config {
    pub owner: String,
    pub oracle_addr: String,
    pub pair_code_id: u64,
    pub token_code_id: u64,
    pub commission_rate: String,
}

/// A new factory's settings: the commission rate given, or the default.
pub fn init_config(
    owner: String,
    oracle_addr: String,
    pair_code_id: u64,
    token_code_id: u64,
    commission_rate: Option<String>,
) -> (r: Config)
    ensures
        r.owner == owner,
        r.oracle_addr == oracle_addr,
        r.pair_code_id == pair_code_id,
        r.token_code_id == token_code_id,
        commission_rate matches Some(c) ==> r.commission_rate == c,
        commission_rate is None ==> r.commission_rate@ == DEFAULT_COMMISSION_RATE@,
{
    let commission_rate = match commission_rate {
        Some(c) => c,
        None => String::from_str(DEFAULT_COMMISSION_RATE),
    };
    Config { owner, oracle_addr, pair_code_id, token_code_id, commission_rate }
}

/// The owner changes the settings it is given, and only the owner.
pub fn handle_update_config(
    config: Config,
    sender: &str,
    owner: Option<String>,
    token_code_id: Option<u64>,
    pair_code_id: Option<u64>,
) -> (r: Result<Config, FactoryError>)
    ensures
        config.owner@ != sender@ ==> r == Err::<Config, FactoryError>(FactoryError::Unauthorized),
        config.owner@ == sender@ ==> r == Ok::<Config, FactoryError>(
            Config {
                owner: match owner {
                    Some(o) => o,
                    None => config.owner,
                },
                token_code_id: match token_code_id {
                    Some(t) => t,
                    None => config.token_code_id,
                },
                pair_code_id: match pair_code_id {
                    Some(p) => p,
                    None => config.pair_code_id,
                },
                ..config
            },
        ),
{
    if !crate::text::text_eq(config.owner.as_str(), sender) {
        return Err(FactoryError::Unauthorized);
    }
    let mut c = config;
    match owner {
        Some(o) => {
            c.owner = o;
        },
        None => {},
    }
    match token_code_id {
        Some(t) => {
            c.token_code_id = t;
        },
        None => {},
    }
    match pair_code_id {
        Some(p) => {
            c.pair_code_id = p;
        },
        None => {},
    }
    Ok(c)
}

/// A pair is created once.
pub fn create_pair_check(existing: bool) -> (r: Result<(), FactoryError>)
    ensures
        r is Ok <==> !existing,
        r matches Err(e) ==> e == FactoryError::PairExisted,
{
    if existing {
        Err(FactoryError::PairExisted)
    } else {
        Ok(())
    }
}

/// What the factory keeps of a pair: its assets, the pair contract and its
/// liquidity token (empty until the pair registers), the oracle and the
/// commission rate.
pub struct PairInfo {
    pub asset_infos: [AssetInfo; 2],
    pub contract_addr: String,
    pub liquidity_token: String,
    pub oracle_addr: String,
    pub commission_rate: String,
}

/// The instantiation of a new pair contract; with auto-registration the
/// pair calls back `hook_contract` to register `asset_infos`.
pub struct PairInstantiate {
    pub code_id: u64,
    pub oracle_addr: String,
    pub asset_infos: [AssetInfo; 2],
    pub token_code_id: u64,
    pub commission_rate: Option<String>,
    pub register_hook: Option<(String, [AssetInfo; 2])>,
}

/// What creating a pair writes and sends.
pub struct CreatePairPlan {
    pub pair: PairInfo,
    pub instantiate: PairInstantiate,
}

/// Creating a pair, once per pair of assets (`existing` says whether the
/// pair key is already stored): the pair is stored with the factory's oracle
/// and commission rate and no contract yet, and a pair contract of the
/// factory's code is instantiated, calling the factory back to register
/// exactly when `auto_register` is set.
pub fn handle_create_pair(
    config: &Config,
    existing: bool,
    asset_infos: &[AssetInfo; 2],
    auto_register: bool,
    factory_addr: &String,
) -> (r: Result<CreatePairPlan, FactoryError>)
    ensures
        existing ==> (r matches Err(e) && e == FactoryError::PairExisted),
        !existing ==> r is Ok,
        r matches Ok(p) ==> {
            &&& p.pair.asset_infos[0] == asset_infos[0] && p.pair.asset_infos[1] == asset_infos[1]
            &&& p.pair.contract_addr@.len() == 0
            &&& p.pair.liquidity_token@.len() == 0
            &&& p.pair.oracle_addr == config.oracle_addr
            &&& p.pair.commission_rate == config.commission_rate
            &&& p.instantiate.code_id == config.pair_code_id
            &&& p.instantiate.oracle_addr == config.oracle_addr
            &&& p.instantiate.asset_infos[0] == asset_infos[0] && p.instantiate.asset_infos[1] == asset_infos[1]
            &&& p.instantiate.token_code_id == config.token_code_id
            &&& p.instantiate.commission_rate == Some(config.commission_rate)
            &&& (!auto_register ==> p.instantiate.register_hook is None)
            &&& (auto_register ==> (p.instantiate.register_hook matches Some((a, i))
                && a == *factory_addr && i[0] == asset_infos[0] && i[1] == asset_infos[1]))
        },
{
    create_pair_check(existing)?;
    let infos = [asset_infos[0].duplicate(), asset_infos[1].duplicate()];
    let hook = if auto_register {
        let hook_infos = [asset_infos[0].duplicate(), asset_infos[1].duplicate()];
        Some((factory_addr.clone(), hook_infos))
    } else {
        None
    };
    let pair = PairInfo {
        asset_infos: [asset_infos[0].duplicate(), asset_infos[1].duplicate()],
        contract_addr: String::new(),
        liquidity_token: String::new(),
        oracle_addr: config.oracle_addr.clone(),
        commission_rate: config.commission_rate.clone(),
    };
    let instantiate = PairInstantiate {
        code_id: config.pair_code_id,
        oracle_addr: config.oracle_addr.clone(),
        asset_infos: infos,
        token_code_id: config.token_code_id,
        commission_rate: Some(config.commission_rate.clone()),
        register_hook: hook,
    };
    Ok(CreatePairPlan { pair, instantiate })
}

/// A pair is registered once: while its contract address is still empty.
pub fn register_pair_check(contract_addr: &Vec<u8>) -> (r: Result<(), FactoryError>)
    ensures
        r is Ok <==> contract_addr@.len() == 0,
        r matches Err(e) ==> e == FactoryError::PairRegistered,
{
    if contract_addr.len() != 0 {
        Err(FactoryError::PairRegistered)
    } else {
        Ok(())
    }
}

} // verus!
