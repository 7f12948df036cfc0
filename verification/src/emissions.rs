//! Emissions: per reserve token indexes of emitted tokens, user accruals and claims, and the
//! pool's distribution of new emissions over its reserve tokens.
//!
//! A reserve token id is `reserve index * 2` for dTokens and `reserve index * 2 + 1` for bTokens.
use std::collections::BTreeMap;
use vstd::prelude::*;

use crate::constants::{SCALAR_7, SECONDS_PER_WEEK};
use crate::status::trunc_div;
use crate::errors::PoolError;
use crate::fixed_point::{div_floor, mul_div_defined, mul_div_floor_value, mul_floor};
use crate::interest::fits_i128;
use crate::storage::{ReserveEmissionsConfig, ReserveEmissionsData, UserEmissionData};
use crate::user::{EmissionUpdate, User, balance_of, spec_total_supply};
use crate::reserve::{pow10, lemma_pow10_bound};

verus! {

/// Whether a reserve token's emission index stays as it is at `now`: emissions expired before
/// the last update, it was already updated at `now`, nothing is emitted or nothing is supplied.
pub open spec fn emission_index_unchanged(
    now: u64,
    supply: int,
    config: ReserveEmissionsConfig,
    data: ReserveEmissionsData,
) -> bool {
    data.last_time >= config.expiration || now == data.last_time || config.eps == 0 || supply == 0
}

/// The time up to which emissions accrue: `now`, capped at the expiration.
pub open spec fn emission_end(now: u64, config: ReserveEmissionsConfig) -> u64 {
    if now > config.expiration {
        config.expiration
    } else {
        now
    }
}

/// The reserve token's emission index at `now`: it grows by the tokens emitted since the last
/// update per token supplied (scaled by `scalar`, rounded down).
pub open spec fn spec_emission_data(
    now: u64,
    supply: int,
    scalar: int,
    config: ReserveEmissionsConfig,
    data: ReserveEmissionsData,
) -> ReserveEmissionsData {
    if emission_index_unchanged(now, supply, config, data) {
        data
    } else {
        let end = emission_end(now, config);
        let emitted = (end - data.last_time) * config.eps;
        ReserveEmissionsData {
            index: (mul_div_floor_value(emitted, scalar, supply) + data.index) as i128,
            last_time: end,
        }
    }
}

/// Whether the index update completes without an underflow or overflow.
pub open spec fn emission_data_defined(
    now: u64,
    supply: int,
    scalar: int,
    config: ReserveEmissionsConfig,
    data: ReserveEmissionsData,
) -> bool {
    !emission_index_unchanged(now, supply, config, data) ==> {
        let end = emission_end(now, config);
        let emitted = (end - data.last_time) * config.eps;
        &&& data.last_time <= end
        &&& fits_i128(emitted)
        &&& mul_div_defined(emitted, scalar, supply)
        &&& fits_i128(mul_div_floor_value(emitted, scalar, supply) + data.index)
    }
}

/// Update the reserve token emission data at `now` with the token's emission config.
///
/// Returns the new data, and whether it changed and must be stored.
pub fn update_emission_data_with_config(
    now: u64,
    supply: i128,
    supply_scalar: i128,
    emis_config: &ReserveEmissionsConfig,
    token_emission_data: &ReserveEmissionsData,
) -> (r: (ReserveEmissionsData, bool))
    requires
        emission_data_defined(
            now,
            supply as int,
            supply_scalar as int,
            *emis_config,
            *token_emission_data,
        ),
    ensures
        r.0 == spec_emission_data(
            now,
            supply as int,
            supply_scalar as int,
            *emis_config,
            *token_emission_data,
        ),
        r.1 == !emission_index_unchanged(now, supply as int, *emis_config, *token_emission_data),
{
    if token_emission_data.last_time >= emis_config.expiration || now
        == token_emission_data.last_time || emis_config.eps == 0 || supply == 0 {
        return (*token_emission_data, false);
    }
    let ledger_timestamp = if now > emis_config.expiration {
        emis_config.expiration
    } else {
        now
    };
    let elapsed: u64 = ledger_timestamp - token_emission_data.last_time;
    let emitted: i128 = (elapsed as i128) * (emis_config.eps as i128);
    let additional_idx = div_floor(emitted, supply, supply_scalar);
    let new_data = ReserveEmissionsData {
        index: additional_idx + token_emission_data.index,
        last_time: ledger_timestamp,
    };
    (new_data, true)
}

/// The user's emission data and claim after an update: what is stored, and the amount paid out.
pub open spec fn spec_set_user_emissions(index: int, accrued: int, claim: bool) -> (
    UserEmissionData,
    int,
) {
    if claim {
        (UserEmissionData { index: index as i128, accrued: 0 }, accrued)
    } else {
        (UserEmissionData { index: index as i128, accrued: accrued as i128 }, 0)
    }
}

/// The user's accrual against the reserve token index `res_index`: the stored accrual plus the
/// balance times the index growth since the user's last update (rounded down); a user first
/// seen with a balance is due the whole index.
pub open spec fn spec_user_accrual(
    res_index: int,
    scalar: int,
    user_data: Option<UserEmissionData>,
    balance: int,
) -> int {
    match user_data {
        Some(ud) => ud.accrued + if balance != 0 {
            mul_div_floor_value(balance, res_index - ud.index, scalar)
        } else {
            0
        },
        None => if balance == 0 {
            0
        } else {
            mul_div_floor_value(balance, res_index, scalar)
        },
    }
}

/// Whether the user's data is rewritten: it is new, behind the reserve token's index, or claimed.
pub open spec fn user_emissions_written(
    res_index: int,
    user_data: Option<UserEmissionData>,
    claim: bool,
) -> bool {
    match user_data {
        Some(ud) => ud.index != res_index || claim,
        None => true,
    }
}

/// Whether the user update completes without an overflow.
pub open spec fn user_emissions_defined(
    res_index: int,
    scalar: int,
    user_data: Option<UserEmissionData>,
    balance: int,
    claim: bool,
) -> bool {
    user_emissions_written(res_index, user_data, claim) ==> match user_data {
        Some(ud) => balance != 0 ==> {
            &&& fits_i128(res_index - ud.index)
            &&& mul_div_defined(balance, res_index - ud.index, scalar)
            &&& fits_i128(ud.accrued + mul_div_floor_value(balance, res_index - ud.index, scalar))
        },
        None => balance != 0 ==> mul_div_defined(balance, res_index, scalar),
    }
}

/// Update a user's emissions against the reserve token's current emission data.
///
/// Returns the user data to store (`None` when nothing changes) and the amount claimed,
/// which is zero unless `claim` is set.
pub fn update_user_emissions(
    res_emis_data: &ReserveEmissionsData,
    supply_scalar: i128,
    user_data: Option<UserEmissionData>,
    balance: i128,
    claim: bool,
) -> (r: (Option<UserEmissionData>, i128))
    requires
        user_emissions_defined(
            res_emis_data.index as int,
            supply_scalar as int,
            user_data,
            balance as int,
            claim,
        ),
    ensures
        user_emissions_written(res_emis_data.index as int, user_data, claim) ==> {
            let (stored, claimed) = spec_set_user_emissions(
                res_emis_data.index as int,
                spec_user_accrual(
                    res_emis_data.index as int,
                    supply_scalar as int,
                    user_data,
                    balance as int,
                ),
                claim,
            );
            r.0 == Some(stored) && r.1 == claimed
        },
        !user_emissions_written(res_emis_data.index as int, user_data, claim) ==> r.0 is None && r.1
            == 0,
{
    match user_data {
        Some(user_data) => {
            if user_data.index != res_emis_data.index || claim {
                let mut accrual = user_data.accrued;
                if balance != 0 {
                    let to_accrue = mul_floor(
                        balance,
                        res_emis_data.index - user_data.index,
                        supply_scalar,
                    );
                    accrual = accrual + to_accrue;
                }
                set_user_emissions(res_emis_data.index, accrual, claim)
            } else {
                (None, 0)
            }
        },
        None => {
            if balance == 0 {
                // first time the user registered an action with the asset since emissions were added
                set_user_emissions(res_emis_data.index, 0, claim)
            } else {
                // user had tokens before emissions began, they are due any historical emissions
                let to_accrue = mul_floor(balance, res_emis_data.index, supply_scalar);
                set_user_emissions(res_emis_data.index, to_accrue, claim)
            }
        },
    }
}

fn set_user_emissions(index: i128, accrued: i128, claim: bool) -> (r: (
    Option<UserEmissionData>,
    i128,
))
    ensures
        r.0 == Some(spec_set_user_emissions(index as int, accrued as int, claim).0),
        r.1 == spec_set_user_emissions(index as int, accrued as int, claim).1,
{
    if claim {
        (Some(UserEmissionData { index, accrued: 0 }), accrued)
    } else {
        (Some(UserEmissionData { index, accrued }), 0)
    }
}

/// The stored records an emission update reads and writes for one user and reserve token.
#[derive(Clone, Copy, Debug, PartialEq, Eq, Structural)]
pub struct EmissionState {
    /// The reserve token's emission config, if it has emissions.
    pub config: Option<ReserveEmissionsConfig>,
    /// The reserve token's emission data.
    pub data: Option<ReserveEmissionsData>,
    /// The user's emission data for the reserve token.
    pub user: Option<UserEmissionData>,
}

/// Whether an emission update on `state` completes.
pub open spec fn update_emissions_defined(
    now: u64,
    upd: EmissionUpdate,
    state: EmissionState,
    claim: bool,
) -> bool {
    state.config is Some ==> {
        let config = state.config.unwrap();
        &&& state.data is Some
        &&& emission_data_defined(
            now,
            upd.supply as int,
            upd.supply_scalar as int,
            config,
            state.data.unwrap(),
        )
        &&& user_emissions_defined(
            spec_emission_data(
                now,
                upd.supply as int,
                upd.supply_scalar as int,
                config,
                state.data.unwrap(),
            ).index as int,
            upd.supply_scalar as int,
            state.user,
            upd.balance as int,
            claim,
        )
    }
}

/// The records after an emission update on `state`, and the amount claimed.
pub open spec fn spec_update_emissions(
    now: u64,
    upd: EmissionUpdate,
    state: EmissionState,
    claim: bool,
) -> (EmissionState, int) {
    match state.config {
        None => (state, 0),
        Some(config) => {
            let data = spec_emission_data(
                now,
                upd.supply as int,
                upd.supply_scalar as int,
                config,
                state.data.unwrap(),
            );
            if user_emissions_written(data.index as int, state.user, claim) {
                let (user, claimed) = spec_set_user_emissions(
                    data.index as int,
                    spec_user_accrual(
                        data.index as int,
                        upd.supply_scalar as int,
                        state.user,
                        upd.balance as int,
                    ),
                    claim,
                );
                (EmissionState { config: state.config, data: Some(data), user: Some(user) }, claimed)
            } else {
                (EmissionState { config: state.config, data: Some(data), user: state.user }, 0)
            }
        },
    }
}

/// Update the emissions of a reserve token and of a user's balance in it at `now`. Must be
/// run before any change to the supply of the token or the balance of the user.
///
/// Returns the amount of tokens to claim, or zero if `claim` is false. A token without an
/// emission config is left as it is.
pub fn update_emissions(
    now: u64,
    upd: &EmissionUpdate,
    state: &mut EmissionState,
    claim: bool,
) -> (claimed: i128)
    requires
        update_emissions_defined(now, *upd, *old(state), claim),
    ensures
        (*final(state), claimed as int) == spec_update_emissions(now, *upd, *old(state), claim),
{
    match state.config {
        None => 0,
        Some(config) => {
            let data = state.data.unwrap();
            let (new_data, _) = update_emission_data_with_config(
                now,
                upd.supply,
                upd.supply_scalar,
                &config,
                &data,
            );
            state.data = Some(new_data);
            let (user, claimed) = update_user_emissions(
                &new_data,
                upd.supply_scalar,
                state.user,
                upd.balance,
                claim,
            );
            if let Some(u) = user {
                state.user = Some(u);
            }
            claimed
        },
    }
}

/// A claim pays out everything accrued and leaves nothing accrued behind.
pub proof fn lemma_claim_pays_all(index: int, accrued: int)
    requires
        fits_i128(accrued),
    ensures
        spec_set_user_emissions(index, accrued, true).1 == accrued,
        spec_set_user_emissions(index, accrued, true).0.accrued == 0,
        spec_set_user_emissions(index, accrued, false).1 == 0,
        spec_set_user_emissions(index, accrued, false).0.accrued == accrued,
{
}

/// The emission index never decreases while emissions and supply are non-negative.
pub proof fn lemma_emission_index_monotone(
    now: u64,
    supply: int,
    scalar: int,
    config: ReserveEmissionsConfig,
    data: ReserveEmissionsData,
)
    requires
        supply > 0,
        scalar > 0,
        emission_data_defined(now, supply, scalar, config, data),
    ensures
        spec_emission_data(now, supply, scalar, config, data).index >= data.index,
{
    if !emission_index_unchanged(now, supply, config, data) {
        let end = emission_end(now, config);
        let emitted = (end - data.last_time) * config.eps;
        assert(emitted >= 0) by (nonlinear_arith)
            requires emitted == (end - data.last_time) * config.eps, end >= data.last_time,
                config.eps >= 0;
        assert(emitted * scalar >= 0) by (nonlinear_arith) requires emitted >= 0, scalar > 0;
        crate::fixed_point::lemma_positive_divisor(emitted, scalar, supply);
        assert((emitted * scalar) / supply >= 0) by (nonlinear_arith)
            requires emitted * scalar >= 0, supply > 0;
    }
}

/// Metadata for a pool's reserve emission configuration
#[derive(Clone, Copy, Debug, PartialEq, Eq, Structural)]
pub struct ReserveEmissionMetadata {
    /// The reserve's index.
    pub res_index: u32,
    /// 0 for the dToken, 1 for the bToken.
    pub res_type: u32,
    /// The token's share of the pool's emissions (7 decimals).
    pub share: u64,
}

/// The reserve token id a metadata entry names.
pub open spec fn res_token_key(m: ReserveEmissionMetadata) -> int {
    m.res_index * 2 + m.res_type
}

/// Whether a metadata entry names a token of a listed reserve.
pub open spec fn metadata_valid(m: ReserveEmissionMetadata, reserve_count: u32) -> bool {
    m.res_type <= 1 && m.res_index < reserve_count
}

/// The sum of the shares of the entries.
pub open spec fn sum_shares(s: Seq<ReserveEmissionMetadata>) -> int
    decreases s.len(),
{
    if s.len() == 0 {
        0
    } else {
        sum_shares(s.drop_last()) + s.last().share
    }
}

/// The share of each reserve token after the entries are applied in order.
pub open spec fn spec_pool_emissions(s: Seq<ReserveEmissionMetadata>) -> Map<u32, u64>
    decreases s.len(),
{
    if s.len() == 0 {
        Map::empty()
    } else {
        spec_pool_emissions(s.drop_last()).insert(res_token_key(s.last()) as u32, s.last().share)
    }
}

/// The shares of a prefix never exceed the shares of the whole.
pub proof fn lemma_sum_shares_prefix(s: Seq<ReserveEmissionMetadata>, i: int)
    requires
        0 <= i <= s.len(),
    ensures
        sum_shares(s.take(i)) <= sum_shares(s),
        sum_shares(s.take(i)) >= 0,
    decreases s.len(),
{
    if s.len() > 0 {
        if i == s.len() {
            assert(s.take(i) =~= s);
            lemma_sum_shares_prefix(s.drop_last(), i - 1);
            assert(s.drop_last().take(i - 1) =~= s.take(i - 1));
        } else {
            lemma_sum_shares_prefix(s.drop_last(), i);
            assert(s.drop_last().take(i) =~= s.take(i));
        }
    }
}

/// Set the pool emissions: each reserve token's share of the pool's emissions. Refused if an
/// entry names a token of no listed reserve, or the shares add up to over 100%.
///
/// `reserve_count` is the number of listed reserves. These will not be applied until the
/// next emission gulp.
pub fn set_pool_emissions(
    reserve_count: u32,
    res_emission_metadata: &Vec<ReserveEmissionMetadata>,
) -> (r: Result<BTreeMap<u32, u64>, PoolError>)
    requires
        forall|i: int|
            0 <= i < res_emission_metadata@.len() ==> res_token_key(
                #[trigger] res_emission_metadata@[i],
            ) <= u32::MAX,
        sum_shares(res_emission_metadata@) <= u64::MAX,
    ensures
        r is Ok <==> (forall|i: int|
            0 <= i < res_emission_metadata@.len() ==> metadata_valid(
                #[trigger] res_emission_metadata@[i],
                reserve_count,
            )) && sum_shares(res_emission_metadata@) <= SCALAR_7,
        r matches Err(e) ==> e == PoolError::BadEmissionsRequest,
        r matches Ok(m) ==> m@ == spec_pool_emissions(res_emission_metadata@),
{
    let mut pool_emissions: BTreeMap<u32, u64> = BTreeMap::new();
    let mut total_share: u64 = 0;
    let mut i: usize = 0;
    let ghost s = res_emission_metadata@;
    while i < res_emission_metadata.len()
        invariant
            s == res_emission_metadata@,
            i <= s.len(),
            forall|j: int| 0 <= j < s.len() ==> res_token_key(#[trigger] s[j]) <= u32::MAX,
            sum_shares(s) <= u64::MAX,
            forall|j: int| 0 <= j < i ==> metadata_valid(#[trigger] s[j], reserve_count),
            total_share == sum_shares(s.take(i as int)),
            pool_emissions@ == spec_pool_emissions(s.take(i as int)),
        decreases s.len() - i,
    {
        let metadata = res_emission_metadata[i];
        let key = metadata.res_index * 2 + metadata.res_type;
        if metadata.res_type > 1 || metadata.res_index >= reserve_count {
            return Err(PoolError::BadEmissionsRequest);
        }
        proof {
            assert(s.take(i + 1).drop_last() =~= s.take(i as int));
            lemma_sum_shares_prefix(s, i + 1);
        }
        pool_emissions.insert(key, metadata.share);
        total_share = total_share + metadata.share;
        i = i + 1;
    }
    proof {
        assert(s.take(s.len() as int) =~= s);
    }
    if total_share > 1_0000000 {
        return Err(PoolError::BadEmissionsRequest);
    }
    Ok(pool_emissions)
}

/// Distribute `new_emissions` over the pool's reserve tokens by their shares (7 decimals,
/// rounded down). Refused when fewer than one whole token (7 decimals) is emitted, to avoid
/// rounding issues.
///
/// Returns each reserve token with its new emissions, in the order given.
pub fn do_gulp_emissions(new_emissions: i128, pool_emissions: &Vec<(u32, u64)>) -> (r: Result<
    Vec<(u32, i128)>,
    PoolError,
>)
    requires
        forall|i: int|
            0 <= i < pool_emissions@.len() ==> mul_div_defined(
                (#[trigger] pool_emissions@[i]).1 as int,
                new_emissions as int,
                SCALAR_7 as int,
            ),
    ensures
        new_emissions < SCALAR_7 ==> r == Err::<Vec<(u32, i128)>, PoolError>(
            PoolError::BadEmissionsRequest,
        ),
        new_emissions >= SCALAR_7 ==> r is Ok,
        r matches Ok(v) ==> v@.len() == pool_emissions@.len() && forall|i: int|
            0 <= i < v@.len() ==> (#[trigger] v@[i]).0 == pool_emissions@[i].0 && v@[i].1
                == mul_div_floor_value(
                pool_emissions@[i].1 as int,
                new_emissions as int,
                SCALAR_7 as int,
            ),
{
    // ensure enough tokens are being emitted to avoid rounding issues
    if new_emissions < SCALAR_7 {
        return Err(PoolError::BadEmissionsRequest);
    }
    let mut out: Vec<(u32, i128)> = Vec::new();
    let mut i: usize = 0;
    while i < pool_emissions.len()
        invariant
            i <= pool_emissions@.len(),
            out@.len() == i,
            forall|j: int|
                0 <= j < pool_emissions@.len() ==> mul_div_defined(
                    (#[trigger] pool_emissions@[j]).1 as int,
                    new_emissions as int,
                    SCALAR_7 as int,
                ),
            forall|j: int|
                0 <= j < i ==> (#[trigger] out@[j]).0 == pool_emissions@[j].0 && out@[j].1
                    == mul_div_floor_value(
                    pool_emissions@[j].1 as int,
                    new_emissions as int,
                    SCALAR_7 as int,
                ),
        decreases pool_emissions@.len() - i,
    {
        let (res_token_id, res_eps_share) = pool_emissions[i];
        let new_reserve_emissions = mul_floor(res_eps_share as i128, new_emissions, SCALAR_7);
        out.push((res_token_id, new_reserve_emissions));
        i = i + 1;
    }
    Ok(out)
}

/// Tokens of the previous schedule not yet emitted at `now`.
pub open spec fn unemitted(config: ReserveEmissionsConfig, now: u64) -> int {
    if config.expiration > now {
        config.eps * (config.expiration - now)
    } else {
        0
    }
}

/// Whether re-scheduling a reserve token's emissions completes.
pub open spec fn reserve_emission_config_defined(
    now: u64,
    new_reserve_emissions: int,
    existing: Option<(ReserveEmissionsConfig, ReserveEmissionsData)>,
    supply: int,
    scalar: int,
) -> bool {
    let left = new_reserve_emissions + match existing {
        Some((config, _)) => unemitted(config, now),
        None => 0,
    };
    &&& now + SECONDS_PER_WEEK <= u64::MAX
    &&& existing matches Some((config, data)) ==> {
        &&& emission_data_defined(now, supply, scalar, config, data)
        &&& unemitted(config, now) <= u64::MAX
        &&& fits_i128(left)
    }
    &&& 0 <= trunc_div(left, SECONDS_PER_WEEK as int) <= u64::MAX
}

/// The emission data and the new one week schedule of a reserve token that receives
/// `new_reserve_emissions` at `now`, plus whatever its previous schedule had not yet emitted.
pub open spec fn spec_reserve_emission_config(
    now: u64,
    new_reserve_emissions: int,
    existing: Option<(ReserveEmissionsConfig, ReserveEmissionsData)>,
    supply: int,
    scalar: int,
) -> (ReserveEmissionsData, ReserveEmissionsConfig) {
    let (data, left) = match existing {
        Some((config, data)) => (
            ReserveEmissionsData {
                last_time: now,
                ..spec_emission_data(now, supply, scalar, config, data)
            },
            new_reserve_emissions + unemitted(config, now),
        ),
        None => (ReserveEmissionsData { index: 0, last_time: now }, new_reserve_emissions),
    };
    (
        data,
        ReserveEmissionsConfig {
            expiration: (now + SECONDS_PER_WEEK) as u64,
            eps: trunc_div(left, SECONDS_PER_WEEK as int) as u64,
        },
    )
}

/// Re-schedule a reserve token's emissions at `now`: the token's index is brought up to
/// `now` under its old schedule, and the new emissions plus the unemitted rest of the old
/// schedule are spread over the next week.
///
/// `existing` is the token's current config and data, if it has any; `supply` and
/// `supply_scalar` are the token's supply and scalar. Returns the data and config to store.
pub fn update_reserve_emission_config(
    now: u64,
    new_reserve_emissions: i128,
    existing: Option<(ReserveEmissionsConfig, ReserveEmissionsData)>,
    supply: i128,
    supply_scalar: i128,
) -> (r: (ReserveEmissionsData, ReserveEmissionsConfig))
    requires
        reserve_emission_config_defined(
            now,
            new_reserve_emissions as int,
            existing,
            supply as int,
            supply_scalar as int,
        ),
    ensures
        r == spec_reserve_emission_config(
            now,
            new_reserve_emissions as int,
            existing,
            supply as int,
            supply_scalar as int,
        ),
{
    let mut tokens_left_to_emit = new_reserve_emissions;
    let data: ReserveEmissionsData;
    match existing {
        Some((emis_config, emis_data)) => {
            // data exists - update it with old config
            let (mut emission_data, _) = update_emission_data_with_config(
                now,
                supply,
                supply_scalar,
                &emis_config,
                &emis_data,
            );
            // force the emission data to be updated to the current timestamp
            emission_data.last_time = now;
            data = emission_data;
            // determine the amount of tokens not emitted from the last config
            if emis_config.expiration > now {
                let time_since_last_emission = emis_config.expiration - now;
                let tokens_since_last_emission = emis_config.eps * time_since_last_emission;
                tokens_left_to_emit = tokens_left_to_emit + tokens_since_last_emission as i128;
            }
        },
        None => {
            // no config or data exists yet - first time this reserve token will get emission
            data = ReserveEmissionsData { index: 0, last_time: now };
        },
    }
    let expiration = now + SECONDS_PER_WEEK;
    let eps_i128 = tokens_left_to_emit.checked_div(SECONDS_PER_WEEK as i128).unwrap();
    let eps = eps_i128 as u64;
    (data, ReserveEmissionsConfig { expiration, eps })
}

/// What a claim reads of a listed reserve: its decimals and token supplies.
#[derive(Clone, Copy, Debug, PartialEq, Eq, Structural)]
pub struct ReserveSupply {
    /// The decimals of the reserve.
    pub decimals: u32,
    /// The dToken supply.
    pub d_supply: i128,
    /// The bToken supply.
    pub b_supply: i128,
}

/// The emission update a claim of reserve token `id` runs for `user`.
pub open spec fn claim_update(user: User, reserves: Seq<ReserveSupply>, id: u32) -> EmissionUpdate {
    let idx = id / 2;
    let rs = reserves[idx as int];
    if id % 2 == 0 {
        EmissionUpdate {
            res_token_id: id,
            supply: rs.d_supply,
            supply_scalar: pow10(rs.decimals as nat) as i128,
            balance: balance_of(user.positions.liabilities@, idx) as i128,
        }
    } else {
        EmissionUpdate {
            res_token_id: id,
            supply: rs.b_supply,
            supply_scalar: pow10(rs.decimals as nat) as i128,
            balance: spec_total_supply(user.positions, idx) as i128,
        }
    }
}

/// The emission records and total claimed after claiming `ids` in order, or the error.
pub open spec fn spec_claim(
    now: u64,
    user: User,
    reserves: Seq<ReserveSupply>,
    store: Map<u32, EmissionState>,
    ids: Seq<u32>,
) -> Result<(Map<u32, EmissionState>, int), PoolError>
    decreases ids.len(),
{
    if ids.len() == 0 {
        Ok((store, 0))
    } else {
        match spec_claim(now, user, reserves, store, ids.drop_last()) {
            Err(e) => Err(e),
            Ok((m, total)) => {
                let id = ids.last();
                if id / 2 >= reserves.len() {
                    Err(PoolError::BadEmissionsRequest)
                } else {
                    let (st, claimed) = spec_update_emissions(now, claim_update(user, reserves, id), m[id], true);
                    Ok((m.insert(id, st), total + claimed))
                }
            },
        }
    }
}

/// Whether claiming `ids` completes.
pub open spec fn claim_defined(
    now: u64,
    user: User,
    reserves: Seq<ReserveSupply>,
    store: Map<u32, EmissionState>,
    ids: Seq<u32>,
) -> bool
    decreases ids.len(),
{
    ids.len() == 0 || {
        &&& claim_defined(now, user, reserves, store, ids.drop_last())
        &&& (spec_claim(now, user, reserves, store, ids.drop_last()) matches Ok((m, total)) ==> {
            let id = ids.last();
            id / 2 < reserves.len() ==> {
                let rs = reserves[(id / 2) as int];
                let (st, claimed) = spec_update_emissions(now, claim_update(user, reserves, id), m[id], true);
                &&& m.contains_key(id)
                &&& rs.decimals <= 38
                &&& fits_i128(spec_total_supply(user.positions, id / 2))
                &&& update_emissions_defined(now, claim_update(user, reserves, id), m[id], true)
                &&& fits_i128(total + claimed)
            }
        })
    }
}

/// Claiming that completes has every prefix complete.
pub proof fn lemma_claim_defined_prefix(
    now: u64,
    user: User,
    reserves: Seq<ReserveSupply>,
    store: Map<u32, EmissionState>,
    ids: Seq<u32>,
    i: int,
)
    requires
        claim_defined(now, user, reserves, store, ids),
        0 <= i <= ids.len(),
    ensures
        claim_defined(now, user, reserves, store, ids.take(i)),
    decreases ids.len(),
{
    if i == ids.len() {
        assert(ids.take(i) =~= ids);
    } else {
        assert(ids.drop_last().take(i) =~= ids.take(i));
        lemma_claim_defined_prefix(now, user, reserves, store, ids.drop_last(), i);
    }
}

/// Once a prefix of the claims is refused, the whole claim is refused with that error.
pub proof fn lemma_claim_error_persists(
    now: u64,
    user: User,
    reserves: Seq<ReserveSupply>,
    store: Map<u32, EmissionState>,
    ids: Seq<u32>,
    i: int,
)
    requires
        0 <= i <= ids.len(),
        spec_claim(now, user, reserves, store, ids.take(i)) is Err,
    ensures
        spec_claim(now, user, reserves, store, ids) == spec_claim(now, user, reserves, store, ids.take(i)),
    decreases ids.len(),
{
    if i == ids.len() {
        assert(ids.take(i) =~= ids);
    } else {
        assert(ids.drop_last().take(i) =~= ids.take(i));
        lemma_claim_error_persists(now, user, reserves, store, ids.drop_last(), i);
    }
}

/// Performs a claim of the emissions of `from_state` against the given reserve tokens at `now`.
///
/// `reserves` holds the decimals and supplies of the listed reserves, by index; `store` holds
/// the emission records of each claimed reserve token for the user, and is updated. A token of
/// no listed reserve is a bad request. Returns the total amount claimed, which the pool pays out
/// when positive.
pub fn execute_claim(
    now: u64,
    from_state: &User,
    reserve_token_ids: &Vec<u32>,
    reserves: &Vec<ReserveSupply>,
    store: &mut BTreeMap<u32, EmissionState>,
) -> (r: Result<i128, PoolError>)
    requires
        claim_defined(now, *from_state, reserves@, old(store)@, reserve_token_ids@),
    ensures
        r matches Ok(total) ==> spec_claim(now, *from_state, reserves@, old(store)@, reserve_token_ids@)
            == Ok::<(Map<u32, EmissionState>, int), PoolError>((final(store)@, total as int)),
        r matches Err(e) ==> spec_claim(now, *from_state, reserves@, old(store)@, reserve_token_ids@)
            == Err::<(Map<u32, EmissionState>, int), PoolError>(e),
{
    let ghost ids = reserve_token_ids@;
    let ghost init = store@;
    let mut to_claim: i128 = 0;
    let mut i: usize = 0;
    proof {
        assert(ids.take(0) =~= Seq::<u32>::empty());
    }
    while i < reserve_token_ids.len()
        invariant
            ids == reserve_token_ids@,
            i <= ids.len(),
            init == old(store)@,
            claim_defined(now, *from_state, reserves@, init, ids),
            spec_claim(now, *from_state, reserves@, init, ids.take(i as int)) == Ok::<(Map<u32, EmissionState>, int), PoolError>(
                (store@, to_claim as int),
            ),
        decreases ids.len() - i,
    {
        proof {
            lemma_claim_defined_prefix(now, *from_state, reserves@, init, ids, i + 1);
            assert(ids.take(i + 1).drop_last() =~= ids.take(i as int));
            assert(ids.take(i + 1).last() == ids[i as int]);
        }
        let reserve_token_id = reserve_token_ids[i];
        let reserve_index = reserve_token_id / 2;
        if reserve_index as usize >= reserves.len() {
            proof {
                lemma_claim_error_persists(now, *from_state, reserves@, init, ids, i + 1);
            }
            return Err(PoolError::BadEmissionsRequest);
        }
        let rs = reserves[reserve_index as usize];
        proof {
            lemma_pow10_bound(rs.decimals as nat);
        }
        let scalar = crate::reserve::pow10_i128(rs.decimals);
        let upd = if reserve_token_id % 2 == 0 {
            EmissionUpdate {
                res_token_id: reserve_token_id,
                supply: rs.d_supply,
                supply_scalar: scalar,
                balance: from_state.get_liabilities(reserve_index),
            }
        } else {
            EmissionUpdate {
                res_token_id: reserve_token_id,
                supply: rs.b_supply,
                supply_scalar: scalar,
                balance: from_state.get_total_supply(reserve_index),
            }
        };
        let mut state = *store.get(&reserve_token_id).unwrap();
        let claimed = update_emissions(now, &upd, &mut state, true);
        store.insert(reserve_token_id, state);
        to_claim = to_claim + claimed;
        i = i + 1;
    }
    proof {
        assert(ids.take(ids.len() as int) =~= ids);
    }
    Ok(to_claim)
}

} // verus!
