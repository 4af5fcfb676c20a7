//! Typed access to the kernel maps, and policy resolution over them.

use std::collections::BTreeSet;
use std::sync::Arc;

use vstd::prelude::*;

use crate::common::{
    fallback_chain, fallback_policy_keys, ChainReads, Counters, GlobalConfig, GlobalStats, Policy,
    PolicyMatchLevel, TenantKey,
};
use crate::datapath::{
    effective_policy, first_match, most_specific_entry_wins, no_entry_no_match,
};
use crate::order::{in_order, sort_rows, u64_keys_are_ordered};
use crate::state_store::lookup;
use crate::table::{take_one_more, KeySet, Ranked};
use crate::text::{same_chars, to_chars};

verus! {

pub const POLICY_MAP_NAME: &'static str = "POLICY_MAP";

pub const RUNTIME_POLICY_MAP_NAME: &'static str = "RUNTIME_POLICY_MAP";

/// Why a map operation failed.
#[derive(Debug)]
pub enum MapError {
    LockPoisoned,
    MissingMap(&'static str),
    /// The map itself refused; the text says why.
    Operation(String),
}

/// The wording of a failed map operation.
pub open spec fn map_error_text(error: MapError) -> Seq<char> {
    match error {
        MapError::LockPoisoned => "failed to lock eBPF object"@,
        MapError::MissingMap(name) => "required map '"@ + name@ + "' is missing"@,
        MapError::Operation(reason) => "eBPF map operation failed: "@ + reason@,
    }
}

/// The wording of each failure; a missing map is named, and what the map said is told.
pub proof fn map_failures_are_worded(name: &'static str, reason: String)
    ensures
        map_error_text(MapError::LockPoisoned) == "failed to lock eBPF object"@,
        map_error_text(MapError::MissingMap(name)) == "required map '"@ + name@ + "' is missing"@,
        map_error_text(MapError::Operation(reason)) == "eBPF map operation failed: "@ + reason@,
{
}

impl MapError {
    /// The wording of the error.
    pub fn message(&self) -> (text: String)
        ensures
            text@ == map_error_text(*self),
    {
        let mut text = String::new();
        match self {
            MapError::LockPoisoned => {
                text.append("failed to lock eBPF object");
            },
            MapError::MissingMap(name) => {
                text.append("required map '");
                text.append(name);
                text.append("' is missing");
            },
            MapError::Operation(reason) => {
                text.append("eBPF map operation failed: ");
                text.append(reason.as_str());
            },
        }
        assert(text@ =~= map_error_text(*self));
        text
    }
}

/// Which map a policy came from.
#[derive(Clone, Copy, Debug, PartialEq, Eq, Structural)]
pub enum PolicySource {
    RuntimeOverride,
    Base,
}

/// The policy that applies to a key, and where it was found.
#[derive(Clone, Copy, Debug, PartialEq, Eq)]
pub struct ResolvedPolicy {
    pub requested: TenantKey,
    pub matched: TenantKey,
    pub match_level: PolicyMatchLevel,
    pub policy: Policy,
    pub source: PolicySource,
}

/// Operations on the kernel maps. Which calls are in order is up to the maps: each
/// operation that changes one, or asks one about a key, has a condition of its own,
/// which always holds unless an implementation says otherwise.
pub trait MapOps: Send + Sync {
    /// Whether a base policy may be set.
    open spec fn may_upsert_policy(&self, tenant: TenantKey, policy: Policy) -> bool {
        true
    }

    /// Whether a base policy may be removed.
    open spec fn may_delete_policy(&self, tenant: TenantKey) -> bool {
        true
    }

    /// Whether a base policy may be read.
    open spec fn may_get_policy(&self, tenant: TenantKey) -> bool {
        true
    }

    /// Whether a runtime override may be set.
    open spec fn may_upsert_runtime_policy(&self, tenant: TenantKey, policy: Policy) -> bool {
        true
    }

    /// Whether a runtime override may be removed.
    open spec fn may_delete_runtime_policy(&self, tenant: TenantKey) -> bool {
        true
    }

    /// Whether a runtime override may be read.
    open spec fn may_get_runtime_policy(&self, tenant: TenantKey) -> bool {
        true
    }

    /// Whether both switches may be stored.
    open spec fn may_seed_global_config(&self, config: GlobalConfig) -> bool {
        true
    }

    /// Whether the filter may be switched.
    open spec fn may_set_global_enabled(&self, enabled: bool) -> bool {
        true
    }

    /// Whether flow-aware matching may be switched.
    open spec fn may_set_flow_keys_live(&self, flow_keys_live: bool) -> bool {
        true
    }

    fn upsert_policy(&self, tenant: TenantKey, policy: Policy) -> (r: Result<(), MapError>)
        requires
            self.may_upsert_policy(tenant, policy),
    ;

    fn upsert_policies_batch(&self, entries: &[(TenantKey, Policy)]) -> (r: Result<(), MapError>)
        requires
            forall|i: int|
                0 <= i < entries@.len() && (forall|j: int|
                    0 <= j < i ==> #[trigger] call_ensures(
                        Self::upsert_policy,
                        (self, entries@[j].0, entries@[j].1),
                        Ok::<(), MapError>(()),
                    )) ==> #[trigger] self.may_upsert_policy(entries@[i].0, entries@[i].1),
        default_ensures
            match r {
                Ok(_) => forall|i: int|
                    0 <= i < entries@.len() ==> #[trigger] call_ensures(
                        Self::upsert_policy,
                        (self, entries@[i].0, entries@[i].1),
                        Ok::<(), MapError>(()),
                    ),
                Err(error) => exists|n: int|
                    {
                        &&& 0 <= n < entries@.len()
                        &&& #[trigger] call_ensures(
                            Self::upsert_policy,
                            (self, entries@[n].0, entries@[n].1),
                            Err::<(), MapError>(error),
                        )
                        &&& forall|i: int|
                            0 <= i < n ==> #[trigger] call_ensures(
                                Self::upsert_policy,
                                (self, entries@[i].0, entries@[i].1),
                                Ok::<(), MapError>(()),
                            )
                    },
            },
    {
        let mut i: usize = 0;
        while i < entries.len()
            invariant
                i <= entries@.len(),
                forall|k: int|
                    0 <= k < entries@.len() && (forall|j: int|
                        0 <= j < k ==> #[trigger] call_ensures(
                            Self::upsert_policy,
                            (self, entries@[j].0, entries@[j].1),
                            Ok::<(), MapError>(()),
                        )) ==> #[trigger] self.may_upsert_policy(entries@[k].0, entries@[k].1),
                forall|j: int|
                    0 <= j < i ==> #[trigger] call_ensures(
                        Self::upsert_policy,
                        (self, entries@[j].0, entries@[j].1),
                        Ok::<(), MapError>(()),
                    ),
            decreases entries@.len() - i,
        {
            assert(self.may_upsert_policy(entries@[i as int].0, entries@[i as int].1));
            let outcome = self.upsert_policy(entries[i].0, entries[i].1);
            match outcome {
                Err(error) => {
                    assert(call_ensures(
                        Self::upsert_policy,
                        (self, entries@[i as int].0, entries@[i as int].1),
                        Err::<(), MapError>(error),
                    ));
                    return Err(error);
                },
                Ok(unit) => {
                    assert(unit == ());
                },
            }
            i += 1;
        }
        Ok(())
    }

    fn delete_policy(&self, tenant: TenantKey) -> (r: Result<(), MapError>)
        requires
            self.may_delete_policy(tenant),
    ;

    fn delete_policies_batch(&self, tenants: &[TenantKey]) -> (r: Result<(), MapError>)
        requires
            forall|i: int|
                0 <= i < tenants@.len() && (forall|j: int|
                    0 <= j < i ==> #[trigger] call_ensures(
                        Self::delete_policy,
                        (self, tenants@[j]),
                        Ok::<(), MapError>(()),
                    )) ==> #[trigger] self.may_delete_policy(tenants@[i]),
        default_ensures
            match r {
                Ok(_) => forall|i: int|
                    0 <= i < tenants@.len() ==> #[trigger] call_ensures(
                        Self::delete_policy,
                        (self, tenants@[i]),
                        Ok::<(), MapError>(()),
                    ),
                Err(error) => exists|n: int|
                    {
                        &&& 0 <= n < tenants@.len()
                        &&& #[trigger] call_ensures(
                            Self::delete_policy,
                            (self, tenants@[n]),
                            Err::<(), MapError>(error),
                        )
                        &&& forall|i: int|
                            0 <= i < n ==> #[trigger] call_ensures(
                                Self::delete_policy,
                                (self, tenants@[i]),
                                Ok::<(), MapError>(()),
                            )
                    },
            },
    {
        let mut i: usize = 0;
        while i < tenants.len()
            invariant
                i <= tenants@.len(),
                forall|k: int|
                    0 <= k < tenants@.len() && (forall|j: int|
                        0 <= j < k ==> #[trigger] call_ensures(
                            Self::delete_policy,
                            (self, tenants@[j]),
                            Ok::<(), MapError>(()),
                        )) ==> #[trigger] self.may_delete_policy(tenants@[k]),
                forall|j: int|
                    0 <= j < i ==> #[trigger] call_ensures(
                        Self::delete_policy,
                        (self, tenants@[j]),
                        Ok::<(), MapError>(()),
                    ),
            decreases tenants@.len() - i,
        {
            assert(self.may_delete_policy(tenants@[i as int]));
            let outcome = self.delete_policy(tenants[i]);
            match outcome {
                Err(error) => {
                    assert(call_ensures(
                        Self::delete_policy,
                        (self, tenants@[i as int]),
                        Err::<(), MapError>(error),
                    ));
                    return Err(error);
                },
                Ok(unit) => {
                    assert(unit == ());
                },
            }
            i += 1;
        }
        Ok(())
    }

    fn get_policy(&self, tenant: TenantKey) -> (r: Result<Option<Policy>, MapError>)
        requires
            self.may_get_policy(tenant),
    ;

    fn upsert_runtime_policy(&self, tenant: TenantKey, policy: Policy) -> (r: Result<(), MapError>)
        requires
            self.may_upsert_runtime_policy(tenant, policy),
    ;

    fn upsert_runtime_policies_batch(&self, entries: &[(TenantKey, Policy)]) -> (r: Result<
        (),
        MapError,
    >)
        requires
            forall|i: int|
                0 <= i < entries@.len() && (forall|j: int|
                    0 <= j < i ==> #[trigger] call_ensures(
                        Self::upsert_runtime_policy,
                        (self, entries@[j].0, entries@[j].1),
                        Ok::<(), MapError>(()),
                    )) ==> #[trigger] self.may_upsert_runtime_policy(entries@[i].0, entries@[i].1),
        default_ensures
            match r {
                Ok(_) => forall|i: int|
                    0 <= i < entries@.len() ==> #[trigger] call_ensures(
                        Self::upsert_runtime_policy,
                        (self, entries@[i].0, entries@[i].1),
                        Ok::<(), MapError>(()),
                    ),
                Err(error) => exists|n: int|
                    {
                        &&& 0 <= n < entries@.len()
                        &&& #[trigger] call_ensures(
                            Self::upsert_runtime_policy,
                            (self, entries@[n].0, entries@[n].1),
                            Err::<(), MapError>(error),
                        )
                        &&& forall|i: int|
                            0 <= i < n ==> #[trigger] call_ensures(
                                Self::upsert_runtime_policy,
                                (self, entries@[i].0, entries@[i].1),
                                Ok::<(), MapError>(()),
                            )
                    },
            },
    {
        let mut i: usize = 0;
        while i < entries.len()
            invariant
                i <= entries@.len(),
                forall|k: int|
                    0 <= k < entries@.len() && (forall|j: int|
                        0 <= j < k ==> #[trigger] call_ensures(
                            Self::upsert_runtime_policy,
                            (self, entries@[j].0, entries@[j].1),
                            Ok::<(), MapError>(()),
                        )) ==> #[trigger] self.may_upsert_runtime_policy(entries@[k].0, entries@[k].1),
                forall|j: int|
                    0 <= j < i ==> #[trigger] call_ensures(
                        Self::upsert_runtime_policy,
                        (self, entries@[j].0, entries@[j].1),
                        Ok::<(), MapError>(()),
                    ),
            decreases entries@.len() - i,
        {
            assert(self.may_upsert_runtime_policy(entries@[i as int].0, entries@[i as int].1));
            let outcome = self.upsert_runtime_policy(entries[i].0, entries[i].1);
            match outcome {
                Err(error) => {
                    assert(call_ensures(
                        Self::upsert_runtime_policy,
                        (self, entries@[i as int].0, entries@[i as int].1),
                        Err::<(), MapError>(error),
                    ));
                    return Err(error);
                },
                Ok(unit) => {
                    assert(unit == ());
                },
            }
            i += 1;
        }
        Ok(())
    }

    fn delete_runtime_policy(&self, tenant: TenantKey) -> (r: Result<(), MapError>)
        requires
            self.may_delete_runtime_policy(tenant),
    ;

    fn delete_runtime_policies_batch(&self, tenants: &[TenantKey]) -> (r: Result<(), MapError>)
        requires
            forall|i: int|
                0 <= i < tenants@.len() && (forall|j: int|
                    0 <= j < i ==> #[trigger] call_ensures(
                        Self::delete_runtime_policy,
                        (self, tenants@[j]),
                        Ok::<(), MapError>(()),
                    )) ==> #[trigger] self.may_delete_runtime_policy(tenants@[i]),
        default_ensures
            match r {
                Ok(_) => forall|i: int|
                    0 <= i < tenants@.len() ==> #[trigger] call_ensures(
                        Self::delete_runtime_policy,
                        (self, tenants@[i]),
                        Ok::<(), MapError>(()),
                    ),
                Err(error) => exists|n: int|
                    {
                        &&& 0 <= n < tenants@.len()
                        &&& #[trigger] call_ensures(
                            Self::delete_runtime_policy,
                            (self, tenants@[n]),
                            Err::<(), MapError>(error),
                        )
                        &&& forall|i: int|
                            0 <= i < n ==> #[trigger] call_ensures(
                                Self::delete_runtime_policy,
                                (self, tenants@[i]),
                                Ok::<(), MapError>(()),
                            )
                    },
            },
    {
        let mut i: usize = 0;
        while i < tenants.len()
            invariant
                i <= tenants@.len(),
                forall|k: int|
                    0 <= k < tenants@.len() && (forall|j: int|
                        0 <= j < k ==> #[trigger] call_ensures(
                            Self::delete_runtime_policy,
                            (self, tenants@[j]),
                            Ok::<(), MapError>(()),
                        )) ==> #[trigger] self.may_delete_runtime_policy(tenants@[k]),
                forall|j: int|
                    0 <= j < i ==> #[trigger] call_ensures(
                        Self::delete_runtime_policy,
                        (self, tenants@[j]),
                        Ok::<(), MapError>(()),
                    ),
            decreases tenants@.len() - i,
        {
            assert(self.may_delete_runtime_policy(tenants@[i as int]));
            let outcome = self.delete_runtime_policy(tenants[i]);
            match outcome {
                Err(error) => {
                    assert(call_ensures(
                        Self::delete_runtime_policy,
                        (self, tenants@[i as int]),
                        Err::<(), MapError>(error),
                    ));
                    return Err(error);
                },
                Ok(unit) => {
                    assert(unit == ());
                },
            }
            i += 1;
        }
        Ok(())
    }

    fn get_runtime_policy(&self, tenant: TenantKey) -> (r: Result<Option<Policy>, MapError>)
        requires
            self.may_get_runtime_policy(tenant),
    ;

    fn collect_policy_keys(&self) -> (r: Result<Vec<TenantKey>, MapError>);

    fn collect_runtime_policy_keys(&self) -> (r: Result<Vec<TenantKey>, MapError>);

    fn collect_counters(&self) -> (r: Result<Vec<(TenantKey, Counters)>, MapError>);

    fn read_global_stats(&self) -> (r: Result<GlobalStats, MapError>);

    fn seed_global_config(&self, config: GlobalConfig) -> (r: Result<(), MapError>)
        requires
            self.may_seed_global_config(config),
    ;

    fn set_global_enabled(&self, enabled: bool) -> (r: Result<(), MapError>)
        requires
            self.may_set_global_enabled(enabled),
    ;

    fn get_global_enabled(&self) -> (r: Result<bool, MapError>);

    fn set_flow_keys_live(&self, flow_keys_live: bool) -> (r: Result<(), MapError>)
        requires
            self.may_set_flow_keys_live(flow_keys_live),
    ;

    fn get_flow_keys_live(&self) -> (r: Result<bool, MapError>);
}

/// Whether `r` is what asking along `chain` gives: the first policy found, the first
/// failure, or nothing.
pub open spec fn chain_resolution<F: FnOnce(TenantKey) -> Result<Option<Policy>, MapError>>(
    getters: ChainReads<F>,
    chain: Seq<(TenantKey, PolicyMatchLevel)>,
    requested: TenantKey,
    source: PolicySource,
    r: Result<Option<ResolvedPolicy>, MapError>,
) -> bool {
    match r {
        Ok(Some(resolved)) => exists|i: int|
            {
                &&& 0 <= i < chain.len()
                &&& #[trigger] call_ensures(
                    getters.at(i),
                    (chain[i].0,),
                    Ok::<Option<Policy>, MapError>(Some(resolved.policy)),
                )
                &&& resolved == (ResolvedPolicy {
                    requested,
                    matched: chain[i].0,
                    match_level: chain[i].1,
                    policy: resolved.policy,
                    source,
                })
                &&& nothing_before(getters, chain, i)
            },
        Ok(None) => nothing_before(getters, chain, chain.len() as int),
        Err(error) => exists|i: int|
            {
                &&& 0 <= i < chain.len()
                &&& #[trigger] call_ensures(
                    getters.at(i),
                    (chain[i].0,),
                    Err::<Option<Policy>, MapError>(error),
                )
                &&& nothing_before(getters, chain, i)
            },
    }
}

/// Whether the first `n` getters found nothing for the first `n` keys of `chain`.
pub open spec fn nothing_before<F: FnOnce(TenantKey) -> Result<Option<Policy>, MapError>>(
    getters: ChainReads<F>,
    chain: Seq<(TenantKey, PolicyMatchLevel)>,
    n: int,
) -> bool {
    forall|j: int|
        0 <= j < n ==> #[trigger] call_ensures(
            getters.at(j),
            (chain[j].0,),
            Ok::<Option<Policy>, MapError>(None),
        )
}

/// Whether the fallback chain of `requested` may be asked: each key with its own
/// getter, and only where those before it found nothing.
pub open spec fn may_resolve_chain<F: FnOnce(TenantKey) -> Result<Option<Policy>, MapError>>(
    getters: ChainReads<F>,
    requested: TenantKey,
) -> bool {
    let chain = fallback_chain(requested);
    forall|i: int|
        0 <= i < chain.len() && #[trigger] nothing_before(getters, chain, i) ==> call_requires(
            getters.at(i),
            (chain[i].0,),
        )
}

fn resolved_at(
    requested: TenantKey,
    matched: TenantKey,
    match_level: PolicyMatchLevel,
    policy: Policy,
    source: PolicySource,
) -> (resolved: ResolvedPolicy)
    ensures
        resolved == (ResolvedPolicy { requested, matched, match_level, policy, source }),
{
    ResolvedPolicy { requested, matched, match_level, policy, source }
}

/// Asks along the fallback chain of `requested` for the first policy: key by key in
/// the order of the chain, each once, up to the first policy or failure.
pub fn resolve_policy_from_chain<F: FnOnce(TenantKey) -> Result<Option<Policy>, MapError>>(
    requested: TenantKey,
    source: PolicySource,
    getters: ChainReads<F>,
) -> (r: Result<Option<ResolvedPolicy>, MapError>)
    requires
        may_resolve_chain(getters, requested),
    ensures
        chain_resolution(getters, fallback_chain(requested), requested, source, r),
{
    let (candidates, levels, candidate_count) = fallback_policy_keys(requested);
    let ghost chain = fallback_chain(requested);
    let ChainReads { first, second, third, fourth, fifth } = getters;
    assert(nothing_before(getters, chain, 0));
    match first(candidates[0]) {
        Err(error) => return Err(error),
        Ok(Some(policy)) => return Ok(
            Some(resolved_at(requested, candidates[0], levels[0], policy, source)),
        ),
        Ok(None) => {},
    }
    assert(nothing_before(getters, chain, 1));
    if candidate_count == 1 {
        return Ok(None);
    }
    match second(candidates[1]) {
        Err(error) => return Err(error),
        Ok(Some(policy)) => return Ok(
            Some(resolved_at(requested, candidates[1], levels[1], policy, source)),
        ),
        Ok(None) => {},
    }
    assert(nothing_before(getters, chain, 2));
    if candidate_count == 2 {
        return Ok(None);
    }
    match third(candidates[2]) {
        Err(error) => return Err(error),
        Ok(Some(policy)) => return Ok(
            Some(resolved_at(requested, candidates[2], levels[2], policy, source)),
        ),
        Ok(None) => {},
    }
    assert(nothing_before(getters, chain, 3));
    if candidate_count == 3 {
        return Ok(None);
    }
    match fourth(candidates[3]) {
        Err(error) => return Err(error),
        Ok(Some(policy)) => return Ok(
            Some(resolved_at(requested, candidates[3], levels[3], policy, source)),
        ),
        Ok(None) => {},
    }
    assert(nothing_before(getters, chain, 4));
    if candidate_count == 4 {
        return Ok(None);
    }
    match fifth(candidates[4]) {
        Err(error) => return Err(error),
        Ok(Some(policy)) => return Ok(
            Some(resolved_at(requested, candidates[4], levels[4], policy, source)),
        ),
        Ok(None) => {},
    }
    assert(nothing_before(getters, chain, 5));
    Ok(None)
}

/// Whether `r` is what `requested` resolves to: the runtime chain's result, or the
/// base chain's where the runtime chain has nothing.
pub open spec fn chains_resolve<
    R: FnOnce(TenantKey) -> Result<Option<Policy>, MapError>,
    B: FnOnce(TenantKey) -> Result<Option<Policy>, MapError>,
>(
    get_runtime: ChainReads<R>,
    get_base: ChainReads<B>,
    requested: TenantKey,
    r: Result<Option<ResolvedPolicy>, MapError>,
) -> bool {
    let chain = fallback_chain(requested);
    ||| !(r matches Ok(None)) && chain_resolution(
        get_runtime,
        chain,
        requested,
        PolicySource::RuntimeOverride,
        r,
    )
    ||| chain_resolution(
        get_runtime,
        chain,
        requested,
        PolicySource::RuntimeOverride,
        Ok::<Option<ResolvedPolicy>, MapError>(None),
    ) && chain_resolution(get_base, chain, requested, PolicySource::Base, r)
}

/// Whether `requested` may be resolved: the runtime map may be asked along the
/// fallback chain and, only where it has nothing, the base map.
pub open spec fn may_resolve<
    R: FnOnce(TenantKey) -> Result<Option<Policy>, MapError>,
    B: FnOnce(TenantKey) -> Result<Option<Policy>, MapError>,
>(get_runtime: ChainReads<R>, get_base: ChainReads<B>, requested: TenantKey) -> bool {
    &&& may_resolve_chain(get_runtime, requested)
    &&& chain_resolution(
        get_runtime,
        fallback_chain(requested),
        requested,
        PolicySource::RuntimeOverride,
        Ok::<Option<ResolvedPolicy>, MapError>(None),
    ) ==> may_resolve_chain(get_base, requested)
}

/// Resolves the policy that applies to `requested`: the runtime fallback chain goes
/// before the base fallback chain.
pub fn resolve_chains<
    R: FnOnce(TenantKey) -> Result<Option<Policy>, MapError>,
    B: FnOnce(TenantKey) -> Result<Option<Policy>, MapError>,
>(requested: TenantKey, get_runtime: ChainReads<R>, get_base: ChainReads<B>) -> (r: Result<
    Option<ResolvedPolicy>,
    MapError,
>)
    requires
        may_resolve(get_runtime, get_base, requested),
    ensures
        chains_resolve(get_runtime, get_base, requested, r),
{
    match resolve_policy_from_chain(requested, PolicySource::RuntimeOverride, get_runtime) {
        Ok(None) => {},
        first => return first,
    }
    resolve_policy_from_chain(requested, PolicySource::Base, get_base)
}

/// Whether `get` reads the map `current`.
pub open spec fn reads_map<G: FnOnce(TenantKey) -> Result<Option<Policy>, MapError>>(
    get: G,
    current: Map<TenantKey, Policy>,
) -> bool {
    forall|key: TenantKey, answer: Result<Option<Policy>, MapError>| #[trigger]
        call_ensures(get, (key,), answer) ==> answer == Ok::<Option<Policy>, MapError>(
            lookup(current, key),
        )
}

/// Whether every getter reads the map `current`.
pub open spec fn all_read_map<G: FnOnce(TenantKey) -> Result<Option<Policy>, MapError>>(
    getters: ChainReads<G>,
    current: Map<TenantKey, Policy>,
) -> bool {
    forall|i: int| reads_map(#[trigger] getters.at(i), current)
}

proof fn chain_resolution_is_first_match<F: FnOnce(TenantKey) -> Result<Option<Policy>, MapError>>(
    getters: ChainReads<F>,
    table: Map<TenantKey, Policy>,
    requested: TenantKey,
    source: PolicySource,
    r: Result<Option<ResolvedPolicy>, MapError>,
)
    requires
        all_read_map(getters, table),
        chain_resolution(getters, fallback_chain(requested), requested, source, r),
    ensures
        match first_match(table, fallback_chain(requested)) {
            Some(policy) => r matches Ok(Some(resolved)) && resolved.policy == policy
                && resolved.source == source,
            None => r == Ok::<Option<ResolvedPolicy>, MapError>(None),
        },
{
    let chain = fallback_chain(requested);
    assert forall|n: int, j: int|
        #[trigger] nothing_before(getters, chain, n) && 0 <= j < n implies !table.dom().contains(
        (#[trigger] chain[j]).0,
    ) by {
        assert(call_ensures(
            getters.at(j),
            (chain[j].0,),
            Ok::<Option<Policy>, MapError>(None),
        ));
    }
    match r {
        Ok(Some(resolved)) => {
            let i = choose|i: int|
                {
                    &&& 0 <= i < chain.len()
                    &&& #[trigger] call_ensures(
                        getters.at(i),
                        (chain[i].0,),
                        Ok::<Option<Policy>, MapError>(Some(resolved.policy)),
                    )
                    &&& resolved == (ResolvedPolicy {
                        requested,
                        matched: chain[i].0,
                        match_level: chain[i].1,
                        policy: resolved.policy,
                        source,
                    })
                    &&& nothing_before(getters, chain, i)
                };
            most_specific_entry_wins(table, chain, i);
        },
        Ok(None) => {
            no_entry_no_match(table, chain);
        },
        Err(error) => {},
    }
}

/// What a key resolves to says where it was found: in the runtime table under the first
/// key of the fallback chain that it holds, or else in the base table likewise; at the
/// level at which that key stands in the chain; and nothing where neither table holds
/// any. Tables that can be read never fail.
pub proof fn resolution_tells_where_it_was_found<
    R: FnOnce(TenantKey) -> Result<Option<Policy>, MapError>,
    B: FnOnce(TenantKey) -> Result<Option<Policy>, MapError>,
>(
    get_runtime: ChainReads<R>,
    get_base: ChainReads<B>,
    runtime: Map<TenantKey, Policy>,
    base: Map<TenantKey, Policy>,
    requested: TenantKey,
    r: Result<Option<ResolvedPolicy>, MapError>,
)
    requires
        all_read_map(get_runtime, runtime),
        all_read_map(get_base, base),
        chains_resolve(get_runtime, get_base, requested, r),
    ensures
        r is Ok,
        r matches Ok(Some(resolved)) ==> {
            &&& resolved.requested == requested
            &&& crate::common::match_level(requested, resolved.matched) == Some(
                resolved.match_level,
            )
            &&& resolved.source == PolicySource::RuntimeOverride ==> runtime.dom().contains(
                resolved.matched,
            ) && runtime[resolved.matched] == resolved.policy && exists|i: int|
                0 <= i < fallback_chain(requested).len() && (#[trigger] fallback_chain(
                    requested,
                )[i]).0 == resolved.matched && none_before(runtime, requested, i)
            &&& resolved.source == PolicySource::Base ==> base.dom().contains(resolved.matched)
                && base[resolved.matched] == resolved.policy && none_before(
                runtime,
                requested,
                fallback_chain(requested).len() as int,
            ) && exists|i: int|
                0 <= i < fallback_chain(requested).len() && (#[trigger] fallback_chain(
                    requested,
                )[i]).0 == resolved.matched && none_before(base, requested, i)
        },
        r matches Ok(None) ==> none_before(
            runtime,
            requested,
            fallback_chain(requested).len() as int,
        ) && none_before(base, requested, fallback_chain(requested).len() as int),
{
    if !(r matches Ok(None)) && chain_resolution(
        get_runtime,
        fallback_chain(requested),
        requested,
        PolicySource::RuntimeOverride,
        r,
    ) {
        chain_tells_where_it_was_found(
            get_runtime,
            runtime,
            requested,
            PolicySource::RuntimeOverride,
            r,
        );
    } else {
        chain_tells_where_it_was_found(
            get_runtime,
            runtime,
            requested,
            PolicySource::RuntimeOverride,
            Ok::<Option<ResolvedPolicy>, MapError>(None),
        );
        chain_tells_where_it_was_found(get_base, base, requested, PolicySource::Base, r);
    }
}

/// Whether `table` holds none of the first `n` keys of the fallback chain of
/// `requested`.
pub open spec fn none_before(
    table: Map<TenantKey, Policy>,
    requested: TenantKey,
    n: int,
) -> bool {
    forall|j: int|
        0 <= j < n ==> !table.dom().contains((#[trigger] fallback_chain(requested)[j]).0)
}

proof fn chain_tells_where_it_was_found<F: FnOnce(TenantKey) -> Result<Option<Policy>, MapError>>(
    getters: ChainReads<F>,
    table: Map<TenantKey, Policy>,
    requested: TenantKey,
    source: PolicySource,
    r: Result<Option<ResolvedPolicy>, MapError>,
)
    requires
        all_read_map(getters, table),
        chain_resolution(getters, fallback_chain(requested), requested, source, r),
    ensures
        r is Ok,
        r matches Ok(Some(resolved)) ==> {
            &&& resolved.requested == requested
            &&& resolved.source == source
            &&& crate::common::match_level(requested, resolved.matched) == Some(
                resolved.match_level,
            )
            &&& table.dom().contains(resolved.matched)
            &&& table[resolved.matched] == resolved.policy
            &&& exists|i: int|
                0 <= i < fallback_chain(requested).len() && (#[trigger] fallback_chain(
                    requested,
                )[i]).0 == resolved.matched && none_before(table, requested, i)
        },
        r matches Ok(None) ==> none_before(
            table,
            requested,
            fallback_chain(requested).len() as int,
        ),
{
    let chain = fallback_chain(requested);
    assert forall|n: int| #[trigger] nothing_before(getters, chain, n) implies none_before(
        table,
        requested,
        n,
    ) by {
        assert forall|j: int| 0 <= j < n implies !table.dom().contains((#[trigger] chain[j]).0) by {
            assert(reads_map(getters.at(j), table));
            assert(call_ensures(
                getters.at(j),
                (chain[j].0,),
                Ok::<Option<Policy>, MapError>(None),
            ));
        }
    }
    match r {
        Ok(Some(resolved)) => {
            let i = choose|i: int|
                {
                    &&& 0 <= i < chain.len()
                    &&& #[trigger] call_ensures(
                        getters.at(i),
                        (chain[i].0,),
                        Ok::<Option<Policy>, MapError>(Some(resolved.policy)),
                    )
                    &&& resolved == (ResolvedPolicy {
                        requested,
                        matched: chain[i].0,
                        match_level: chain[i].1,
                        policy: resolved.policy,
                        source,
                    })
                    &&& nothing_before(getters, chain, i)
                };
            assert(reads_map(getters.at(i), table));
            crate::common::fallback_chain_has_no_duplicates(requested);
            assert(chain[i].0 == resolved.matched);
        },
        Ok(None) => {
            assert(nothing_before(getters, chain, chain.len() as int));
        },
        Err(error) => {
            let i = choose|i: int|
                {
                    &&& 0 <= i < chain.len()
                    &&& #[trigger] call_ensures(
                        getters.at(i),
                        (chain[i].0,),
                        Err::<Option<Policy>, MapError>(error),
                    )
                    &&& nothing_before(getters, chain, i)
                };
            assert(reads_map(getters.at(i), table));
        },
    }
}

/// Resolution agrees with the packet path: where the maps read as tables, what a
/// key resolves to is the policy by which its packets are judged, taken from the
/// runtime table exactly when that has an entry of the fallback chain.
pub proof fn resolution_agrees_with_packet_path<
    R: FnOnce(TenantKey) -> Result<Option<Policy>, MapError>,
    B: FnOnce(TenantKey) -> Result<Option<Policy>, MapError>,
>(
    get_runtime: ChainReads<R>,
    get_base: ChainReads<B>,
    runtime: Map<TenantKey, Policy>,
    base: Map<TenantKey, Policy>,
    requested: TenantKey,
    r: Result<Option<ResolvedPolicy>, MapError>,
)
    requires
        all_read_map(get_runtime, runtime),
        all_read_map(get_base, base),
        chains_resolve(get_runtime, get_base, requested, r),
    ensures
        match effective_policy(runtime, base, requested) {
            Some(policy) => r matches Ok(Some(resolved)) && resolved.policy == policy && (
            resolved.source == PolicySource::RuntimeOverride <==> first_match(
                runtime,
                fallback_chain(requested),
            ) is Some),
            None => r == Ok::<Option<ResolvedPolicy>, MapError>(None),
        },
{
    let chain = fallback_chain(requested);
    if !(r matches Ok(None)) && chain_resolution(
        get_runtime,
        chain,
        requested,
        PolicySource::RuntimeOverride,
        r,
    ) {
        chain_resolution_is_first_match(
            get_runtime,
            runtime,
            requested,
            PolicySource::RuntimeOverride,
            r,
        );
    } else {
        chain_resolution_is_first_match(
            get_runtime,
            runtime,
            requested,
            PolicySource::RuntimeOverride,
            Ok::<Option<ResolvedPolicy>, MapError>(None),
        );
        chain_resolution_is_first_match(get_base, base, requested, PolicySource::Base, r);
    }
}

/// A handle on the kernel maps.
pub struct MapClient<O: MapOps> {
    inner: Arc<O>,
}

impl<O: MapOps> Clone for MapClient<O> {
    fn clone(&self) -> (copy: Self)
        ensures
            copy.ops() == self.ops(),
    {
        MapClient { inner: Arc::clone(&self.inner) }
    }
}

impl<O: MapOps> MapClient<O> {
    /// The operations behind the handle.
    pub closed spec fn ops(&self) -> O {
        *self.inner
    }

    /// A handle on `ops`.
    pub fn new(ops: Arc<O>) -> (client: Self)
        ensures
            client.ops() == *ops,
    {
        MapClient { inner: ops }
    }

    /// Sets a base policy.
    pub fn upsert_policy(&self, tenant: TenantKey, policy: Policy) -> (r: Result<(), MapError>)
        requires
            self.ops().may_upsert_policy(tenant, policy),
        ensures
            call_ensures(O::upsert_policy, (&self.ops(), tenant, policy), r),
    {
        self.inner.upsert_policy(tenant, policy)
    }

    /// Removes a base policy.
    pub fn delete_policy(&self, tenant: TenantKey) -> (r: Result<(), MapError>)
        requires
            self.ops().may_delete_policy(tenant),
        ensures
            call_ensures(O::delete_policy, (&self.ops(), tenant), r),
    {
        self.inner.delete_policy(tenant)
    }

    /// Reads the base policy of exactly this key.
    pub fn get_policy(&self, tenant: TenantKey) -> (r: Result<Option<Policy>, MapError>)
        requires
            self.ops().may_get_policy(tenant),
        ensures
            call_ensures(O::get_policy, (&self.ops(), tenant), r),
    {
        self.inner.get_policy(tenant)
    }

    /// Sets a runtime override.
    pub fn upsert_runtime_policy(&self, tenant: TenantKey, policy: Policy) -> (r: Result<
        (),
        MapError,
    >)
        requires
            self.ops().may_upsert_runtime_policy(tenant, policy),
        ensures
            call_ensures(O::upsert_runtime_policy, (&self.ops(), tenant, policy), r),
    {
        self.inner.upsert_runtime_policy(tenant, policy)
    }

    /// Removes a runtime override.
    pub fn delete_runtime_policy(&self, tenant: TenantKey) -> (r: Result<(), MapError>)
        requires
            self.ops().may_delete_runtime_policy(tenant),
        ensures
            call_ensures(O::delete_runtime_policy, (&self.ops(), tenant), r),
    {
        self.inner.delete_runtime_policy(tenant)
    }

    /// Reads the runtime override of exactly this key.
    pub fn get_runtime_policy(&self, tenant: TenantKey) -> (r: Result<Option<Policy>, MapError>)
        requires
            self.ops().may_get_runtime_policy(tenant),
        ensures
            call_ensures(O::get_runtime_policy, (&self.ops(), tenant), r),
    {
        self.inner.get_runtime_policy(tenant)
    }

    /// Sets base policies.
    pub fn upsert_policies_batch(&self, entries: &[(TenantKey, Policy)]) -> (r: Result<
        (),
        MapError,
    >)
        requires
            forall|i: int|
                0 <= i < entries@.len() && (forall|j: int|
                    0 <= j < i ==> #[trigger] call_ensures(
                        O::upsert_policy,
                        (&self.ops(), entries@[j].0, entries@[j].1),
                        Ok::<(), MapError>(()),
                    )) ==> #[trigger] self.ops().may_upsert_policy(entries@[i].0, entries@[i].1),
        ensures
            call_ensures(O::upsert_policies_batch, (&self.ops(), entries), r),
    {
        self.inner.upsert_policies_batch(entries)
    }

    /// Removes base policies.
    pub fn delete_policies_batch(&self, tenants: &[TenantKey]) -> (r: Result<(), MapError>)
        requires
            forall|i: int|
                0 <= i < tenants@.len() && (forall|j: int|
                    0 <= j < i ==> #[trigger] call_ensures(
                        O::delete_policy,
                        (&self.ops(), tenants@[j]),
                        Ok::<(), MapError>(()),
                    )) ==> #[trigger] self.ops().may_delete_policy(tenants@[i]),
        ensures
            call_ensures(O::delete_policies_batch, (&self.ops(), tenants), r),
    {
        self.inner.delete_policies_batch(tenants)
    }

    /// Sets runtime overrides.
    pub fn upsert_runtime_policies_batch(&self, entries: &[(TenantKey, Policy)]) -> (r: Result<
        (),
        MapError,
    >)
        requires
            forall|i: int|
                0 <= i < entries@.len() && (forall|j: int|
                    0 <= j < i ==> #[trigger] call_ensures(
                        O::upsert_runtime_policy,
                        (&self.ops(), entries@[j].0, entries@[j].1),
                        Ok::<(), MapError>(()),
                    )) ==> #[trigger] self.ops().may_upsert_runtime_policy(entries@[i].0, entries@[i].1),
        ensures
            call_ensures(O::upsert_runtime_policies_batch, (&self.ops(), entries), r),
    {
        self.inner.upsert_runtime_policies_batch(entries)
    }

    /// Removes runtime overrides.
    pub fn delete_runtime_policies_batch(&self, tenants: &[TenantKey]) -> (r: Result<(), MapError>)
        requires
            forall|i: int|
                0 <= i < tenants@.len() && (forall|j: int|
                    0 <= j < i ==> #[trigger] call_ensures(
                        O::delete_runtime_policy,
                        (&self.ops(), tenants@[j]),
                        Ok::<(), MapError>(()),
                    )) ==> #[trigger] self.ops().may_delete_runtime_policy(tenants@[i]),
        ensures
            call_ensures(O::delete_runtime_policies_batch, (&self.ops(), tenants), r),
    {
        self.inner.delete_runtime_policies_batch(tenants)
    }

    /// Whether `r` is what the maps resolve `requested` to: the runtime chain's
    /// result, or the base chain's where the runtime chain has nothing.
    pub open spec fn resolves_to(
        &self,
        requested: TenantKey,
        r: Result<Option<ResolvedPolicy>, MapError>,
    ) -> bool {
        ||| !(r matches Ok(None)) && self.chain_gives(
            requested,
            PolicySource::RuntimeOverride,
            r,
        )
        ||| self.chain_gives(
            requested,
            PolicySource::RuntimeOverride,
            Ok::<Option<ResolvedPolicy>, MapError>(None),
        ) && self.chain_gives(requested, PolicySource::Base, r)
    }

    /// Whether `r` is what asking one map along the fallback chain of
    /// `requested` gives.
    pub open spec fn chain_gives(
        &self,
        requested: TenantKey,
        source: PolicySource,
        r: Result<Option<ResolvedPolicy>, MapError>,
    ) -> bool {
        let chain = fallback_chain(requested);
        match r {
            Ok(Some(resolved)) => exists|i: int|
                {
                    &&& 0 <= i < chain.len()
                    &&& #[trigger] self.answers(
                        source,
                        chain[i].0,
                        Ok::<Option<Policy>, MapError>(Some(resolved.policy)),
                    )
                    &&& resolved == (ResolvedPolicy {
                        requested,
                        matched: chain[i].0,
                        match_level: chain[i].1,
                        policy: resolved.policy,
                        source,
                    })
                    &&& self.answers_nothing(source, requested, i)
                },
            Ok(None) => self.answers_nothing(source, requested, chain.len() as int),
            Err(error) => exists|i: int|
                {
                    &&& 0 <= i < chain.len()
                    &&& #[trigger] self.answers(
                        source,
                        chain[i].0,
                        Err::<Option<Policy>, MapError>(error),
                    )
                    &&& self.answers_nothing(source, requested, i)
                },
        }
    }

    /// Whether a map can answer `r` for `key`.
    pub open spec fn answers(
        &self,
        source: PolicySource,
        key: TenantKey,
        r: Result<Option<Policy>, MapError>,
    ) -> bool {
        match source {
            PolicySource::RuntimeOverride => call_ensures(
                O::get_runtime_policy,
                (&self.ops(), key),
                r,
            ),
            PolicySource::Base => call_ensures(O::get_policy, (&self.ops(), key), r),
        }
    }

    /// Whether a map answers from `table`.
    pub open spec fn answers_from(
        &self,
        source: PolicySource,
        table: Map<TenantKey, Policy>,
    ) -> bool {
        forall|key: TenantKey, answer: Result<Option<Policy>, MapError>| #[trigger]
            self.answers(source, key, answer) ==> answer == Ok::<Option<Policy>, MapError>(
                lookup(table, key),
            )
    }

    /// Whether a map has nothing for the first `n` keys of the fallback chain.
    pub open spec fn answers_nothing(
        &self,
        source: PolicySource,
        requested: TenantKey,
        n: int,
    ) -> bool {
        forall|j: int|
            0 <= j < n ==> #[trigger] self.answers(
                source,
                fallback_chain(requested)[j].0,
                Ok::<Option<Policy>, MapError>(None),
            )
    }

    /// Whether a map may be asked along the fallback chain of `requested`: each key
    /// only where those before it have nothing.
    pub open spec fn may_ask(&self, source: PolicySource, requested: TenantKey) -> bool {
        let chain = fallback_chain(requested);
        forall|i: int|
            0 <= i < chain.len() && #[trigger] self.answers_nothing(source, requested, i)
                ==> match source {
                PolicySource::RuntimeOverride => self.ops().may_get_runtime_policy(chain[i].0),
                PolicySource::Base => self.ops().may_get_policy(chain[i].0),
            }
    }

    /// Resolves the policy that applies to `requested`: the runtime fallback
    /// chain goes before the base fallback chain.
    pub fn resolve_policy(&self, requested: TenantKey) -> (r: Result<
        Option<ResolvedPolicy>,
        MapError,
    >)
        requires
            self.may_ask(PolicySource::RuntimeOverride, requested),
            self.chain_gives(
                requested,
                PolicySource::RuntimeOverride,
                Ok::<Option<ResolvedPolicy>, MapError>(None),
            ) ==> self.may_ask(PolicySource::Base, requested),
        ensures
            self.resolves_to(requested, r),
    {
        let from_runtime = |tenant: TenantKey| -> (answer: Result<Option<Policy>, MapError>)
            requires
                self.ops().may_get_runtime_policy(tenant),
            ensures
                self.answers(PolicySource::RuntimeOverride, tenant, answer),
            { self.get_runtime_policy(tenant) };
        let from_base = |tenant: TenantKey| -> (answer: Result<Option<Policy>, MapError>)
            requires
                self.ops().may_get_policy(tenant),
            ensures
                self.answers(PolicySource::Base, tenant, answer),
            { self.get_policy(tenant) };
        let runtime_reads = ChainReads::each(from_runtime);
        let base_reads = ChainReads::each(from_base);
        let ghost chain = fallback_chain(requested);
        let ghost none = Ok::<Option<ResolvedPolicy>, MapError>(None);
        proof {
            nothing_is_nothing(self, runtime_reads, requested, PolicySource::RuntimeOverride);
            nothing_is_nothing(self, base_reads, requested, PolicySource::Base);
            if chain_resolution(
                runtime_reads,
                chain,
                requested,
                PolicySource::RuntimeOverride,
                none,
            ) {
                chain_of_closure(
                    self,
                    runtime_reads,
                    requested,
                    PolicySource::RuntimeOverride,
                    none,
                );
            }
        }
        let r = resolve_chains(requested, runtime_reads, base_reads);
        proof {
            if chain_resolution(runtime_reads, chain, requested, PolicySource::RuntimeOverride, r) {
                chain_of_closure(self, runtime_reads, requested, PolicySource::RuntimeOverride, r);
            }
            if chain_resolution(base_reads, chain, requested, PolicySource::Base, r) {
                chain_of_closure(self, base_reads, requested, PolicySource::Base, r);
            }
        }
        r
    }

    /// Reads the counters of all flows.
    pub fn collect_counters(&self) -> (r: Result<Vec<(TenantKey, Counters)>, MapError>)
        ensures
            call_ensures(O::collect_counters, (&self.ops(),), r),
    {
        self.inner.collect_counters()
    }

    /// Lists the keys with a base policy.
    pub fn collect_policy_keys(&self) -> (r: Result<Vec<TenantKey>, MapError>)
        ensures
            call_ensures(O::collect_policy_keys, (&self.ops(),), r),
    {
        self.inner.collect_policy_keys()
    }

    /// Lists the keys with a runtime override.
    pub fn collect_runtime_policy_keys(&self) -> (r: Result<Vec<TenantKey>, MapError>)
        ensures
            call_ensures(O::collect_runtime_policy_keys, (&self.ops(),), r),
    {
        self.inner.collect_runtime_policy_keys()
    }

    /// The cgroups that have a base policy.
    pub fn collect_base_policy_tenants(&self) -> (r: Result<BTreeSet<u64>, MapError>)
        ensures
            match r {
                Err(error) => call_ensures(
                    O::collect_policy_keys,
                    (&self.ops(),),
                    Err::<Vec<TenantKey>, MapError>(error),
                ),
                Ok(tenants) => exists|keys: Vec<TenantKey>|
                    {
                        &&& #[trigger] call_ensures(
                            O::collect_policy_keys,
                            (&self.ops(),),
                            Ok::<Vec<TenantKey>, MapError>(keys),
                        )
                        &&& tenants@ == cgroups_of(keys@)
                    },
            },
    {
        match self.collect_policy_keys() {
            Err(error) => Err(error),
            Ok(keys) => Ok(cgroup_set(keys.as_slice())),
        }
    }

    /// Reads the global totals.
    pub fn read_global_stats(&self) -> (r: Result<GlobalStats, MapError>)
        ensures
            call_ensures(O::read_global_stats, (&self.ops(),), r),
    {
        self.inner.read_global_stats()
    }

    /// Stores both switches of the packet path.
    pub fn seed_global_config(&self, config: GlobalConfig) -> (r: Result<(), MapError>)
        requires
            self.ops().may_seed_global_config(config),
        ensures
            call_ensures(O::seed_global_config, (&self.ops(), config), r),
    {
        self.inner.seed_global_config(config)
    }

    /// Switches the filter on or off.
    pub fn set_global_enabled(&self, enabled: bool) -> (r: Result<(), MapError>)
        requires
            self.ops().may_set_global_enabled(enabled),
        ensures
            call_ensures(O::set_global_enabled, (&self.ops(), enabled), r),
    {
        self.inner.set_global_enabled(enabled)
    }

    /// Whether the filter is on.
    pub fn get_global_enabled(&self) -> (r: Result<bool, MapError>)
        ensures
            call_ensures(O::get_global_enabled, (&self.ops(),), r),
    {
        self.inner.get_global_enabled()
    }

    /// Switches flow-aware matching on or off.
    pub fn set_flow_keys_live(&self, flow_keys_live: bool) -> (r: Result<(), MapError>)
        requires
            self.ops().may_set_flow_keys_live(flow_keys_live),
        ensures
            call_ensures(O::set_flow_keys_live, (&self.ops(), flow_keys_live), r),
    {
        self.inner.set_flow_keys_live(flow_keys_live)
    }

    /// Whether flow-aware matching is on.
    pub fn get_flow_keys_live(&self) -> (r: Result<bool, MapError>)
        ensures
            call_ensures(O::get_flow_keys_live, (&self.ops(),), r),
    {
        self.inner.get_flow_keys_live()
    }
}

proof fn nothing_is_nothing<
    O: MapOps,
    F: FnOnce(TenantKey) -> Result<Option<Policy>, MapError>,
>(client: &MapClient<O>, getters: ChainReads<F>, requested: TenantKey, source: PolicySource)
    requires
        forall|i: int, key: TenantKey, answer: Result<Option<Policy>, MapError>| #[trigger]
            call_ensures(getters.at(i), (key,), answer) ==> client.answers(source, key, answer),
    ensures
        forall|n: int| #[trigger]
            nothing_before(getters, fallback_chain(requested), n) ==> client.answers_nothing(
                source,
                requested,
                n,
            ),
{
    let chain = fallback_chain(requested);
    assert forall|n: int| #[trigger] nothing_before(
        getters,
        chain,
        n,
    ) implies client.answers_nothing(source, requested, n) by {
        assert forall|j: int| 0 <= j < n implies #[trigger] client.answers(
            source,
            chain[j].0,
            Ok::<Option<Policy>, MapError>(None),
        ) by {
            assert(call_ensures(
                getters.at(j),
                (chain[j].0,),
                Ok::<Option<Policy>, MapError>(None),
            ));
        }
    }
}

proof fn chain_of_closure<
    O: MapOps,
    F: FnOnce(TenantKey) -> Result<Option<Policy>, MapError>,
>(
    client: &MapClient<O>,
    getters: ChainReads<F>,
    requested: TenantKey,
    source: PolicySource,
    r: Result<Option<ResolvedPolicy>, MapError>,
)
    requires
        chain_resolution(getters, fallback_chain(requested), requested, source, r),
        forall|i: int, key: TenantKey, answer: Result<Option<Policy>, MapError>| #[trigger]
            call_ensures(getters.at(i), (key,), answer) ==> client.answers(source, key, answer),
    ensures
        client.chain_gives(requested, source, r),
{
    let chain = fallback_chain(requested);
    nothing_is_nothing(client, getters, requested, source);
    match r {
        Ok(Some(resolved)) => {
            let i = choose|i: int|
                {
                    &&& 0 <= i < chain.len()
                    &&& #[trigger] call_ensures(
                        getters.at(i),
                        (chain[i].0,),
                        Ok::<Option<Policy>, MapError>(Some(resolved.policy)),
                    )
                    &&& resolved == (ResolvedPolicy {
                        requested,
                        matched: chain[i].0,
                        match_level: chain[i].1,
                        policy: resolved.policy,
                        source,
                    })
                    &&& nothing_before(getters, chain, i)
                };
            assert(client.answers(
                source,
                chain[i].0,
                Ok::<Option<Policy>, MapError>(Some(resolved.policy)),
            ));
        },
        Ok(None) => {},
        Err(error) => {
            let i = choose|i: int|
                {
                    &&& 0 <= i < chain.len()
                    &&& #[trigger] call_ensures(
                        getters.at(i),
                        (chain[i].0,),
                        Err::<Option<Policy>, MapError>(error),
                    )
                    &&& nothing_before(getters, chain, i)
                };
            assert(client.answers(source, chain[i].0, Err::<Option<Policy>, MapError>(error)));
        },
    }
}

proof fn client_chain_is_first_match<O: MapOps>(
    client: &MapClient<O>,
    table: Map<TenantKey, Policy>,
    requested: TenantKey,
    source: PolicySource,
    r: Result<Option<ResolvedPolicy>, MapError>,
)
    requires
        client.answers_from(source, table),
        client.chain_gives(requested, source, r),
    ensures
        match first_match(table, fallback_chain(requested)) {
            Some(policy) => r matches Ok(Some(resolved)) && resolved.policy == policy
                && resolved.source == source,
            None => r == Ok::<Option<ResolvedPolicy>, MapError>(None),
        },
        r matches Ok(Some(resolved)) ==> {
            &&& resolved.requested == requested
            &&& crate::common::match_level(requested, resolved.matched) == Some(
                resolved.match_level,
            )
            &&& table.dom().contains(resolved.matched)
            &&& table[resolved.matched] == resolved.policy
            &&& exists|i: int|
                0 <= i < fallback_chain(requested).len() && (#[trigger] fallback_chain(
                    requested,
                )[i]).0 == resolved.matched && none_before(table, requested, i)
        },
{
    let chain = fallback_chain(requested);
    assert forall|n: int, j: int|
        #[trigger] client.answers_nothing(source, requested, n) && 0 <= j
            < n implies !table.dom().contains((#[trigger] chain[j]).0) by {
        assert(client.answers(source, chain[j].0, Ok::<Option<Policy>, MapError>(None)));
    }
    match r {
        Ok(Some(resolved)) => {
            let i = choose|i: int|
                {
                    &&& 0 <= i < chain.len()
                    &&& #[trigger] client.answers(
                        source,
                        chain[i].0,
                        Ok::<Option<Policy>, MapError>(Some(resolved.policy)),
                    )
                    &&& resolved == (ResolvedPolicy {
                        requested,
                        matched: chain[i].0,
                        match_level: chain[i].1,
                        policy: resolved.policy,
                        source,
                    })
                    &&& client.answers_nothing(source, requested, i)
                };
            crate::common::fallback_chain_has_no_duplicates(requested);
            assert(chain[i].0 == resolved.matched);
            assert(none_before(table, requested, i));
            most_specific_entry_wins(table, chain, i);
        },
        Ok(None) => {
            no_entry_no_match(table, chain);
        },
        Err(error) => {},
    }
}

/// What a client resolves agrees with the packet path: where its maps answer from
/// tables, what a key resolves to is the policy by which its packets are judged,
/// taken from the runtime table exactly when that has an entry of the fallback chain. It
/// says under which key it was found, the first of the chain that the table holds, and
/// at which level.
pub proof fn client_resolution_agrees_with_packet_path<O: MapOps>(
    client: &MapClient<O>,
    runtime: Map<TenantKey, Policy>,
    base: Map<TenantKey, Policy>,
    requested: TenantKey,
    r: Result<Option<ResolvedPolicy>, MapError>,
)
    requires
        client.answers_from(PolicySource::RuntimeOverride, runtime),
        client.answers_from(PolicySource::Base, base),
        client.resolves_to(requested, r),
    ensures
        match effective_policy(runtime, base, requested) {
            Some(policy) => r matches Ok(Some(resolved)) && resolved.policy == policy && (
            resolved.source == PolicySource::RuntimeOverride <==> first_match(
                runtime,
                fallback_chain(requested),
            ) is Some),
            None => r == Ok::<Option<ResolvedPolicy>, MapError>(None),
        },
        r matches Ok(Some(resolved)) ==> {
            let table = if resolved.source == PolicySource::RuntimeOverride {
                runtime
            } else {
                base
            };
            &&& resolved.requested == requested
            &&& crate::common::match_level(requested, resolved.matched) == Some(
                resolved.match_level,
            )
            &&& table.dom().contains(resolved.matched)
            &&& table[resolved.matched] == resolved.policy
            &&& exists|i: int|
                0 <= i < fallback_chain(requested).len() && (#[trigger] fallback_chain(
                    requested,
                )[i]).0 == resolved.matched && none_before(table, requested, i)
        },
{
    if !(r matches Ok(None)) && client.chain_gives(requested, PolicySource::RuntimeOverride, r) {
        client_chain_is_first_match(
            client,
            runtime,
            requested,
            PolicySource::RuntimeOverride,
            r,
        );
    } else {
        client_chain_is_first_match(
            client,
            runtime,
            requested,
            PolicySource::RuntimeOverride,
            Ok::<Option<ResolvedPolicy>, MapError>(None),
        );
        client_chain_is_first_match(client, base, requested, PolicySource::Base, r);
    }
}

/// Resolving fails only where a map did, with the same error: for a key of the fallback
/// chain, where the keys before it had nothing; and the base map is asked only where the
/// runtime map has nothing at all.
pub proof fn a_failed_resolution_has_a_cause<O: MapOps>(
    client: &MapClient<O>,
    requested: TenantKey,
    error: MapError,
)
    requires
        client.resolves_to(requested, Err::<Option<ResolvedPolicy>, MapError>(error)),
    ensures
        ({
            ||| exists|i: int|
                0 <= i < fallback_chain(requested).len() && #[trigger] client.answers(
                    PolicySource::RuntimeOverride,
                    fallback_chain(requested)[i].0,
                    Err::<Option<Policy>, MapError>(error),
                ) && client.answers_nothing(PolicySource::RuntimeOverride, requested, i)
            ||| client.answers_nothing(
                PolicySource::RuntimeOverride,
                requested,
                fallback_chain(requested).len() as int,
            ) && exists|i: int|
                0 <= i < fallback_chain(requested).len() && #[trigger] client.answers(
                    PolicySource::Base,
                    fallback_chain(requested)[i].0,
                    Err::<Option<Policy>, MapError>(error),
                ) && client.answers_nothing(PolicySource::Base, requested, i)
        }),
{
}

/// The cgroups of `keys`.
pub open spec fn cgroups_of(keys: Seq<TenantKey>) -> Set<u64> {
    Set::new(|id: u64| exists|i: int| 0 <= i < keys.len() && (#[trigger] keys[i]).cgroup_id == id)
}

pub(crate) proof fn cgroups_of_one_more(keys: Seq<TenantKey>, i: int)
    requires
        0 <= i < keys.len(),
    ensures
        cgroups_of(keys.take(i + 1)) == cgroups_of(keys.take(i)).insert(keys[i].cgroup_id),
{
    let head = keys.take(i);
    let next = keys.take(i + 1);
    assert(next[i].cgroup_id == keys[i].cgroup_id);
    assert forall|id: u64| cgroups_of(next).contains(id) == cgroups_of(head).insert(
        keys[i].cgroup_id,
    ).contains(id) by {
        if cgroups_of(head).contains(id) {
            let j = choose|j: int| 0 <= j < head.len() && (#[trigger] head[j]).cgroup_id == id;
            assert(next[j].cgroup_id == id);
        }
        if cgroups_of(next).contains(id) && id != keys[i].cgroup_id {
            let j = choose|j: int| 0 <= j < next.len() && (#[trigger] next[j]).cgroup_id == id;
            assert(head[j].cgroup_id == id);
        }
    }
    assert(cgroups_of(next) =~= cgroups_of(head).insert(keys[i].cgroup_id));
}

/// The cgroups of `keys`.
pub fn cgroup_set(keys: &[TenantKey]) -> (tenants: BTreeSet<u64>)
    ensures
        tenants@ == cgroups_of(keys@),
{
    broadcast use vstd::std_specs::btree::group_btree_axioms;

    proof {
        u64_keys_are_ordered();
    }
    let mut tenants: BTreeSet<u64> = BTreeSet::new();
    let mut i: usize = 0;
    assert(tenants@ =~= cgroups_of(keys@.take(0)));
    while i < keys.len()
        invariant
            i <= keys@.len(),
            tenants@ == cgroups_of(keys@.take(i as int)),
        decreases keys@.len() - i,
    {
        tenants.insert(keys[i].cgroup_id);
        proof {
            cgroups_of_one_more(keys@, i as int);
        }
        i += 1;
    }
    assert(keys@.take(i as int) =~= keys@);
    tenants
}

/// The configuration in force: the stored one, or everything switched on.
pub open spec fn config_in_force(stored: Option<GlobalConfig>) -> GlobalConfig {
    match stored {
        Some(config) => config,
        None => GlobalConfig { enabled: 1, flow_keys_live: 1, _pad: [0, 0, 0, 0, 0, 0] },
    }
}

/// A stored configuration is in force as it is; without one everything is switched on.
pub proof fn everything_is_on_by_default(stored: Option<GlobalConfig>)
    ensures
        stored matches Some(config) ==> config_in_force(stored) == config,
        stored is None ==> config_in_force(stored).enabled == 1 && config_in_force(
            stored,
        ).flow_keys_live == 1,
{
}

/// The configuration in force.
pub fn read_global_config_or_default(stored: Option<GlobalConfig>) -> (config: GlobalConfig)
    ensures
        config == config_in_force(stored),
{
    match stored {
        Some(config) => config,
        None => GlobalConfig { enabled: 1, flow_keys_live: 1, _pad: [0, 0, 0, 0, 0, 0] },
    }
}

/// The configuration to store for switching the filter, all else unchanged.
pub fn config_with_enabled(stored: Option<GlobalConfig>, enabled: bool) -> (config: GlobalConfig)
    ensures
        config == (GlobalConfig {
            enabled: if enabled {
                1
            } else {
                0
            },
            ..config_in_force(stored)
        }),
{
    let mut config = read_global_config_or_default(stored);
    config.enabled = if enabled {
        1
    } else {
        0
    };
    config
}

/// The configuration to store for switching flow keys, all else unchanged.
pub fn config_with_flow_keys_live(stored: Option<GlobalConfig>, flow_keys_live: bool) -> (config:
    GlobalConfig)
    ensures
        config == (GlobalConfig {
            flow_keys_live: if flow_keys_live {
                1
            } else {
                0
            },
            ..config_in_force(stored)
        }),
{
    let mut config = read_global_config_or_default(stored);
    config.flow_keys_live = if flow_keys_live {
        1
    } else {
        0
    };
    config
}

/// Whether `error` says that the runtime map does not exist.
pub open spec fn runtime_map_missing(error: MapError) -> bool {
    error matches MapError::MissingMap(name) && name@ == RUNTIME_POLICY_MAP_NAME@
}

/// Only the runtime map may be missing: any other missing map is a failure, and so is any
/// other error.
pub proof fn only_the_runtime_map_may_be_missing(name: &'static str, reason: String)
    ensures
        runtime_map_missing(MapError::MissingMap(name)) <==> name@ == "RUNTIME_POLICY_MAP"@,
        !runtime_map_missing(MapError::LockPoisoned),
        !runtime_map_missing(MapError::Operation(reason)),
{
}

fn is_runtime_map_missing(error: &MapError) -> (r: bool)
    ensures
        r == runtime_map_missing(*error),
{
    match error {
        MapError::MissingMap(name) => {
            let found = to_chars(name);
            let wanted = to_chars(RUNTIME_POLICY_MAP_NAME);
            same_chars(found.as_slice(), wanted.as_slice())
        },
        _ => false,
    }
}

/// Reads a missing runtime map as an empty one.
pub fn runtime_lookup(answer: Result<Option<Policy>, MapError>) -> (r: Result<
    Option<Policy>,
    MapError,
>)
    ensures
        r == (match answer {
            Err(error) => if runtime_map_missing(error) {
                Ok(None)
            } else {
                Err(error)
            },
            Ok(found) => Ok(found),
        }),
{
    match answer {
        Err(error) => {
            if is_runtime_map_missing(&error) {
                return Ok(None);
            }
            Err(error)
        },
        Ok(found) => Ok(found),
    }
}

/// Deleting from a missing runtime map succeeds.
pub fn runtime_delete(answer: Result<(), MapError>) -> (r: Result<(), MapError>)
    ensures
        match answer {
            Err(error) => if runtime_map_missing(error) {
                r is Ok
            } else {
                r == Err::<(), MapError>(error)
            },
            Ok(_) => r is Ok,
        },
{
    match answer {
        Err(error) => {
            if is_runtime_map_missing(&error) {
                return Ok(());
            }
            Err(error)
        },
        Ok(_) => Ok(()),
    }
}

/// The keys of a missing runtime map are none.
pub fn runtime_keys(answer: Result<Vec<TenantKey>, MapError>) -> (r: Result<
    Vec<TenantKey>,
    MapError,
>)
    ensures
        match answer {
            Err(error) => if runtime_map_missing(error) {
                r matches Ok(keys) && keys@.len() == 0
            } else {
                r == Err::<Vec<TenantKey>, MapError>(error)
            },
            Ok(keys) => r == Ok::<Vec<TenantKey>, MapError>(keys),
        },
{
    match answer {
        Err(error) => {
            if is_runtime_map_missing(&error) {
                return Ok(Vec::new());
            }
            Err(error)
        },
        Ok(keys) => Ok(keys),
    }
}

/// The keys that a map walk produced, in ascending order, each once.
pub fn sorted_keys(keys: &[TenantKey]) -> (sorted: Vec<TenantKey>)
    ensures
        forall|k: TenantKey| #[trigger] sorted@.contains(k) == keys@.contains(k),
        forall|i: int, j: int|
            0 <= i < j < sorted@.len() ==> (#[trigger] sorted@[i]).rank() < (
            #[trigger] sorted@[j]).rank(),
{
    let set = key_set(keys);
    set.keys()
}

/// The set of `keys`.
pub fn key_set(keys: &[TenantKey]) -> (set: KeySet<TenantKey>)
    ensures
        set@ == keys@.to_set(),
{
    let mut set: KeySet<TenantKey> = KeySet::new();
    let mut i: usize = 0;
    assert(set@ =~= keys@.take(0).to_set());
    while i < keys.len()
        invariant
            i <= keys@.len(),
            set@ == keys@.take(i as int).to_set(),
        decreases keys@.len() - i,
    {
        set.insert(keys[i]);
        proof {
            take_one_more(keys@, i as int);
        }
        i += 1;
    }
    assert(keys@.take(i as int) =~= keys@);
    set
}

/// The counters that a map walk produced, ordered by key.
pub fn sorted_counters(counters: &[(TenantKey, Counters)]) -> (sorted: Vec<(TenantKey, Counters)>)
    ensures
        in_order(sorted@),
        forall|i: int, j: int|
            0 <= i < j < sorted@.len() ==> (#[trigger] sorted@[i]).0.rank() <= (
            #[trigger] sorted@[j]).0.rank(),
        sorted@.to_multiset() == counters@.to_multiset(),
{
    sort_rows(counters)
}

} // verus!
