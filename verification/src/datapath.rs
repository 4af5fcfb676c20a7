//! What happens to one packet: policy lookup, admission and accounting.
//!
//! The maps behind the packet path are reached through functions that the
//! caller supplies: a lookup per policy map, and two operations on the bucket
//! store.

use vstd::arithmetic::div_mod::lemma_div_is_ordered;
use vstd::prelude::*;

use crate::bucket::{
    admissions_are_bounded, admitted, bucket_after, bucket_step, full_bucket, initial_locked_state,
    min_int, nanos_per_token,
};
use crate::common::{
    fallback_chain, fallback_chain_has_no_duplicates, fallback_chain_stays_within_the_tenant,
    fallback_policy_keys, reason_code, ChainReads, Counters, DropEvent, DropReason, GlobalConfig,
    GlobalStats, LockedTokenState, Policy, PolicyMatchLevel, ReasonBuckets, TenantKey,
    TokenState, KERNEL_DROP_EVENT_SAMPLE_EVERY,
};
use crate::packet::{flow_key, flow_key_from_packet};

verus! {

/// Verdict that lets a packet continue.
pub const TC_ACT_OK: i32 = 0;

/// Verdict that drops a packet.
pub const TC_ACT_SHOT: i32 = 2;

/// Whether the packet path examines packets; it does unless the configuration
/// says otherwise.
pub open spec fn filter_enabled(config: Option<GlobalConfig>) -> bool {
    config matches Some(c) ==> c.enabled != 0
}

/// Whether packets are matched by flow; they are unless the configuration says
/// otherwise.
pub open spec fn flow_keys_live(config: Option<GlobalConfig>) -> bool {
    config matches Some(c) ==> c.flow_keys_live != 0
}

/// Whether packets are judged at all.
pub fn is_filter_enabled(config: Option<GlobalConfig>) -> (r: bool)
    ensures
        r == filter_enabled(config),
{
    match config {
        None => true,
        Some(c) => c.enabled != 0,
    }
}

/// Whether packets are matched by flow.
pub fn is_flow_keys_live(config: Option<GlobalConfig>) -> (r: bool)
    ensures
        r == flow_keys_live(config),
{
    match config {
        None => true,
        Some(c) => c.flow_keys_live != 0,
    }
}

/// Whether the first `n` lookups found nothing for the first `n` keys of `chain`.
pub open spec fn nothing_found<F: FnOnce(TenantKey) -> Option<Policy>>(
    lookups: ChainReads<F>,
    chain: Seq<(TenantKey, PolicyMatchLevel)>,
    n: int,
) -> bool {
    forall|j: int|
        0 <= j < n ==> #[trigger] call_ensures(lookups.at(j), (chain[j].0,), None::<Policy>)
}

/// Whether `found` is what asking along `chain` gives: the first answer that is a
/// policy.
pub open spec fn chain_answer<F: FnOnce(TenantKey) -> Option<Policy>>(
    lookups: ChainReads<F>,
    chain: Seq<(TenantKey, PolicyMatchLevel)>,
    found: Option<Policy>,
) -> bool {
    match found {
        Some(policy) => exists|i: int|
            0 <= i < chain.len() && #[trigger] call_ensures(
                lookups.at(i),
                (chain[i].0,),
                Some(policy),
            ) && nothing_found(lookups, chain, i),
        None => nothing_found(lookups, chain, chain.len() as int),
    }
}

/// Whether the fallback chain of `key` may be asked: each key with its own lookup,
/// and only where those before it found nothing.
pub open spec fn may_ask_chain<F: FnOnce(TenantKey) -> Option<Policy>>(
    lookups: ChainReads<F>,
    key: TenantKey,
) -> bool {
    let chain = fallback_chain(key);
    forall|i: int|
        0 <= i < chain.len() && #[trigger] nothing_found(lookups, chain, i) ==> call_requires(
            lookups.at(i),
            (chain[i].0,),
        )
}

/// The policy of the first key of `chain` that `table` holds.
pub open spec fn first_match(
    table: Map<TenantKey, Policy>,
    chain: Seq<(TenantKey, PolicyMatchLevel)>,
) -> Option<Policy>
    decreases chain.len(),
{
    if chain.len() == 0 {
        None
    } else if table.dom().contains(chain[0].0) {
        Some(table[chain[0].0])
    } else {
        first_match(table, chain.skip(1))
    }
}

/// Whether every lookup answers from `table`.
pub open spec fn reads_table<F: FnOnce(TenantKey) -> Option<Policy>>(
    lookups: ChainReads<F>,
    table: Map<TenantKey, Policy>,
) -> bool {
    forall|i: int, key: TenantKey, answer: Option<Policy>| #[trigger]
        call_ensures(lookups.at(i), (key,), answer) ==> answer == (if table.dom().contains(key) {
            Some(table[key])
        } else {
            None
        })
}

pub(crate) proof fn no_entry_no_match(
    table: Map<TenantKey, Policy>,
    chain: Seq<(TenantKey, PolicyMatchLevel)>,
)
    requires
        forall|j: int| 0 <= j < chain.len() ==> !table.dom().contains((#[trigger] chain[j]).0),
    ensures
        first_match(table, chain) is None,
    decreases chain.len(),
{
    if chain.len() > 0 {
        assert(!table.dom().contains(chain[0].0));
        assert forall|j: int| 0 <= j < chain.skip(1).len() implies !table.dom().contains(
            (#[trigger] chain.skip(1)[j]).0,
        ) by {
            assert(chain.skip(1)[j] == chain[j + 1]);
        }
        no_entry_no_match(table, chain.skip(1));
    }
}

/// Asking along a chain lookups that answer from a table finds the policy of the
/// first key of the chain that the table holds.
pub proof fn chain_answer_is_first_match<F: FnOnce(TenantKey) -> Option<Policy>>(
    lookups: ChainReads<F>,
    table: Map<TenantKey, Policy>,
    chain: Seq<(TenantKey, PolicyMatchLevel)>,
    found: Option<Policy>,
)
    requires
        reads_table(lookups, table),
        chain_answer(lookups, chain, found),
    ensures
        found == first_match(table, chain),
{
    assert forall|n: int, j: int|
        #[trigger] nothing_found(lookups, chain, n) && 0 <= j < n implies !table.dom().contains(
        (#[trigger] chain[j]).0,
    ) by {
        assert(call_ensures(lookups.at(j), (chain[j].0,), None::<Policy>));
    }
    match found {
        Some(policy) => {
            let i = choose|i: int|
                0 <= i < chain.len() && #[trigger] call_ensures(
                    lookups.at(i),
                    (chain[i].0,),
                    Some(policy),
                ) && nothing_found(lookups, chain, i);
            most_specific_entry_wins(table, chain, i);
        },
        None => {
            no_entry_no_match(table, chain);
        },
    }
}

/// Asks along the fallback chain of `key` for the first policy: key by key in the
/// order of the chain, each once, up to the first that has one.
pub fn read_policy_with_fallback<F: FnOnce(TenantKey) -> Option<Policy>>(
    lookups: ChainReads<F>,
    key: TenantKey,
) -> (found: Option<Policy>)
    requires
        may_ask_chain(lookups, key),
    ensures
        chain_answer(lookups, fallback_chain(key), found),
{
    let (candidates, _, candidate_count) = fallback_policy_keys(key);
    let ghost chain = fallback_chain(key);
    let ChainReads { first, second, third, fourth, fifth } = lookups;
    assert(nothing_found(lookups, chain, 0));
    if let Some(policy) = first(candidates[0]) {
        return Some(policy);
    }
    assert(nothing_found(lookups, chain, 1));
    if candidate_count == 1 {
        return None;
    }
    if let Some(policy) = second(candidates[1]) {
        return Some(policy);
    }
    assert(nothing_found(lookups, chain, 2));
    if candidate_count == 2 {
        return None;
    }
    if let Some(policy) = third(candidates[2]) {
        return Some(policy);
    }
    assert(nothing_found(lookups, chain, 3));
    if candidate_count == 3 {
        return None;
    }
    if let Some(policy) = fourth(candidates[3]) {
        return Some(policy);
    }
    assert(nothing_found(lookups, chain, 4));
    if candidate_count == 4 {
        return None;
    }
    if let Some(policy) = fifth(candidates[4]) {
        return Some(policy);
    }
    assert(nothing_found(lookups, chain, 5));
    None
}

/// Whether `found` is what the two policy maps give for `key`: the answer of
/// the runtime chain, and that of the base chain where the runtime chain has
/// none.
pub open spec fn dual_answer<
    R: FnOnce(TenantKey) -> Option<Policy>,
    B: FnOnce(TenantKey) -> Option<Policy>,
>(
    runtime: ChainReads<R>,
    base: ChainReads<B>,
    key: TenantKey,
    found: Option<Policy>,
) -> bool {
    ||| found is Some && chain_answer(runtime, fallback_chain(key), found)
    ||| chain_answer(runtime, fallback_chain(key), None) && chain_answer(
        base,
        fallback_chain(key),
        found,
    )
}

/// The policy of `key` under two tables: any runtime entry of the chain goes
/// before every base entry, and within a table the most specific entry wins.
pub open spec fn effective_policy(
    runtime: Map<TenantKey, Policy>,
    base: Map<TenantKey, Policy>,
    key: TenantKey,
) -> Option<Policy> {
    match first_match(runtime, fallback_chain(key)) {
        Some(policy) => Some(policy),
        None => first_match(base, fallback_chain(key)),
    }
}

/// Whether the policy of `key` may be looked up: the runtime map along the fallback
/// chain and, only where it has none, the base map.
pub open spec fn may_look_up<
    R: FnOnce(TenantKey) -> Option<Policy>,
    B: FnOnce(TenantKey) -> Option<Policy>,
>(runtime: ChainReads<R>, base: ChainReads<B>, key: TenantKey) -> bool {
    &&& may_ask_chain(runtime, key)
    &&& chain_answer(runtime, fallback_chain(key), None) ==> may_ask_chain(base, key)
}

/// Asks the runtime map along the fallback chain and, where it has no policy, the
/// base map.
pub fn read_policy_with_dual_fallback<
    R: FnOnce(TenantKey) -> Option<Policy>,
    B: FnOnce(TenantKey) -> Option<Policy>,
>(runtime: ChainReads<R>, base: ChainReads<B>, key: TenantKey) -> (found: Option<Policy>)
    requires
        may_look_up(runtime, base, key),
    ensures
        dual_answer(runtime, base, key, found),
{
    let from_runtime = read_policy_with_fallback(runtime, key);
    if from_runtime.is_some() {
        return from_runtime;
    }
    read_policy_with_fallback(base, key)
}

/// Where the two lookups answer from tables, the policy found is the effective
/// policy of those tables.
pub proof fn dual_answer_is_effective_policy<
    R: FnOnce(TenantKey) -> Option<Policy>,
    B: FnOnce(TenantKey) -> Option<Policy>,
>(
    runtime: ChainReads<R>,
    base: ChainReads<B>,
    runtime_table: Map<TenantKey, Policy>,
    base_table: Map<TenantKey, Policy>,
    key: TenantKey,
    found: Option<Policy>,
)
    requires
        reads_table(runtime, runtime_table),
        reads_table(base, base_table),
        dual_answer(runtime, base, key, found),
    ensures
        found == effective_policy(runtime_table, base_table, key),
{
    if found is Some && chain_answer(runtime, fallback_chain(key), found) {
        chain_answer_is_first_match(runtime, runtime_table, fallback_chain(key), found);
    } else {
        chain_answer_is_first_match(runtime, runtime_table, fallback_chain(key), None);
        chain_answer_is_first_match(base, base_table, fallback_chain(key), found);
    }
}

/// The policy of the most specific key that a table holds wins.
pub proof fn most_specific_entry_wins(
    table: Map<TenantKey, Policy>,
    chain: Seq<(TenantKey, PolicyMatchLevel)>,
    i: int,
)
    requires
        0 <= i < chain.len(),
        table.dom().contains(chain[i].0),
        forall|j: int| 0 <= j < i ==> !table.dom().contains((#[trigger] chain[j]).0),
    ensures
        first_match(table, chain) == Some(table[chain[i].0]),
    decreases i,
{
    if i > 0 {
        assert(!table.dom().contains(chain[0].0));
        let rest = chain.skip(1);
        assert(rest[i - 1] == chain[i]);
        assert forall|j: int| 0 <= j < i - 1 implies !table.dom().contains(
            (#[trigger] rest[j]).0,
        ) by {
            assert(rest[j] == chain[j + 1]);
        }
        most_specific_entry_wins(table, rest, i - 1);
    }
}

/// The policy in force is the one under the first key of the fallback chain that the
/// runtime table holds; where it holds none of them, the one under the first key that
/// the base table holds; and none where neither holds any.
pub proof fn the_first_entry_is_in_force(
    runtime: Map<TenantKey, Policy>,
    base: Map<TenantKey, Policy>,
    key: TenantKey,
    i: int,
)
    requires
        0 <= i < fallback_chain(key).len(),
    ensures
        runtime.dom().contains(fallback_chain(key)[i].0) && (forall|j: int|
            0 <= j < i ==> !runtime.dom().contains((#[trigger] fallback_chain(key)[j]).0))
            ==> effective_policy(runtime, base, key) == Some(runtime[fallback_chain(key)[i].0]),
        (forall|j: int|
            0 <= j < fallback_chain(key).len() ==> !runtime.dom().contains(
                (#[trigger] fallback_chain(key)[j]).0,
            )) && base.dom().contains(fallback_chain(key)[i].0) && (forall|j: int|
            0 <= j < i ==> !base.dom().contains((#[trigger] fallback_chain(key)[j]).0))
            ==> effective_policy(runtime, base, key) == Some(base[fallback_chain(key)[i].0]),
        (forall|j: int|
            0 <= j < fallback_chain(key).len() ==> !runtime.dom().contains(
                (#[trigger] fallback_chain(key)[j]).0,
            ) && !base.dom().contains(fallback_chain(key)[j].0)) ==> effective_policy(
            runtime,
            base,
            key,
        ) is None,
{
    let chain = fallback_chain(key);
    if forall|j: int| 0 <= j < chain.len() ==> !runtime.dom().contains((#[trigger] chain[j]).0) {
        no_entry_no_match(runtime, chain);
        if base.dom().contains(chain[i].0) && (forall|j: int|
            0 <= j < i ==> !base.dom().contains((#[trigger] chain[j]).0)) {
            most_specific_entry_wins(base, chain, i);
        }
        if forall|j: int| 0 <= j < chain.len() ==> !runtime.dom().contains((#[trigger] chain[j]).0)
            && !base.dom().contains(chain[j].0) {
            no_entry_no_match(base, chain);
        }
    }
    if runtime.dom().contains(chain[i].0) && (forall|j: int|
        0 <= j < i ==> !runtime.dom().contains((#[trigger] chain[j]).0)) {
        most_specific_entry_wins(runtime, chain, i);
    }
}

/// A tenant-wide policy covers every flow of its tenant that no more specific entry of
/// the same table covers, and any runtime override that covers a flow goes before
/// every base policy.
pub proof fn a_tenant_wide_policy_covers_the_rest(
    runtime: Map<TenantKey, Policy>,
    base: Map<TenantKey, Policy>,
    key: TenantKey,
    wide: TenantKey,
)
    requires
        wide.cgroup_id == key.cgroup_id,
        wide.http_path_hash == 0,
        wide.dst_port == 0,
        wide.proto == 0,
        wide.http_method == 0,
    ensures
        runtime.dom() == set![wide] ==> effective_policy(runtime, base, key) == Some(runtime[wide]),
        runtime.dom() == Set::<TenantKey>::empty() && base.dom() == set![wide] ==> effective_policy(
            runtime,
            base,
            key,
        ) == Some(base[wide]),
        runtime.dom().contains(wide) ==> effective_policy(runtime, base, key) is Some
            && effective_policy(runtime, base, key) == effective_policy(
            runtime,
            Map::empty(),
            key,
        ),
{
    let chain = fallback_chain(key);
    crate::common::fallback_chain_holds_every_wildcard(key, wide);
    fallback_chain_has_no_duplicates(key);
    let at = choose|at: int| 0 <= at < chain.len() && (#[trigger] chain[at]).0 == wide;
    if runtime.dom() == set![wide] {
        assert forall|j: int| 0 <= j < at implies !runtime.dom().contains((#[trigger] chain[j]).0) by {
            assert(chain[j].0 != chain[at].0);
        }
        the_first_entry_is_in_force(runtime, base, key, at);
    }
    if runtime.dom() == Set::<TenantKey>::empty() && base.dom() == set![wide] {
        assert forall|j: int| 0 <= j < at implies !base.dom().contains((#[trigger] chain[j]).0) by {
            assert(chain[j].0 != chain[at].0);
        }
        the_first_entry_is_in_force(runtime, base, key, at);
    }
    if runtime.dom().contains(wide) {
        some_entry_some_match(runtime, chain, at);
    }
}

proof fn some_entry_some_match(
    table: Map<TenantKey, Policy>,
    chain: Seq<(TenantKey, PolicyMatchLevel)>,
    at: int,
)
    requires
        0 <= at < chain.len(),
        table.dom().contains(chain[at].0),
    ensures
        first_match(table, chain) is Some,
    decreases at,
{
    if at > 0 {
        assert(chain.skip(1)[at - 1] == chain[at]);
        some_entry_some_match(table, chain.skip(1), at - 1);
    }
}

/// A policy that is set for exactly a key is in force for it: a runtime override
/// always, a base policy where no runtime override of the fallback chain is.
pub proof fn exact_policy_is_in_force(
    runtime: Map<TenantKey, Policy>,
    base: Map<TenantKey, Policy>,
    key: TenantKey,
    policy: Policy,
)
    ensures
        effective_policy(runtime.insert(key, policy), base, key) == Some(policy),
        first_match(runtime, fallback_chain(key)) is None ==> effective_policy(
            runtime,
            base.insert(key, policy),
            key,
        ) == Some(policy),
{
    assert(fallback_chain(key)[0].0 == key);
}

proof fn first_match_reads_the_chain_alone(
    table: Map<TenantKey, Policy>,
    other: Map<TenantKey, Policy>,
    chain: Seq<(TenantKey, PolicyMatchLevel)>,
)
    requires
        forall|i: int|
            0 <= i < chain.len() ==> table.dom().contains((#[trigger] chain[i]).0)
                == other.dom().contains(chain[i].0),
        forall|i: int|
            0 <= i < chain.len() && table.dom().contains((#[trigger] chain[i]).0)
                ==> table[chain[i].0] == other[chain[i].0],
    ensures
        first_match(table, chain) == first_match(other, chain),
    decreases chain.len(),
{
    if chain.len() > 0 {
        let rest = chain.skip(1);
        assert(table.dom().contains(chain[0].0) == other.dom().contains(chain[0].0));
        assert forall|i: int| 0 <= i < rest.len() implies table.dom().contains(
            (#[trigger] rest[i]).0,
        ) == other.dom().contains(rest[i].0) by {
            assert(rest[i] == chain[i + 1]);
        }
        assert forall|i: int|
            0 <= i < rest.len() && table.dom().contains((#[trigger] rest[i]).0) implies table[rest[i].0]
            == other[rest[i].0] by {
            assert(rest[i] == chain[i + 1]);
        }
        first_match_reads_the_chain_alone(table, other, rest);
    }
}

/// Tenants do not affect each other: setting or deleting a policy of one tenant,
/// in either table, leaves the policy in force for every flow of another tenant
/// as it was.
pub proof fn tenants_are_isolated(
    runtime: Map<TenantKey, Policy>,
    base: Map<TenantKey, Policy>,
    changed: TenantKey,
    policy: Policy,
    key: TenantKey,
)
    requires
        changed.cgroup_id != key.cgroup_id,
    ensures
        effective_policy(runtime.insert(changed, policy), base, key) == effective_policy(
            runtime,
            base,
            key,
        ),
        effective_policy(runtime.remove(changed), base, key) == effective_policy(
            runtime,
            base,
            key,
        ),
        effective_policy(runtime, base.insert(changed, policy), key) == effective_policy(
            runtime,
            base,
            key,
        ),
        effective_policy(runtime, base.remove(changed), key) == effective_policy(
            runtime,
            base,
            key,
        ),
{
    let chain = fallback_chain(key);
    fallback_chain_stays_within_the_tenant(key);
    assert forall|i: int| 0 <= i < chain.len() implies (#[trigger] chain[i]).0 != changed by {}
    first_match_reads_the_chain_alone(runtime.insert(changed, policy), runtime, chain);
    first_match_reads_the_chain_alone(runtime.remove(changed), runtime, chain);
    first_match_reads_the_chain_alone(base.insert(changed, policy), base, chain);
    first_match_reads_the_chain_alone(base.remove(changed), base, chain);
}

/// Deleting a policy falls back: once the base policy of exactly a key is gone,
/// what is in force for the key is what the rest of its chain gives, where no
/// runtime override of the chain is.
pub proof fn deleting_falls_back(
    runtime: Map<TenantKey, Policy>,
    base: Map<TenantKey, Policy>,
    key: TenantKey,
)
    requires
        first_match(runtime, fallback_chain(key)) is None,
    ensures
        effective_policy(runtime, base.remove(key), key) == first_match(
            base,
            fallback_chain(key).skip(1),
        ),
{
    let chain = fallback_chain(key);
    let rest = chain.skip(1);
    fallback_chain_has_no_duplicates(key);
    assert(chain[0].0 == key);
    assert forall|i: int| 0 <= i < rest.len() implies (#[trigger] rest[i]).0 != key by {
        assert(rest[i] == chain[i + 1]);
        assert(chain[0].0 != chain[i + 1].0);
    }
    first_match_reads_the_chain_alone(base.remove(key), base, rest);
}

/// Whether `fresh` is a full bucket that nobody holds.
pub open spec fn is_fresh(fresh: LockedTokenState, policy: Policy, now: u64) -> bool {
    fresh.state == full_bucket(policy, now) && fresh.lock.val == 0 && fresh._pad == 0
}

/// Whether `decision` is what the bucket store can answer for one packet: the
/// bucket's own answer, or, where there is no bucket yet, the answer after a
/// full one was offered for insertion; an error where there is none even then.
pub open spec fn store_answer<
    A: FnOnce(TenantKey, u64, Policy) -> Option<bool>,
    I: FnOnce(TenantKey, LockedTokenState),
    B: FnOnce(TenantKey, u64, Policy) -> Option<bool>,
>(
    apply: A,
    insert: I,
    apply_again: B,
    key: TenantKey,
    now: u64,
    policy: Policy,
    decision: Result<bool, ()>,
) -> bool {
    ||| decision matches Ok(passed) && call_ensures(apply, (key, now, policy), Some(passed))
    ||| {
        &&& call_ensures(apply, (key, now, policy), None::<bool>)
        &&& was_offered(insert, key, now, policy)
        &&& call_ensures(
            apply_again,
            (key, now, policy),
            match decision {
                Ok(passed) => Some(passed),
                Err(_) => None,
            },
        )
    }
}

/// A bucket that is there answers alone: without a `None` from it, the decision is its
/// answer. A decision is an error only where there was no bucket, a full one of the
/// policy's burst was offered, and there was none even then.
pub proof fn a_bucket_answers_once<
    A: FnOnce(TenantKey, u64, Policy) -> Option<bool>,
    I: FnOnce(TenantKey, LockedTokenState),
    B: FnOnce(TenantKey, u64, Policy) -> Option<bool>,
>(
    apply: A,
    insert: I,
    apply_again: B,
    key: TenantKey,
    now: u64,
    policy: Policy,
    decision: Result<bool, ()>,
)
    requires
        store_answer(apply, insert, apply_again, key, now, policy, decision),
    ensures
        !call_ensures(apply, (key, now, policy), None::<bool>) ==> (decision matches Ok(passed)
            && call_ensures(apply, (key, now, policy), Some(passed))),
        decision is Err ==> {
            &&& call_ensures(apply, (key, now, policy), None::<bool>)
            &&& call_ensures(apply_again, (key, now, policy), None::<bool>)
            &&& exists|fresh: LockedTokenState|
                {
                    &&& #[trigger] call_ensures(insert, (key, fresh), ())
                    &&& fresh.state.tokens == policy.burst_tokens
                    &&& fresh.state.last_refill_ns == now
                    &&& fresh.lock.val == 0
                    &&& fresh._pad == 0
                }
        },
        decision matches Ok(passed) ==> call_ensures(apply, (key, now, policy), Some(passed))
            || call_ensures(apply_again, (key, now, policy), Some(passed)),
{
    if decision is Err {
        let fresh = choose|fresh: LockedTokenState|
            is_fresh(fresh, policy, now) && #[trigger] call_ensures(insert, (key, fresh), ());
        assert(call_ensures(insert, (key, fresh), ()));
    }
}

/// Whether a full bucket for `key` was offered for insertion.
pub open spec fn was_offered<I: FnOnce(TenantKey, LockedTokenState)>(
    insert: I,
    key: TenantKey,
    now: u64,
    policy: Policy,
) -> bool {
    exists|fresh: LockedTokenState|
        is_fresh(fresh, policy, now) && #[trigger] call_ensures(insert, (key, fresh), ())
}

/// Decides one packet against the stored bucket of `key`, offering a full
/// bucket for insertion when there is none. The bucket is charged at most once:
/// `apply_again` may be called only where `apply` found no bucket, and after a full
/// one was offered.
pub fn decide_and_store_state<
    A: FnOnce(TenantKey, u64, Policy) -> Option<bool>,
    I: FnOnce(TenantKey, LockedTokenState),
    B: FnOnce(TenantKey, u64, Policy) -> Option<bool>,
>(apply: A, insert: I, apply_again: B, key: TenantKey, now_ns: u64, policy: &Policy) -> (decision:
    Result<bool, ()>)
    requires
        call_requires(apply, (key, now_ns, *policy)),
        forall|fresh: LockedTokenState|
            call_ensures(apply, (key, now_ns, *policy), None::<bool>) && is_fresh(
                fresh,
                *policy,
                now_ns,
            ) ==> #[trigger] call_requires(insert, (key, fresh)),
        call_ensures(apply, (key, now_ns, *policy), None::<bool>) && was_offered(
            insert,
            key,
            now_ns,
            *policy,
        ) ==> call_requires(apply_again, (key, now_ns, *policy)),
    ensures
        store_answer(apply, insert, apply_again, key, now_ns, *policy, decision),
{
    if let Some(passed) = apply(key, now_ns, *policy) {
        return Ok(passed);
    }
    let fresh = initial_locked_state(policy, now_ns);
    insert(key, fresh);
    if let Some(passed) = apply_again(key, now_ns, *policy) {
        return Ok(passed);
    }
    Err(())
}

/// What became of a packet, with the flow key where it has one.
#[derive(Clone, Copy, Debug, PartialEq, Eq, Structural)]
pub enum PacketOutcome {
    /// The filter is switched off.
    Ignored,
    /// No flow key could be read.
    Unparsed,
    /// No policy applies.
    Unmatched(TenantKey),
    /// The policy that applies is disabled.
    Unlimited(TenantKey),
    /// The bucket store failed.
    StoreFailed(TenantKey),
    /// The bucket had a token.
    Admitted(TenantKey),
    /// The bucket was empty.
    Limited(TenantKey),
}

impl PacketOutcome {
    /// Whether the packet continues.
    pub open spec fn passes(self) -> bool {
        !(self is StoreFailed || self is Limited)
    }

    /// The flow key that the packet is counted under.
    pub open spec fn counted_key(self) -> Option<TenantKey> {
        match self {
            PacketOutcome::Ignored | PacketOutcome::Unparsed => None,
            PacketOutcome::Unmatched(key)
            | PacketOutcome::Unlimited(key)
            | PacketOutcome::StoreFailed(key)
            | PacketOutcome::Admitted(key)
            | PacketOutcome::Limited(key) => Some(key),
        }
    }

    /// The reason that the global totals record.
    pub open spec fn recorded_reason(self) -> Option<DropReason> {
        match self {
            PacketOutcome::Unparsed => Some(DropReason::ParseFail),
            PacketOutcome::Unmatched(_) => Some(DropReason::NoPolicy),
            PacketOutcome::Limited(_) => Some(DropReason::NoTokens),
            _ => None,
        }
    }

    /// The reason under which a drop event is reported.
    pub open spec fn reported_reason(self) -> Option<DropReason> {
        match self {
            PacketOutcome::StoreFailed(_) => Some(DropReason::StateStoreFail),
            PacketOutcome::Limited(_) => Some(DropReason::NoTokens),
            _ => None,
        }
    }

    /// The verdict on the packet.
    pub fn verdict(self) -> (r: i32)
        ensures
            r == (if self.passes() {
                TC_ACT_OK
            } else {
                TC_ACT_SHOT
            }),
            self is Limited || self is StoreFailed ==> r == 2,
            !(self is Limited || self is StoreFailed) ==> r == 0,
    {
        match self {
            PacketOutcome::StoreFailed(_) | PacketOutcome::Limited(_) => TC_ACT_SHOT,
            _ => TC_ACT_OK,
        }
    }

    /// The flow key that the packet is counted under.
    pub fn key(self) -> (r: Option<TenantKey>)
        ensures
            r == self.counted_key(),
    {
        match self {
            PacketOutcome::Ignored | PacketOutcome::Unparsed => None,
            PacketOutcome::Unmatched(key)
            | PacketOutcome::Unlimited(key)
            | PacketOutcome::StoreFailed(key)
            | PacketOutcome::Admitted(key)
            | PacketOutcome::Limited(key) => Some(key),
        }
    }
}

/// What follows from an outcome: only an empty bucket and a failed store drop the
/// packet; what has a key is counted under it; an unreadable packet, a missing policy
/// and an empty bucket are recorded as such; and only drops are reported.
pub proof fn outcomes_are_accounted_for(outcome: PacketOutcome, key: TenantKey)
    ensures
        outcome.passes() <==> !(outcome is Limited) && !(outcome is StoreFailed),
        outcome.counted_key() is None <==> outcome is Ignored || outcome is Unparsed,
        outcome == PacketOutcome::Unmatched(key) || outcome == PacketOutcome::Unlimited(key)
            || outcome == PacketOutcome::StoreFailed(key) || outcome == PacketOutcome::Admitted(key)
            || outcome == PacketOutcome::Limited(key) ==> outcome.counted_key() == Some(key),
        outcome.recorded_reason() == Some(DropReason::ParseFail) <==> outcome is Unparsed,
        outcome.recorded_reason() == Some(DropReason::NoPolicy) <==> outcome is Unmatched,
        outcome.recorded_reason() == Some(DropReason::NoTokens) <==> outcome is Limited,
        outcome.recorded_reason() != Some(DropReason::StateStoreFail),
        outcome.reported_reason() == Some(DropReason::NoTokens) <==> outcome is Limited,
        outcome.reported_reason() == Some(DropReason::StateStoreFail) <==> outcome is StoreFailed,
        outcome.reported_reason() is Some <==> !outcome.passes(),
        outcome_of(key, Ok::<bool, ()>(true)) == PacketOutcome::Admitted(key),
        outcome_of(key, Ok::<bool, ()>(false)) == PacketOutcome::Limited(key),
        outcome_of(key, Err::<bool, ()>(())) == PacketOutcome::StoreFailed(key),
{
}

/// The outcome of a packet whose bucket was asked.
pub open spec fn outcome_of(key: TenantKey, decision: Result<bool, ()>) -> PacketOutcome {
    match decision {
        Err(_) => PacketOutcome::StoreFailed(key),
        Ok(true) => PacketOutcome::Admitted(key),
        Ok(false) => PacketOutcome::Limited(key),
    }
}

/// Whether `outcome` is what becomes of a packet under the given configuration
/// and map operations.
pub open spec fn packet_outcome<
    R: FnOnce(TenantKey) -> Option<Policy>,
    B: FnOnce(TenantKey) -> Option<Policy>,
    A: FnOnce(TenantKey, u64, Policy) -> Option<bool>,
    I: FnOnce(TenantKey, LockedTokenState),
    C: FnOnce(TenantKey, u64, Policy) -> Option<bool>,
>(
    config: Option<GlobalConfig>,
    now: u64,
    raw_cgroup_id: u64,
    packet: Seq<u8>,
    packet_len: int,
    runtime: ChainReads<R>,
    base: ChainReads<B>,
    apply: A,
    insert: I,
    apply_again: C,
    outcome: PacketOutcome,
) -> bool {
    if !filter_enabled(config) {
        outcome == PacketOutcome::Ignored
    } else {
        match flow_key(raw_cgroup_id, packet, packet_len, flow_keys_live(config)) {
            None => outcome == PacketOutcome::Unparsed,
            Some(key) => exists|found: Option<Policy>|
                {
                    &&& #[trigger] dual_answer(runtime, base, key, found)
                    &&& match found {
                        None => outcome == PacketOutcome::Unmatched(key),
                        Some(policy) => if policy.enabled == 0 {
                            outcome == PacketOutcome::Unlimited(key)
                        } else {
                            exists|decision: Result<bool, ()>|
                                {
                                    &&& #[trigger] store_answer(
                                        apply,
                                        insert,
                                        apply_again,
                                        key,
                                        now,
                                        policy,
                                        decision,
                                    )
                                    &&& outcome == outcome_of(key, decision)
                                }
                        },
                    }
                },
        }
    }
}

/// The flow key by which a packet is judged: none where the filter is off or no
/// key can be read.
pub open spec fn judged_key(
    config: Option<GlobalConfig>,
    raw_cgroup_id: u64,
    packet: Seq<u8>,
    packet_len: int,
) -> Option<TenantKey> {
    if filter_enabled(config) {
        flow_key(raw_cgroup_id, packet, packet_len, flow_keys_live(config))
    } else {
        None
    }
}

/// Whether the tables answer with the enabled policy `policy` for `key`.
pub open spec fn limited_by<
    R: FnOnce(TenantKey) -> Option<Policy>,
    B: FnOnce(TenantKey) -> Option<Policy>,
>(
    runtime: ChainReads<R>,
    base: ChainReads<B>,
    key: TenantKey,
    policy: Policy,
) -> bool {
    dual_answer(runtime, base, key, Some(policy)) && policy.enabled != 0
}

/// Decides one packet. The tables are asked along its fallback chain, the runtime
/// table first, and no further than to the first policy. The bucket store is touched only where an enabled policy applies, and as
/// `decide_and_store_state` does it.
pub fn try_vantage_tc<
    R: FnOnce(TenantKey) -> Option<Policy>,
    B: FnOnce(TenantKey) -> Option<Policy>,
    A: FnOnce(TenantKey, u64, Policy) -> Option<bool>,
    I: FnOnce(TenantKey, LockedTokenState),
    C: FnOnce(TenantKey, u64, Policy) -> Option<bool>,
>(
    config: Option<GlobalConfig>,
    now_ns: u64,
    raw_cgroup_id: u64,
    packet: &[u8],
    packet_len: usize,
    runtime: ChainReads<R>,
    base: ChainReads<B>,
    apply: A,
    insert: I,
    apply_again: C,
) -> (outcome: PacketOutcome)
    requires
        judged_key(config, raw_cgroup_id, packet@, packet_len as int) matches Some(key)
            ==> may_look_up(runtime, base, key),
        forall|key: TenantKey, policy: Policy|
            judged_key(config, raw_cgroup_id, packet@, packet_len as int) == Some(key)
                && limited_by(runtime, base, key, policy) ==> #[trigger] call_requires(
                apply,
                (key, now_ns, policy),
            ),
        forall|key: TenantKey, policy: Policy, fresh: LockedTokenState|
            #![trigger call_requires(insert, (key, fresh)), is_fresh(fresh, policy, now_ns)]
            judged_key(config, raw_cgroup_id, packet@, packet_len as int) == Some(key)
                && limited_by(runtime, base, key, policy) && call_ensures(
                apply,
                (key, now_ns, policy),
                None::<bool>,
            ) && is_fresh(fresh, policy, now_ns) ==> call_requires(insert, (key, fresh)),
        forall|key: TenantKey, policy: Policy|
            judged_key(config, raw_cgroup_id, packet@, packet_len as int) == Some(key)
                && limited_by(runtime, base, key, policy) && call_ensures(
                apply,
                (key, now_ns, policy),
                None::<bool>,
            ) && was_offered(insert, key, now_ns, policy) ==> #[trigger] call_requires(
                apply_again,
                (key, now_ns, policy),
            ),
    ensures
        packet_outcome(
            config,
            now_ns,
            raw_cgroup_id,
            packet@,
            packet_len as int,
            runtime,
            base,
            apply,
            insert,
            apply_again,
            outcome,
        ),
{
    if !is_filter_enabled(config) {
        return PacketOutcome::Ignored;
    }
    let key = match flow_key_from_packet(
        raw_cgroup_id,
        packet,
        packet_len,
        is_flow_keys_live(config),
    ) {
        Some(key) => key,
        None => return PacketOutcome::Unparsed,
    };
    let found = read_policy_with_dual_fallback(runtime, base, key);
    let policy = match found {
        Some(policy) => policy,
        None => return PacketOutcome::Unmatched(key),
    };
    if policy.enabled == 0 {
        return PacketOutcome::Unlimited(key);
    }
    let decision = decide_and_store_state(apply, insert, apply_again, key, now_ns, &policy);
    match decision {
        Ok(true) => PacketOutcome::Admitted(key),
        Ok(false) => PacketOutcome::Limited(key),
        Err(_) => PacketOutcome::StoreFailed(key),
    }
}

/// The packet path fails open: a packet is dropped only where the filter is on,
/// the packet parses, an enabled policy applies, and its bucket is empty or
/// cannot be provided.
pub proof fn packet_path_fails_open<
    R: FnOnce(TenantKey) -> Option<Policy>,
    B: FnOnce(TenantKey) -> Option<Policy>,
    A: FnOnce(TenantKey, u64, Policy) -> Option<bool>,
    I: FnOnce(TenantKey, LockedTokenState),
    C: FnOnce(TenantKey, u64, Policy) -> Option<bool>,
>(
    config: Option<GlobalConfig>,
    now: u64,
    raw_cgroup_id: u64,
    packet: Seq<u8>,
    packet_len: int,
    runtime: ChainReads<R>,
    base: ChainReads<B>,
    apply: A,
    insert: I,
    apply_again: C,
    outcome: PacketOutcome,
)
    requires
        packet_outcome(
            config,
            now,
            raw_cgroup_id,
            packet,
            packet_len,
            runtime,
            base,
            apply,
            insert,
            apply_again,
            outcome,
        ),
        !outcome.passes(),
    ensures
        filter_enabled(config),
        exists|key: TenantKey, policy: Policy, decision: Result<bool, ()>|
            {
                &&& flow_key(raw_cgroup_id, packet, packet_len, flow_keys_live(config)) == Some(key)
                &&& policy.enabled != 0
                &&& #[trigger] dual_answer(runtime, base, key, Some(policy))
                &&& #[trigger] store_answer(apply, insert, apply_again, key, now, policy, decision)
                &&& decision != Ok::<bool, ()>(true)
            },
{
}

/// Packets are judged by the tables: with the filter off every packet is ignored; with
/// it on, a packet without a flow key is unparsed, one without a policy in force is
/// unmatched, one whose policy is switched off is unlimited, and any other is as its
/// bucket answers. Without a configuration the filter is on and flows are told apart.
pub proof fn packets_are_judged_by_the_tables<
    R: FnOnce(TenantKey) -> Option<Policy>,
    B: FnOnce(TenantKey) -> Option<Policy>,
    A: FnOnce(TenantKey, u64, Policy) -> Option<bool>,
    I: FnOnce(TenantKey, LockedTokenState),
    C: FnOnce(TenantKey, u64, Policy) -> Option<bool>,
>(
    config: Option<GlobalConfig>,
    now: u64,
    raw_cgroup_id: u64,
    packet: Seq<u8>,
    packet_len: int,
    runtime: ChainReads<R>,
    base: ChainReads<B>,
    apply: A,
    insert: I,
    apply_again: C,
    outcome: PacketOutcome,
    runtime_table: Map<TenantKey, Policy>,
    base_table: Map<TenantKey, Policy>,
)
    requires
        packet_outcome(
            config,
            now,
            raw_cgroup_id,
            packet,
            packet_len,
            runtime,
            base,
            apply,
            insert,
            apply_again,
            outcome,
        ),
        reads_table(runtime, runtime_table),
        reads_table(base, base_table),
    ensures
        outcome is Ignored <==> (config matches Some(c) && c.enabled == 0),
        !(outcome is Ignored) ==> match flow_key(
            raw_cgroup_id,
            packet,
            packet_len,
            match config {
                None => true,
                Some(c) => c.flow_keys_live != 0,
            },
        ) {
            None => outcome == PacketOutcome::Unparsed,
            Some(key) => match effective_policy(runtime_table, base_table, key) {
                None => outcome == PacketOutcome::Unmatched(key),
                Some(policy) => {
                    &&& policy.enabled == 0 ==> outcome == PacketOutcome::Unlimited(key)
                    &&& policy.enabled != 0 ==> match outcome {
                        PacketOutcome::Admitted(k) => k == key && (call_ensures(
                            apply,
                            (key, now, policy),
                            Some(true),
                        ) || call_ensures(apply_again, (key, now, policy), Some(true))),
                        PacketOutcome::Limited(k) => k == key && (call_ensures(
                            apply,
                            (key, now, policy),
                            Some(false),
                        ) || call_ensures(apply_again, (key, now, policy), Some(false))),
                        PacketOutcome::StoreFailed(k) => k == key && call_ensures(
                            apply,
                            (key, now, policy),
                            None::<bool>,
                        ) && call_ensures(apply_again, (key, now, policy), None::<bool>),
                        _ => false,
                    }
                },
            },
        },
{
    if let Some(key) = judged_key(config, raw_cgroup_id, packet, packet_len) {
        assert forall|found: Option<Policy>| #[trigger] dual_answer(runtime, base, key, found) implies found
            == effective_policy(runtime_table, base_table, key) by {
            dual_answer_is_effective_policy(
                runtime,
                base,
                runtime_table,
                base_table,
                key,
                found,
            );
        }
    }
}

/// `a` plus `b`, held at the largest `u64`.
pub open spec fn saturated(a: u64, b: u64) -> u64 {
    min_int(a + b, u64::MAX as int) as u64
}

/// Counters after one more packet; a key that was never counted starts at zero.
pub open spec fn counted(existing: Option<Counters>, pkt_len: u64, passed: bool) -> Counters {
    let before = match existing {
        Some(counters) => counters,
        None => Counters { pass_pkts: 0, drop_pkts: 0, pass_bytes: 0, drop_bytes: 0 },
    };
    if passed {
        Counters {
            pass_pkts: saturated(before.pass_pkts, 1),
            pass_bytes: saturated(before.pass_bytes, pkt_len),
            ..before
        }
    } else {
        Counters {
            drop_pkts: saturated(before.drop_pkts, 1),
            drop_bytes: saturated(before.drop_bytes, pkt_len),
            ..before
        }
    }
}

/// One packet more counts as one packet and its length, among those passed or those
/// dropped, and leaves the other two counters as they were; a key that was never counted
/// starts at zero, and a counter that is full stays full.
pub proof fn one_packet_counts_once(existing: Option<Counters>, pkt_len: u64, passed: bool)
    ensures
        ({
            let after = counted(existing, pkt_len, passed);
            let before = |pick: spec_fn(Counters) -> u64|
                match existing {
                    Some(counters) => pick(counters) as int,
                    None => 0,
                };
            let pass_pkts = before(|c: Counters| c.pass_pkts);
            let drop_pkts = before(|c: Counters| c.drop_pkts);
            let pass_bytes = before(|c: Counters| c.pass_bytes);
            let drop_bytes = before(|c: Counters| c.drop_bytes);
            let max = 0xffff_ffff_ffff_ffffint;
            &&& passed ==> after.drop_pkts == drop_pkts && after.drop_bytes == drop_bytes
            &&& passed && pass_pkts < max ==> after.pass_pkts == pass_pkts + 1
            &&& passed && pass_pkts == max ==> after.pass_pkts == max
            &&& passed && pass_bytes + pkt_len <= max ==> after.pass_bytes == pass_bytes + pkt_len
            &&& passed && pass_bytes + pkt_len > max ==> after.pass_bytes == max
            &&& !passed ==> after.pass_pkts == pass_pkts && after.pass_bytes == pass_bytes
            &&& !passed && drop_pkts < max ==> after.drop_pkts == drop_pkts + 1
            &&& !passed && drop_pkts == max ==> after.drop_pkts == max
            &&& !passed && drop_bytes + pkt_len <= max ==> after.drop_bytes == drop_bytes + pkt_len
            &&& !passed && drop_bytes + pkt_len > max ==> after.drop_bytes == max
        }),
{
}

/// Counts one packet under its key.
pub fn update_counters(existing: Option<Counters>, pkt_len: u64, passed: bool) -> (r: Counters)
    ensures
        r == counted(existing, pkt_len, passed),
{
    let mut counters = match existing {
        Some(counters) => counters,
        None => Counters { pass_pkts: 0, drop_pkts: 0, pass_bytes: 0, drop_bytes: 0 },
    };
    if passed {
        counters.pass_pkts = counters.pass_pkts.saturating_add(1);
        counters.pass_bytes = counters.pass_bytes.saturating_add(pkt_len);
    } else {
        counters.drop_pkts = counters.drop_pkts.saturating_add(1);
        counters.drop_bytes = counters.drop_bytes.saturating_add(pkt_len);
    }
    counters
}

/// Reason totals after `reason` was recorded once more. A failed bucket store
/// has no total of its own.
pub open spec fn recorded(reasons: ReasonBuckets, reason: Option<DropReason>) -> ReasonBuckets {
    match reason {
        Some(DropReason::NoTokens) => ReasonBuckets {
            no_tokens: saturated(reasons.no_tokens, 1),
            ..reasons
        },
        Some(DropReason::NoPolicy) => ReasonBuckets {
            no_policy: saturated(reasons.no_policy, 1),
            ..reasons
        },
        Some(DropReason::ParseFail) => ReasonBuckets {
            parse_fail: saturated(reasons.parse_fail, 1),
            ..reasons
        },
        _ => reasons,
    }
}

/// Global totals after one more packet.
pub open spec fn totalled(
    stats: GlobalStats,
    pkt_len: u64,
    passed: bool,
    reason: Option<DropReason>,
) -> GlobalStats {
    if passed {
        GlobalStats {
            pass_pkts: saturated(stats.pass_pkts, 1),
            pass_bytes: saturated(stats.pass_bytes, pkt_len),
            reasons: recorded(stats.reasons, reason),
            ..stats
        }
    } else {
        GlobalStats {
            drop_pkts: saturated(stats.drop_pkts, 1),
            drop_bytes: saturated(stats.drop_bytes, pkt_len),
            reasons: recorded(stats.reasons, reason),
            ..stats
        }
    }
}

/// The global totals count a packet as a key's counters do, and its reason once: none of
/// the reason totals changes without a reason or for a failed store, and else the one
/// of the reason alone grows by one, unless it is full.
pub proof fn totals_count_as_counters_do(
    stats: GlobalStats,
    pkt_len: u64,
    passed: bool,
    reason: Option<DropReason>,
)
    ensures
        ({
            let after = totalled(stats, pkt_len, passed, reason);
            let counters = counted(
                Some(
                    Counters {
                        pass_pkts: stats.pass_pkts,
                        drop_pkts: stats.drop_pkts,
                        pass_bytes: stats.pass_bytes,
                        drop_bytes: stats.drop_bytes,
                    },
                ),
                pkt_len,
                passed,
            );
            let max = 0xffff_ffff_ffff_ffffint;
            &&& after.pass_pkts == counters.pass_pkts
            &&& after.drop_pkts == counters.drop_pkts
            &&& after.pass_bytes == counters.pass_bytes
            &&& after.drop_bytes == counters.drop_bytes
            &&& after.reasons.no_tokens == (if reason == Some(DropReason::NoTokens)
                && stats.reasons.no_tokens < max {
                stats.reasons.no_tokens + 1
            } else {
                stats.reasons.no_tokens as int
            })
            &&& after.reasons.no_policy == (if reason == Some(DropReason::NoPolicy)
                && stats.reasons.no_policy < max {
                stats.reasons.no_policy + 1
            } else {
                stats.reasons.no_policy as int
            })
            &&& after.reasons.parse_fail == (if reason == Some(DropReason::ParseFail)
                && stats.reasons.parse_fail < max {
                stats.reasons.parse_fail + 1
            } else {
                stats.reasons.parse_fail as int
            })
        }),
{
}

/// Counts one packet in the global totals.
pub fn update_global_stats(
    stats: &mut GlobalStats,
    pkt_len: u64,
    passed: bool,
    reason: Option<DropReason>,
)
    ensures
        *final(stats) == totalled(*old(stats), pkt_len, passed, reason),
{
    if passed {
        stats.pass_pkts = stats.pass_pkts.saturating_add(1);
        stats.pass_bytes = stats.pass_bytes.saturating_add(pkt_len);
    } else {
        stats.drop_pkts = stats.drop_pkts.saturating_add(1);
        stats.drop_bytes = stats.drop_bytes.saturating_add(pkt_len);
    }
    if let Some(reason) = reason {
        match reason {
            DropReason::NoTokens => {
                stats.reasons.no_tokens = stats.reasons.no_tokens.saturating_add(1);
            },
            DropReason::NoPolicy => {
                stats.reasons.no_policy = stats.reasons.no_policy.saturating_add(1);
            },
            DropReason::ParseFail => {
                stats.reasons.parse_fail = stats.reasons.parse_fail.saturating_add(1);
            },
            DropReason::StateStoreFail => {},
        }
    }
}

/// The event that reports the `drop_pkts`-th drop of a key: one in every
/// `KERNEL_DROP_EVENT_SAMPLE_EVERY` drops is reported.
pub open spec fn sampled_event(
    key: TenantKey,
    now: u64,
    reason: DropReason,
    drop_pkts: u64,
) -> Option<DropEvent> {
    if drop_pkts > 0 && drop_pkts % KERNEL_DROP_EVENT_SAMPLE_EVERY == 0 {
        Some(
            DropEvent {
                ts_ns: now,
                tenant_key: key,
                reason: reason_code(reason),
                _pad: [0, 0, 0, 0, 0, 0, 0],
            },
        )
    } else {
        None
    }
}

/// Every sixty-fourth drop of a key is reported, and no other; a report gives the time,
/// the key and the code of the reason.
pub proof fn every_sixty_fourth_drop_is_reported(
    key: TenantKey,
    now: u64,
    reason: DropReason,
    drop_pkts: u64,
)
    ensures
        sampled_event(key, now, reason, drop_pkts) is Some <==> (exists|n: int|
            n > 0 && drop_pkts == #[trigger] (n * 64)),
        sampled_event(key, now, reason, drop_pkts) matches Some(event) ==> {
            &&& event.ts_ns == now
            &&& event.tenant_key == key
            &&& event._pad@ == seq![0u8, 0, 0, 0, 0, 0, 0]
            &&& reason is NoTokens ==> event.reason == 1
            &&& reason is NoPolicy ==> event.reason == 2
            &&& reason is ParseFail ==> event.reason == 3
            &&& reason is StateStoreFail ==> event.reason == 4
        },
{
    if drop_pkts > 0 && drop_pkts % 64 == 0 {
        let n = drop_pkts as int / 64;
        assert(drop_pkts == n * 64);
    }
}

/// The event for a drop, where it is one of those reported.
pub fn maybe_emit_drop_event(key: TenantKey, now_ns: u64, reason: DropReason, drop_pkts: u64) -> (r:
    Option<DropEvent>)
    ensures
        r == sampled_event(key, now_ns, reason, drop_pkts),
{
    assert(drop_pkts & 63 == drop_pkts % 64) by (bit_vector);
    if drop_pkts == 0 || (drop_pkts & (KERNEL_DROP_EVENT_SAMPLE_EVERY - 1)) != 0 {
        return None;
    }
    Some(
        DropEvent {
            ts_ns: now_ns,
            tenant_key: key,
            reason: reason.as_u8(),
            _pad: [0, 0, 0, 0, 0, 0, 0],
        },
    )
}

/// What is left to do for a packet once its outcome is known.
#[derive(Clone, Copy, Debug, PartialEq, Eq)]
pub struct PacketRecord {
    pub verdict: i32,
    /// The counters to store under the packet's key.
    pub counters: Option<Counters>,
    /// The event to publish.
    pub event: Option<DropEvent>,
}

/// Accounts for one packet: its key's counters, the global totals, and the drop
/// event where one is due. `existing` holds the counters stored under the key.
pub fn record_outcome(
    outcome: PacketOutcome,
    now_ns: u64,
    pkt_len: u64,
    existing: Option<Counters>,
    stats: &mut GlobalStats,
) -> (r: PacketRecord)
    ensures
        r.verdict == (if outcome.passes() {
            TC_ACT_OK
        } else {
            TC_ACT_SHOT
        }),
        r.counters == (if outcome.counted_key() is Some {
            Some(counted(existing, pkt_len, outcome.passes()))
        } else {
            None
        }),
        *final(stats) == (if outcome is Ignored {
            *old(stats)
        } else {
            totalled(*old(stats), pkt_len, outcome.passes(), outcome.recorded_reason())
        }),
        r.event == (match (outcome.counted_key(), outcome.reported_reason()) {
            (Some(key), Some(reason)) => sampled_event(
                key,
                now_ns,
                reason,
                counted(existing, pkt_len, false).drop_pkts,
            ),
            _ => None,
        }),
{
    let verdict: i32 = outcome.verdict();
    match outcome {
        PacketOutcome::Ignored => PacketRecord { verdict, counters: None, event: None },
        PacketOutcome::Unparsed => {
            update_global_stats(stats, pkt_len, true, Some(DropReason::ParseFail));
            PacketRecord { verdict, counters: None, event: None }
        },
        PacketOutcome::Unmatched(_) => {
            let counters = update_counters(existing, pkt_len, true);
            update_global_stats(stats, pkt_len, true, Some(DropReason::NoPolicy));
            PacketRecord { verdict, counters: Some(counters), event: None }
        },
        PacketOutcome::Unlimited(_) | PacketOutcome::Admitted(_) => {
            let counters = update_counters(existing, pkt_len, true);
            update_global_stats(stats, pkt_len, true, None);
            PacketRecord { verdict, counters: Some(counters), event: None }
        },
        PacketOutcome::StoreFailed(key) => {
            let counters = update_counters(existing, pkt_len, false);
            update_global_stats(stats, pkt_len, false, None);
            let event = maybe_emit_drop_event(
                key,
                now_ns,
                DropReason::StateStoreFail,
                counters.drop_pkts,
            );
            PacketRecord { verdict, counters: Some(counters), event }
        },
        PacketOutcome::Limited(key) => {
            let counters = update_counters(existing, pkt_len, false);
            update_global_stats(stats, pkt_len, false, Some(DropReason::NoTokens));
            let event = maybe_emit_drop_event(
                key,
                now_ns,
                DropReason::NoTokens,
                counters.drop_pkts,
            );
            PacketRecord { verdict, counters: Some(counters), event }
        },
    }
}

/// One operation on the stored bucket of a key.
pub enum StoreOp {
    /// Decide a packet at a time against the bucket, if there is one.
    Apply(u64),
    /// Store a full bucket of a time, unless there is a bucket already.
    InsertIfAbsent(u64),
}

impl StoreOp {
    /// The time of the operation.
    pub open spec fn time(self) -> u64 {
        match self {
            StoreOp::Apply(now) => now,
            StoreOp::InsertIfAbsent(now) => now,
        }
    }
}

/// The stored bucket after `op`.
pub open spec fn store_after(policy: Policy, entry: Option<TokenState>, op: StoreOp) -> Option<
    TokenState,
> {
    match (entry, op) {
        (Some(state), StoreOp::Apply(now)) => Some(bucket_step(now, policy, state).1),
        (None, StoreOp::InsertIfAbsent(now)) => Some(full_bucket(policy, now)),
        _ => entry,
    }
}

/// Whether `op` admits a packet.
pub open spec fn store_admits(policy: Policy, entry: Option<TokenState>, op: StoreOp) -> bool {
    match (entry, op) {
        (Some(state), StoreOp::Apply(now)) => bucket_step(now, policy, state).0,
        _ => false,
    }
}

/// How many packets the operations `ops` admit, from the stored bucket `entry`.
pub open spec fn store_admitted(
    policy: Policy,
    entry: Option<TokenState>,
    ops: Seq<StoreOp>,
) -> nat
    decreases ops.len(),
{
    if ops.len() == 0 {
        0
    } else {
        (if store_admits(policy, entry, ops[0]) {
            1nat
        } else {
            0nat
        }) + store_admitted(policy, store_after(policy, entry, ops[0]), ops.skip(1))
    }
}

/// The times of the packets that `ops` decide.
spec fn apply_times(ops: Seq<StoreOp>) -> Seq<u64>
    decreases ops.len(),
{
    if ops.len() == 0 {
        seq![]
    } else {
        match ops[0] {
            StoreOp::Apply(now) => seq![now] + apply_times(ops.skip(1)),
            StoreOp::InsertIfAbsent(_) => apply_times(ops.skip(1)),
        }
    }
}

proof fn apply_times_are_bounded(ops: Seq<StoreOp>, end: int)
    requires
        forall|i: int| 0 <= i < ops.len() ==> (#[trigger] ops[i]).time() <= end,
    ensures
        forall|i: int| 0 <= i < apply_times(ops).len() ==> #[trigger] apply_times(ops)[i] <= end,
    decreases ops.len(),
{
    if ops.len() > 0 {
        assert(ops[0].time() <= end);
        assert forall|i: int| 0 <= i < ops.skip(1).len() implies (#[trigger] ops.skip(1)[i]).time()
            <= end by {
            assert(ops.skip(1)[i] == ops[i + 1]);
        }
        let later = apply_times(ops.skip(1));
        apply_times_are_bounded(ops.skip(1), end);
        if let StoreOp::Apply(now) = ops[0] {
            assert forall|i: int| 0 <= i < apply_times(ops).len() implies #[trigger] apply_times(
                ops,
            )[i] <= end by {
                if i > 0 {
                    assert(apply_times(ops)[i] == later[i - 1]);
                }
            }
        }
    }
}

proof fn run_from_the_front(policy: Policy, state: TokenState, first: u64, rest: Seq<u64>)
    ensures
        bucket_after(policy, state, seq![first] + rest) == bucket_after(
            policy,
            bucket_step(first, policy, state).1,
            rest,
        ),
        admitted(policy, state, seq![first] + rest) == (if bucket_step(first, policy, state).0 {
            1nat
        } else {
            0nat
        }) + admitted(policy, bucket_step(first, policy, state).1, rest),
    decreases rest.len(),
{
    let all = seq![first] + rest;
    if rest.len() == 0 {
        assert(all.drop_last() =~= Seq::<u64>::empty());
        assert(all.last() == first);
        reveal_with_fuel(admitted, 2);
        reveal_with_fuel(bucket_after, 2);
    } else {
        assert(all.drop_last() =~= seq![first] + rest.drop_last());
        run_from_the_front(policy, state, first, rest.drop_last());
    }
}

proof fn store_run_is_a_bucket_run(policy: Policy, state: TokenState, ops: Seq<StoreOp>)
    ensures
        store_admitted(policy, Some(state), ops) == admitted(policy, state, apply_times(ops)),
    decreases ops.len(),
{
    if ops.len() > 0 {
        match ops[0] {
            StoreOp::Apply(now) => {
                let next = bucket_step(now, policy, state).1;
                store_run_is_a_bucket_run(policy, next, ops.skip(1));
                run_from_the_front(policy, state, now, apply_times(ops.skip(1)));
            },
            StoreOp::InsertIfAbsent(_) => {
                store_run_is_a_bucket_run(policy, state, ops.skip(1));
            },
        }
    }
}

/// First touch does not leak: however the operations of concurrent packets
/// interleave on a key that has no bucket yet, an enabled policy admits at most
/// one burst plus what its rate earns over the time they span. Inserting only
/// when absent never refills a bucket that is in use.
pub proof fn first_touch_admits_at_most_one_burst(
    policy: Policy,
    ops: Seq<StoreOp>,
    start: int,
    end: int,
)
    requires
        policy.enabled != 0,
        start <= end,
        forall|i: int| 0 <= i < ops.len() ==> start <= (#[trigger] ops[i]).time() <= end,
    ensures
        store_admitted(policy, None, ops) <= policy.burst_tokens
            + if policy.rate_tokens_per_sec == 0 {
            0
        } else {
            (end - start) / nanos_per_token(policy.rate_tokens_per_sec)
        },
    decreases ops.len(),
{
    let d = nanos_per_token(policy.rate_tokens_per_sec);
    if policy.rate_tokens_per_sec > 0 {
        crate::bucket::nanos_per_token_is_positive(policy.rate_tokens_per_sec);
        lemma_div_is_ordered(0, end - start, d);
    }
    if ops.len() > 0 {
        let rest = ops.skip(1);
        assert forall|i: int| 0 <= i < rest.len() implies start <= (#[trigger] rest[i]).time()
            <= end by {
            assert(rest[i] == ops[i + 1]);
        }
        assert(start <= ops[0].time() <= end);
        match ops[0] {
            StoreOp::Apply(_) => {
                first_touch_admits_at_most_one_burst(policy, rest, start, end);
            },
            StoreOp::InsertIfAbsent(now) => {
                let fresh = full_bucket(policy, now);
                store_run_is_a_bucket_run(policy, fresh, rest);
                apply_times_are_bounded(rest, end);
                admissions_are_bounded(policy, fresh, apply_times(rest), end);
                if policy.rate_tokens_per_sec > 0 {
                    lemma_div_is_ordered(end - now, end - start, d);
                }
            },
        }
    }
}

} // verus!
