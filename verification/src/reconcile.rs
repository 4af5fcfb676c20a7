//! Bringing the kernel maps in line with the desired state.

use vstd::prelude::*;

use crate::common::{GlobalConfig, Policy, TenantKey};
use crate::config::GlobalConfigSeed;
use crate::map_client::{key_set, reads_map, MapError};
use crate::metrics::MetricsState;
use crate::state_store::{lookup, DesiredState, PersistedStateV1, RuntimeOverrideRecord, StateStore};
use crate::table::{
    ascending, has_key, map_of, map_of_reads_rows, push_adds_key, take_one_more, KeyedTable, Ranked,
};

verus! {

/// What has to be done to a policy map.
#[derive(Debug)]
pub struct ReconcilePlan {
    pub to_upsert: Vec<(TenantKey, Policy)>,
    pub to_delete: Vec<TenantKey>,
}

/// Whether the entry of `key` has to be written, given what the map answered for
/// the keys that it lists.
pub open spec fn needs_upsert(
    current: Set<TenantKey>,
    answers: Map<TenantKey, Option<Policy>>,
    key: TenantKey,
    policy: Policy,
) -> bool {
    !current.contains(key) || answers[key] != Some(policy)
}

/// Whether the keys of `keys` strictly ascend.
pub open spec fn ascending_keys(keys: Seq<TenantKey>) -> bool {
    forall|i: int, j: int|
        0 <= i < j < keys.len() ==> (#[trigger] keys[i]).rank() < (#[trigger] keys[j]).rank()
}

impl ReconcilePlan {
    /// Whether the plan is the one for `desired`, a map that lists the keys
    /// `current`, and its answers for them: it writes what is missing or stale,
    /// deletes what is extra, and touches nothing else.
    pub open spec fn fits(
        self,
        desired: Map<TenantKey, Policy>,
        current: Set<TenantKey>,
        answers: Map<TenantKey, Option<Policy>>,
    ) -> bool {
        &&& ascending(self.to_upsert@)
        &&& forall|key: TenantKey|
            #![trigger has_key(self.to_upsert@, key)]
            has_key(self.to_upsert@, key) == (desired.dom().contains(key) && needs_upsert(
                current,
                answers,
                key,
                desired[key],
            ))
        &&& forall|i: int|
            0 <= i < self.to_upsert@.len() ==> (#[trigger] self.to_upsert@[i]).1
                == desired[self.to_upsert@[i].0]
        &&& ascending_keys(self.to_delete@)
        &&& forall|key: TenantKey| #[trigger]
            self.to_delete@.contains(key) == (current.contains(key) && !desired.dom().contains(key))
    }

    /// The map after the plan was carried out on `current`.
    pub open spec fn carried_out(self, current: Map<TenantKey, Policy>) -> Map<TenantKey, Policy> {
        current.union_prefer_right(map_of(self.to_upsert@)).remove_keys(self.to_delete@.to_set())
    }
}

/// Reconciling converges: carrying out the plan on the map whose keys and
/// answers it was made from gives exactly the desired map.
pub proof fn plan_converges(
    plan: ReconcilePlan,
    desired: Map<TenantKey, Policy>,
    current: Map<TenantKey, Policy>,
    answers: Map<TenantKey, Option<Policy>>,
)
    requires
        plan.fits(desired, current.dom(), answers),
        forall|key: TenantKey| #[trigger]
            current.dom().contains(key) ==> answers[key] == Some(current[key]),
    ensures
        plan.carried_out(current) == desired,
{
    let after = plan.carried_out(current);
    let writes = map_of(plan.to_upsert@);
    assert forall|key: TenantKey| after.dom().contains(key) == desired.dom().contains(key) by {
        assert(writes.dom().contains(key) == has_key(plan.to_upsert@, key));
        assert(plan.to_delete@.to_set().contains(key) == plan.to_delete@.contains(key));
    }
    assert forall|key: TenantKey| desired.dom().contains(key) implies after[key]
        == desired[key] by {
        assert(after.dom().contains(key));
        assert(writes.dom().contains(key) == has_key(plan.to_upsert@, key));
        if has_key(plan.to_upsert@, key) {
            let i = choose|i: int|
                0 <= i < plan.to_upsert@.len() && (#[trigger] plan.to_upsert@[i]).0 == key;
            map_of_reads_rows(plan.to_upsert@, i);
        } else {
            assert(current.dom().contains(key));
        }
    }
    assert(after =~= desired);
}

/// A plan writes exactly what is desired and missing or different, with the desired
/// policy, and deletes exactly what is there and not desired; carried out, it leaves what
/// it wrote and what it did not touch.
pub proof fn a_plan_touches_what_differs(
    plan: ReconcilePlan,
    desired: Map<TenantKey, Policy>,
    current: Map<TenantKey, Policy>,
    answers: Map<TenantKey, Option<Policy>>,
    key: TenantKey,
    i: int,
)
    requires
        plan.fits(desired, current.dom(), answers),
        forall|k: TenantKey| #[trigger]
            current.dom().contains(k) ==> answers[k] == Some(current[k]),
    ensures
        has_key(plan.to_upsert@, key) <==> desired.dom().contains(key) && (!current.dom().contains(
            key,
        ) || current[key] != desired[key]),
        plan.to_delete@.contains(key) <==> current.dom().contains(key) && !desired.dom().contains(
            key,
        ),
        0 <= i < plan.to_upsert@.len() ==> desired.dom().contains(plan.to_upsert@[i].0)
            && plan.to_upsert@[i].1 == desired[plan.to_upsert@[i].0],
        0 < i < plan.to_upsert@.len() ==> plan.to_upsert@[i - 1].0.rank()
            < plan.to_upsert@[i].0.rank(),
        0 < i < plan.to_delete@.len() ==> plan.to_delete@[i - 1].rank()
            < plan.to_delete@[i].rank(),
        plan.to_delete@.contains(key) ==> !plan.carried_out(current).dom().contains(key),
        has_key(plan.to_upsert@, key) ==> plan.carried_out(current).dom().contains(key)
            && plan.carried_out(current)[key] == desired[key],
        !plan.to_delete@.contains(key) && !has_key(plan.to_upsert@, key) ==> lookup(
            plan.carried_out(current),
            key,
        ) == lookup(current, key),
{
    plan_converges(plan, desired, current, answers);
    if 0 <= i < plan.to_upsert@.len() {
        assert(has_key(plan.to_upsert@, plan.to_upsert@[i].0));
    }
    assert(map_of(plan.to_upsert@).dom().contains(key) == has_key(plan.to_upsert@, key));
    assert(plan.to_delete@.to_set().contains(key) == plan.to_delete@.contains(key));
}

/// Reconciling is minimal: a map that is as desired needs nothing done.
pub proof fn nothing_to_do_when_in_line(
    plan: ReconcilePlan,
    desired: Map<TenantKey, Policy>,
    answers: Map<TenantKey, Option<Policy>>,
)
    requires
        plan.fits(desired, desired.dom(), answers),
        forall|key: TenantKey| #[trigger]
            desired.dom().contains(key) ==> answers[key] == Some(desired[key]),
    ensures
        plan.to_upsert@.len() == 0,
        plan.to_delete@.len() == 0,
{
    if plan.to_upsert@.len() > 0 {
        assert(has_key(plan.to_upsert@, plan.to_upsert@[0].0));
    }
    if plan.to_delete@.len() > 0 {
        assert(plan.to_delete@.contains(plan.to_delete@[0]));
    }
}

/// Whether `get` gave `answers` for the keys that are both listed and desired.
pub open spec fn answered<G: Fn(TenantKey) -> Result<Option<Policy>, MapError>>(
    get: G,
    desired: Map<TenantKey, Policy>,
    current: Set<TenantKey>,
    answers: Map<TenantKey, Option<Policy>>,
) -> bool {
    forall|key: TenantKey|
        desired.dom().contains(key) && current.contains(key) ==> #[trigger] call_ensures(
            get,
            (key,),
            Ok::<Option<Policy>, MapError>(answers[key]),
        )
}

/// Whether `get` gave an answer for `key`.
pub open spec fn was_read<G: Fn(TenantKey) -> Result<Option<Policy>, MapError>>(
    get: G,
    key: TenantKey,
) -> bool {
    exists|answer: Option<Policy>| #[trigger]
        call_ensures(get, (key,), Ok::<Option<Policy>, MapError>(answer))
}

/// Whether `get` gave an answer for every key before `key` that is both listed and
/// desired.
pub open spec fn read_up_to<G: Fn(TenantKey) -> Result<Option<Policy>, MapError>>(
    get: G,
    desired: Map<TenantKey, Policy>,
    current: Set<TenantKey>,
    key: TenantKey,
) -> bool {
    forall|earlier: TenantKey|
        desired.dom().contains(earlier) && current.contains(earlier) && earlier.rank() < key.rank()
            ==> #[trigger] was_read(get, earlier)
}

/// Makes the plan for a map that lists `current_keys`, asking `get` for the
/// entries that are listed and desired, in ascending order, and for no others.
pub fn plan_policy_map<G: Fn(TenantKey) -> Result<Option<Policy>, MapError>>(
    desired: &KeyedTable<TenantKey, Policy>,
    current_keys: &[TenantKey],
    get: &G,
) -> (r: Result<ReconcilePlan, MapError>)
    requires
        forall|k: TenantKey|
            desired@.dom().contains(k) && current_keys@.contains(k) && #[trigger] read_up_to(
                *get,
                desired@,
                current_keys@.to_set(),
                k,
            ) ==> call_requires(*get, (k,)),
    ensures
        match r {
            Ok(plan) => exists|answers: Map<TenantKey, Option<Policy>>| #[trigger]
                answered(*get, desired@, current_keys@.to_set(), answers) && plan.fits(
                    desired@,
                    current_keys@.to_set(),
                    answers,
                ),
            Err(error) => exists|key: TenantKey|
                desired@.dom().contains(key) && current_keys@.contains(key) && read_up_to(
                    *get,
                    desired@,
                    current_keys@.to_set(),
                    key,
                ) && #[trigger] call_ensures(
                    *get,
                    (key,),
                    Err::<Option<Policy>, MapError>(error),
                ),
        },
{
    let current = key_set(current_keys);
    let rows = desired.rows();
    let mut to_upsert: Vec<(TenantKey, Policy)> = Vec::new();
    let ghost mut answers: Map<TenantKey, Option<Policy>> = Map::empty();
    let mut i: usize = 0;
    while i < rows.len()
        invariant
            forall|k: TenantKey|
                desired@.dom().contains(k) && current_keys@.contains(k) && #[trigger] read_up_to(
                    *get,
                    desired@,
                    current_keys@.to_set(),
                    k,
                ) ==> call_requires(*get, (k,)),
            i <= rows@.len(),
            rows@ == desired.entries(),
            ascending(rows@),
            current@ == current_keys@.to_set(),
            ascending(to_upsert@),
            forall|j: int|
                0 <= j < to_upsert@.len() ==> has_key(
                    rows@.take(i as int),
                    (#[trigger] to_upsert@[j]).0,
                ),
            forall|j: int|
                0 <= j < to_upsert@.len() ==> (#[trigger] to_upsert@[j]).1
                    == desired@[to_upsert@[j].0],
            forall|key: TenantKey|
                #![trigger has_key(to_upsert@, key)]
                has_key(to_upsert@, key) == (has_key(rows@.take(i as int), key) && needs_upsert(
                    current@,
                    answers,
                    key,
                    desired@[key],
                )),
            forall|key: TenantKey|
                has_key(rows@.take(i as int), key) && current@.contains(key)
                    ==> #[trigger] call_ensures(
                    *get,
                    (key,),
                    Ok::<Option<Policy>, MapError>(answers[key]),
                ),
        decreases rows@.len() - i,
    {
        let (tenant, policy): (TenantKey, Policy) = rows[i];
        let ghost head = rows@.take(i as int);
        let ghost next = rows@.take(i + 1);
        let ghost answers_before = answers;
        let ghost before = to_upsert@;
        proof {
            map_of_reads_rows(rows@, i as int);
            take_one_more(rows@, i as int);
            push_adds_key(head, (tenant, policy));
            assert(!has_key(head, tenant)) by {
                if has_key(head, tenant) {
                    let j = choose|j: int| 0 <= j < head.len() && (#[trigger] head[j]).0 == tenant;
                    assert(rows@[j].0.rank() < rows@[i as int].0.rank());
                }
            }
        }
        proof {
            assert(desired@.dom().contains(tenant));
            assert forall|earlier: TenantKey|
                desired@.dom().contains(earlier) && current@.contains(earlier) && earlier.rank()
                    < tenant.rank() implies #[trigger] was_read(*get, earlier) by {
                let j = choose|j: int| 0 <= j < rows@.len() && (#[trigger] rows@[j]).0 == earlier;
                assert(head[j].0 == earlier);
                assert(call_ensures(
                    *get,
                    (earlier,),
                    Ok::<Option<Policy>, MapError>(answers[earlier]),
                ));
            }
            assert(read_up_to(*get, desired@, current@, tenant));
        }
        let listed: bool = current.contains(&tenant);
        let mut stale: bool = true;
        if listed {
            match get(tenant) {
                Err(error) => {
                    assert(call_ensures(*get, (tenant,), Err::<Option<Policy>, MapError>(error)));
                    return Err(error);
                },
                Ok(answer) => {
                    proof {
                        answers = answers.insert(tenant, answer);
                    }
                    stale = match answer {
                        Some(found) => found != policy,
                        None => true,
                    };
                },
            }
        }
        if stale {
            to_upsert.push((tenant, policy));
        }
        proof {
            assert forall|key: TenantKey| #![trigger has_key(to_upsert@, key)]
                has_key(to_upsert@, key) == (has_key(next, key) && needs_upsert(
                    current@,
                    answers,
                    key,
                    desired@[key],
                )) by {
                if has_key(before, key) {
                    let j = choose|j: int| 0 <= j < before.len() && (#[trigger] before[j]).0 == key;
                    assert(to_upsert@[j] == before[j]);
                }
                if stale {
                    assert(to_upsert@[before.len() as int].0 == tenant);
                }
                if has_key(to_upsert@, key) && key != tenant {
                    let j = choose|j: int|
                        0 <= j < to_upsert@.len() && (#[trigger] to_upsert@[j]).0 == key;
                    assert(before[j] == to_upsert@[j]);
                    assert(has_key(before, key));
                }
                if key != tenant {
                    assert(has_key(before, key) == (has_key(head, key) && needs_upsert(
                        current@,
                        answers_before,
                        key,
                        desired@[key],
                    )));
                } else {
                    assert(!has_key(before, key));
                }
            }
            assert forall|j: int| 0 <= j < to_upsert@.len() implies has_key(
                next,
                (#[trigger] to_upsert@[j]).0,
            ) by {
                if j < before.len() {
                    assert(to_upsert@[j] == before[j]);
                }
            }
            assert forall|a: int, b: int| 0 <= a < b < to_upsert@.len() implies (
            #[trigger] to_upsert@[a]).0.rank() < (#[trigger] to_upsert@[b]).0.rank() by {
                assert(to_upsert@[a] == before[a]);
                if b < before.len() {
                    assert(to_upsert@[b] == before[b]);
                } else {
                    assert(has_key(head, before[a].0));
                    let j = choose|j: int|
                        0 <= j < head.len() && (#[trigger] head[j]).0 == before[a].0;
                    assert(rows@[j].0.rank() < rows@[i as int].0.rank());
                }
            }
            assert forall|j: int| 0 <= j < to_upsert@.len() implies (
            #[trigger] to_upsert@[j]).1 == desired@[to_upsert@[j].0] by {
                if j < before.len() {
                    assert(to_upsert@[j] == before[j]);
                }
            }
            assert forall|key: TenantKey|
                has_key(next, key) && current@.contains(key) implies #[trigger] call_ensures(
                *get,
                (key,),
                Ok::<Option<Policy>, MapError>(answers[key]),
            ) by {
                if key != tenant {
                    assert(has_key(head, key));
                    assert(call_ensures(
                        *get,
                        (key,),
                        Ok::<Option<Policy>, MapError>(answers_before[key]),
                    ));
                }
            }
        }
        i += 1;
    }
    assert(rows@.take(i as int) =~= rows@);
    let to_delete = extra_keys(desired, current.keys().as_slice());
    let plan = ReconcilePlan { to_upsert, to_delete };
    proof {
        assert forall|key: TenantKey| #[trigger] desired@.dom().contains(key) == has_key(
            rows@,
            key,
        ) by {}
        assert(answered(*get, desired@, current@, answers));
        assert(plan.fits(desired@, current@, answers));
    }
    Ok(plan)
}

/// The keys of `listed` that are not desired.
fn extra_keys(desired: &KeyedTable<TenantKey, Policy>, listed: &[TenantKey]) -> (extra: Vec<
    TenantKey,
>)
    requires
        ascending_keys(listed@),
    ensures
        ascending_keys(extra@),
        forall|key: TenantKey| #[trigger]
            extra@.contains(key) == (listed@.contains(key) && !desired@.dom().contains(key)),
{
    let mut extra: Vec<TenantKey> = Vec::new();
    let mut i: usize = 0;
    while i < listed.len()
        invariant
            i <= listed@.len(),
            ascending_keys(listed@),
            ascending_keys(extra@),
            forall|j: int|
                0 <= j < extra@.len() ==> listed@.take(i as int).contains(#[trigger] extra@[j]),
            forall|key: TenantKey| #[trigger]
                extra@.contains(key) == (listed@.take(i as int).contains(key)
                    && !desired@.dom().contains(key)),
        decreases listed@.len() - i,
    {
        let tenant: TenantKey = listed[i];
        let ghost head = listed@.take(i as int);
        let ghost next = listed@.take(i + 1);
        let ghost before = extra@;
        let wanted: bool = desired.contains_key(&tenant);
        if !wanted {
            extra.push(tenant);
        }
        proof {
            take_one_more(listed@, i as int);
            assert forall|key: TenantKey| #[trigger] extra@.contains(key) == (next.contains(key)
                && !desired@.dom().contains(key)) by {
                if before.contains(key) {
                    let j = choose|j: int| 0 <= j < before.len() && before[j] == key;
                    assert(extra@[j] == key);
                }
                if !wanted {
                    assert(extra@[before.len() as int] == tenant);
                }
                if extra@.contains(key) && key != tenant {
                    let j = choose|j: int| 0 <= j < extra@.len() && extra@[j] == key;
                    assert(before[j] == key);
                    assert(before.contains(key));
                }
            }
            assert forall|j: int| 0 <= j < extra@.len() implies next.contains(
                #[trigger] extra@[j],
            ) by {
                if j < before.len() {
                    assert(extra@[j] == before[j]);
                }
            }
            assert forall|a: int, b: int| 0 <= a < b < extra@.len() implies (
            #[trigger] extra@[a]).rank() < (#[trigger] extra@[b]).rank() by {
                assert(extra@[a] == before[a]);
                if b < before.len() {
                    assert(extra@[b] == before[b]);
                } else {
                    assert(head.contains(before[a]));
                    let j = choose|j: int| 0 <= j < head.len() && head[j] == before[a];
                    assert(listed@[j].rank() < listed@[i as int].rank());
                }
            }
        }
        i += 1;
    }
    assert(listed@.take(i as int) =~= listed@);
    extra
}

/// Whether writing `entries` with `upsert` can have come out as `r`. Nothing is
/// written where there is nothing to write.
pub open spec fn wrote<U: FnOnce(&[(TenantKey, Policy)]) -> Result<(), MapError>>(
    upsert: U,
    entries: Seq<(TenantKey, Policy)>,
    r: Result<(), MapError>,
) -> bool {
    if entries.len() == 0 {
        r is Ok
    } else {
        exists|slice: &[(TenantKey, Policy)]|
            slice@ == entries && #[trigger] call_ensures(upsert, (slice,), r)
    }
}

/// Whether deleting `keys` with `delete` can have come out as `r`. Nothing is
/// deleted where there is nothing to delete.
pub open spec fn deleted<D: FnOnce(&[TenantKey]) -> Result<(), MapError>>(
    delete: D,
    keys: Seq<TenantKey>,
    r: Result<(), MapError>,
) -> bool {
    if keys.len() == 0 {
        r is Ok
    } else {
        exists|slice: &[TenantKey]|
            slice@ == keys && #[trigger] call_ensures(delete, (slice,), r)
    }
}

/// Whether `r` is how carrying out `plan` can have come out: the writes go
/// first, and nothing is deleted after a failed write.
pub open spec fn plan_outcome<
    U: FnOnce(&[(TenantKey, Policy)]) -> Result<(), MapError>,
    D: FnOnce(&[TenantKey]) -> Result<(), MapError>,
>(plan: ReconcilePlan, upsert: U, delete: D, r: Result<(), MapError>) -> bool {
    ||| r is Err && wrote(upsert, plan.to_upsert@, r)
    ||| wrote(upsert, plan.to_upsert@, Ok::<(), MapError>(())) && deleted(
        delete,
        plan.to_delete@,
        r,
    )
}

/// What carrying out a plan did: success means that its writes, where it has any, were
/// made in one batch and then its deletions in another; a failure is the one that one
/// of the two gave, and after failed writes nothing was deleted.
pub proof fn a_plan_is_carried_out_in_batches<
    U: FnOnce(&[(TenantKey, Policy)]) -> Result<(), MapError>,
    D: FnOnce(&[TenantKey]) -> Result<(), MapError>,
>(plan: ReconcilePlan, upsert: U, delete: D, r: Result<(), MapError>)
    requires
        plan_outcome(plan, upsert, delete, r),
    ensures
        r is Ok && plan.to_upsert@.len() > 0 ==> exists|slice: &[(TenantKey, Policy)]|
            slice@ == plan.to_upsert@ && #[trigger] call_ensures(
                upsert,
                (slice,),
                Ok::<(), MapError>(()),
            ),
        r is Ok && plan.to_delete@.len() > 0 ==> exists|slice: &[TenantKey]|
            slice@ == plan.to_delete@ && #[trigger] call_ensures(
                delete,
                (slice,),
                Ok::<(), MapError>(()),
            ),
        r matches Err(error) ==> {
            ||| plan.to_upsert@.len() > 0 && exists|slice: &[(TenantKey, Policy)]|
                slice@ == plan.to_upsert@ && #[trigger] call_ensures(
                    upsert,
                    (slice,),
                    Err::<(), MapError>(error),
                )
            ||| plan.to_delete@.len() > 0 && exists|slice: &[TenantKey]|
                slice@ == plan.to_delete@ && #[trigger] call_ensures(
                    delete,
                    (slice,),
                    Err::<(), MapError>(error),
                )
        },
{
    if let Ok(unit) = r {
        assert(unit == ());
    }
}

/// Whether `upsert` may be called for exactly `entries`, where there are any.
pub open spec fn may_write<U: FnOnce(&[(TenantKey, Policy)]) -> Result<(), MapError>>(
    upsert: U,
    entries: Seq<(TenantKey, Policy)>,
) -> bool {
    forall|slice: &[(TenantKey, Policy)]|
        slice@ == entries && entries.len() > 0 ==> #[trigger] call_requires(upsert, (slice,))
}

/// Whether `delete` may be called for exactly `keys`, where there are any.
pub open spec fn may_delete_keys<D: FnOnce(&[TenantKey]) -> Result<(), MapError>>(
    delete: D,
    keys: Seq<TenantKey>,
) -> bool {
    forall|slice: &[TenantKey]|
        slice@ == keys && keys.len() > 0 ==> #[trigger] call_requires(delete, (slice,))
}

/// Whether `plan` may be carried out: its writes, and after them its deletions.
pub open spec fn may_carry_out<
    U: FnOnce(&[(TenantKey, Policy)]) -> Result<(), MapError>,
    D: FnOnce(&[TenantKey]) -> Result<(), MapError>,
>(plan: ReconcilePlan, upsert: U, delete: D) -> bool {
    &&& may_write(upsert, plan.to_upsert@)
    &&& wrote(upsert, plan.to_upsert@, Ok::<(), MapError>(())) ==> may_delete_keys(
        delete,
        plan.to_delete@,
    )
}

/// Carries out a plan: one batch of writes and, once that succeeded, one batch of
/// deletions.
pub fn carry_out<
    U: FnOnce(&[(TenantKey, Policy)]) -> Result<(), MapError>,
    D: FnOnce(&[TenantKey]) -> Result<(), MapError>,
>(plan: &ReconcilePlan, upsert: U, delete: D) -> (r: Result<(), MapError>)
    requires
        may_carry_out(*plan, upsert, delete),
    ensures
        plan_outcome(*plan, upsert, delete, r),
{
    if plan.to_upsert.len() > 0 {
        let outcome = upsert(plan.to_upsert.as_slice());
        match outcome {
            Err(error) => return Err(error),
            Ok(unit) => {
                assert(unit == ());
            },
        }
    }
    if plan.to_delete.len() > 0 {
        let outcome = delete(plan.to_delete.as_slice());
        return outcome;
    }
    Ok(())
}

/// Whether `r` is how bringing a map in line with `desired` can have come out.
pub open spec fn reconcile_outcome<
    G: Fn(TenantKey) -> Result<Option<Policy>, MapError>,
    U: FnOnce(&[(TenantKey, Policy)]) -> Result<(), MapError>,
    D: FnOnce(&[TenantKey]) -> Result<(), MapError>,
>(
    desired: Map<TenantKey, Policy>,
    current: Set<TenantKey>,
    get: G,
    upsert: U,
    delete: D,
    r: Result<(), MapError>,
) -> bool {
    ||| exists|key: TenantKey, error: MapError|
        {
            &&& desired.dom().contains(key)
            &&& current.contains(key)
            &&& read_up_to(get, desired, current, key)
            &&& #[trigger] call_ensures(get, (key,), Err::<Option<Policy>, MapError>(error))
            &&& r == Err::<(), MapError>(error)
        }
    ||| exists|plan: ReconcilePlan, answers: Map<TenantKey, Option<Policy>>|
        {
            &&& answered(get, desired, current, answers)
            &&& #[trigger] plan.fits(desired, current, answers)
            &&& plan_outcome(plan, upsert, delete, r)
        }
}

/// Whether a map that lists the keys `current` may be brought in line with
/// `desired`: entries that are listed and desired may be read, each once those before
/// it were, and the plan that fits what was read may be carried out.
pub open spec fn may_reconcile_listed<
    G: Fn(TenantKey) -> Result<Option<Policy>, MapError>,
    U: FnOnce(&[(TenantKey, Policy)]) -> Result<(), MapError>,
    D: FnOnce(&[TenantKey]) -> Result<(), MapError>,
>(
    desired: Map<TenantKey, Policy>,
    current: Set<TenantKey>,
    get: G,
    upsert: U,
    delete: D,
) -> bool {
    &&& forall|k: TenantKey|
        desired.dom().contains(k) && current.contains(k) && #[trigger] read_up_to(
            get,
            desired,
            current,
            k,
        ) ==> call_requires(get, (k,))
    &&& forall|plan: ReconcilePlan, answers: Map<TenantKey, Option<Policy>>|
        answered(get, desired, current, answers) && #[trigger] plan.fits(desired, current, answers)
            ==> may_carry_out(plan, upsert, delete)
}

/// Brings a policy map that lists `current_keys` in line with `desired`: writes
/// what is missing or stale, deletes what is extra, touches nothing else.
pub fn reconcile_policy_map<
    G: Fn(TenantKey) -> Result<Option<Policy>, MapError>,
    U: FnOnce(&[(TenantKey, Policy)]) -> Result<(), MapError>,
    D: FnOnce(&[TenantKey]) -> Result<(), MapError>,
>(
    desired: &KeyedTable<TenantKey, Policy>,
    current_keys: &[TenantKey],
    get_policy: &G,
    upsert_policies_batch: U,
    delete_policies_batch: D,
) -> (r: Result<(), MapError>)
    requires
        may_reconcile_listed(
            desired@,
            current_keys@.to_set(),
            *get_policy,
            upsert_policies_batch,
            delete_policies_batch,
        ),
    ensures
        reconcile_outcome(
            desired@,
            current_keys@.to_set(),
            *get_policy,
            upsert_policies_batch,
            delete_policies_batch,
            r,
        ),
{
    match plan_policy_map(desired, current_keys, get_policy) {
        Err(error) => Err(error),
        Ok(plan) => {
            assert(exists|answers: Map<TenantKey, Option<Policy>>|
                answered(*get_policy, desired@, current_keys@.to_set(), answers)
                    && #[trigger] plan.fits(desired@, current_keys@.to_set(), answers));
            carry_out(&plan, upsert_policies_batch, delete_policies_batch)
        },
    }
}

/// A reconcile of one map fails only where something did: reading a listed entry, the
/// writes or the deletions, with the same error.
pub proof fn a_failed_reconcile_has_a_cause<
    G: Fn(TenantKey) -> Result<Option<Policy>, MapError>,
    U: FnOnce(&[(TenantKey, Policy)]) -> Result<(), MapError>,
    D: FnOnce(&[TenantKey]) -> Result<(), MapError>,
>(
    desired: Map<TenantKey, Policy>,
    current: Set<TenantKey>,
    get: G,
    upsert: U,
    delete: D,
    error: MapError,
)
    requires
        reconcile_outcome(desired, current, get, upsert, delete, Err::<(), MapError>(error)),
    ensures
        ({
            ||| exists|key: TenantKey|
                current.contains(key) && desired.dom().contains(key) && read_up_to(
                    get,
                    desired,
                    current,
                    key,
                ) && #[trigger] call_ensures(get, (key,), Err::<Option<Policy>, MapError>(error))
            ||| exists|slice: &[(TenantKey, Policy)]| #[trigger]
                call_ensures(upsert, (slice,), Err::<(), MapError>(error))
            ||| exists|slice: &[TenantKey]| #[trigger]
                call_ensures(delete, (slice,), Err::<(), MapError>(error))
        }),
{
    if !(exists|key: TenantKey|
        current.contains(key) && desired.dom().contains(key) && read_up_to(
            get,
            desired,
            current,
            key,
        ) && #[trigger] call_ensures(get, (key,), Err::<Option<Policy>, MapError>(error))) {
        let (plan, answers) = choose|plan: ReconcilePlan, answers: Map<TenantKey, Option<Policy>>|
            {
                &&& answered(get, desired, current, answers)
                &&& #[trigger] plan.fits(desired, current, answers)
                &&& plan_outcome(plan, upsert, delete, Err::<(), MapError>(error))
            };
        a_plan_is_carried_out_in_batches(plan, upsert, delete, Err::<(), MapError>(error));
    }
}

/// Whether one batch of writes and one of deletions were made that turn `current`
/// into `desired` and touch only keys whose entries differ.
pub open spec fn turned_into<
    U: FnOnce(&[(TenantKey, Policy)]) -> Result<(), MapError>,
    D: FnOnce(&[TenantKey]) -> Result<(), MapError>,
>(
    current: Map<TenantKey, Policy>,
    desired: Map<TenantKey, Policy>,
    plan: ReconcilePlan,
    upsert: U,
    delete: D,
) -> bool {
    &&& plan_outcome(plan, upsert, delete, Ok::<(), MapError>(()))
    &&& plan.carried_out(current) == desired
    &&& forall|key: TenantKey|
        #![trigger has_key(plan.to_upsert@, key)]
        has_key(plan.to_upsert@, key) ==> lookup(current, key) != lookup(desired, key)
    &&& forall|key: TenantKey| #[trigger]
        plan.to_delete@.contains(key) ==> lookup(current, key) != lookup(desired, key)
    &&& current == desired ==> plan.to_upsert@.len() == 0 && plan.to_delete@.len() == 0
}

/// A reconciled map is the desired one: where a map was listed and read as it is,
/// a successful reconcile wrote and deleted exactly what turns it into `desired`,
/// and nothing where it was in line already.
pub proof fn reconciled_map_is_desired<
    G: Fn(TenantKey) -> Result<Option<Policy>, MapError>,
    U: FnOnce(&[(TenantKey, Policy)]) -> Result<(), MapError>,
    D: FnOnce(&[TenantKey]) -> Result<(), MapError>,
>(
    desired: Map<TenantKey, Policy>,
    current: Map<TenantKey, Policy>,
    get: G,
    upsert: U,
    delete: D,
)
    requires
        reads_map(get, current),
        reconcile_outcome(desired, current.dom(), get, upsert, delete, Ok::<(), MapError>(())),
    ensures
        exists|plan: ReconcilePlan| #[trigger]
            turned_into(current, desired, plan, upsert, delete),
{
    let (plan, answers) = choose|plan: ReconcilePlan, answers: Map<TenantKey, Option<Policy>>|
        {
            &&& answered(get, desired, current.dom(), answers)
            &&& #[trigger] plan.fits(desired, current.dom(), answers)
            &&& plan_outcome(plan, upsert, delete, Ok::<(), MapError>(()))
        };
    let known = Map::new(
        |key: TenantKey| true,
        |key: TenantKey|
            if desired.dom().contains(key) {
                answers[key]
            } else {
                Some(current[key])
            },
    );
    assert forall|key: TenantKey|
        desired.dom().contains(key) && current.dom().contains(key) implies answers[key] == Some(
        current[key],
    ) by {
        assert(call_ensures(get, (key,), Ok::<Option<Policy>, MapError>(answers[key])));
    }
    assert(plan.fits(desired, current.dom(), known)) by {
        assert forall|key: TenantKey|
            #![trigger has_key(plan.to_upsert@, key)]
            has_key(plan.to_upsert@, key) == (desired.dom().contains(key) && needs_upsert(
                current.dom(),
                known,
                key,
                desired[key],
            )) by {
            assert(has_key(plan.to_upsert@, key) == (desired.dom().contains(key) && needs_upsert(
                current.dom(),
                answers,
                key,
                desired[key],
            )));
        }
    }
    plan_converges(plan, desired, current, known);
    if current == desired {
        nothing_to_do_when_in_line(plan, desired, known);
    }
    assert(turned_into(current, desired, plan, upsert, delete));
}

/// A failed reconcile: what was being done, and why it failed.
#[derive(Debug)]
pub struct ReconcileError {
    pub context: &'static str,
    pub source: MapError,
}

/// The policies that runtime overrides put in force.
pub open spec fn override_policies(
    overrides: Map<TenantKey, RuntimeOverrideRecord>,
) -> Map<TenantKey, Policy> {
    Map::new(|key: TenantKey| overrides.dom().contains(key), |key: TenantKey| overrides[key].policy)
}

/// The policies that runtime overrides put in force.
pub fn runtime_policies(overrides: &KeyedTable<TenantKey, RuntimeOverrideRecord>) -> (policies:
    KeyedTable<TenantKey, Policy>)
    ensures
        policies@ == override_policies(overrides@),
{
    let rows = overrides.rows();
    let mut policies: KeyedTable<TenantKey, Policy> = KeyedTable::new();
    let mut i: usize = 0;
    assert(policies@ =~= override_policies(map_of(rows@.take(0))));
    while i < rows.len()
        invariant
            i <= rows@.len(),
            rows@ == overrides.entries(),
            ascending(rows@),
            forall|key: TenantKey| #[trigger]
                policies@.dom().contains(key) == has_key(rows@.take(i as int), key),
            forall|key: TenantKey| #[trigger]
                policies@.dom().contains(key) ==> policies@[key] == overrides@[key].policy,
        decreases rows@.len() - i,
    {
        let (tenant, record): (TenantKey, RuntimeOverrideRecord) = rows[i];
        proof {
            take_one_more(rows@, i as int);
            push_adds_key(rows@.take(i as int), (tenant, record));
            map_of_reads_rows(rows@, i as int);
        }
        policies.insert(tenant, record.policy);
        i += 1;
    }
    assert(rows@.take(i as int) =~= rows@);
    assert(policies@ =~= override_policies(overrides@));
    policies
}

/// Access to one policy map: listing its keys, reading an entry, and one batch each
/// of writes and deletions.
pub struct PolicyMapAccess<L, G, U, D> {
    pub list: L,
    pub get: G,
    pub upsert: U,
    pub delete: D,
}

/// Whether a map may be brought in line with `desired`: it may be listed, and then
/// reconciled by what it lists.
pub open spec fn may_reconcile<
    L: FnOnce() -> Result<Vec<TenantKey>, MapError>,
    G: Fn(TenantKey) -> Result<Option<Policy>, MapError>,
    U: FnOnce(&[(TenantKey, Policy)]) -> Result<(), MapError>,
    D: FnOnce(&[TenantKey]) -> Result<(), MapError>,
>(access: PolicyMapAccess<L, G, U, D>, desired: Map<TenantKey, Policy>) -> bool {
    &&& call_requires(access.list, ())
    &&& forall|keys: Vec<TenantKey>| #[trigger]
        call_ensures(access.list, (), Ok::<Vec<TenantKey>, MapError>(keys))
            ==> may_reconcile_listed(
            desired,
            keys@.to_set(),
            access.get,
            access.upsert,
            access.delete,
        )
}

/// Whether bringing a map in line with `desired` can have come out as `r`, once its
/// keys were listed.
pub open spec fn reconciles<
    L: FnOnce() -> Result<Vec<TenantKey>, MapError>,
    G: Fn(TenantKey) -> Result<Option<Policy>, MapError>,
    U: FnOnce(&[(TenantKey, Policy)]) -> Result<(), MapError>,
    D: FnOnce(&[TenantKey]) -> Result<(), MapError>,
>(
    access: PolicyMapAccess<L, G, U, D>,
    desired: Map<TenantKey, Policy>,
    r: Result<(), MapError>,
) -> bool {
    exists|keys: Vec<TenantKey>| #[trigger]
        call_ensures(access.list, (), Ok::<Vec<TenantKey>, MapError>(keys)) && reconcile_outcome(
            desired,
            keys@.to_set(),
            access.get,
            access.upsert,
            access.delete,
            r,
        )
}

/// Why a map was not brought in line.
enum MapFailure {
    Listing(MapError),
    Reconciling(MapError),
}

/// Lists a map and brings it in line with `desired`.
fn reconcile_map<
    L: FnOnce() -> Result<Vec<TenantKey>, MapError>,
    G: Fn(TenantKey) -> Result<Option<Policy>, MapError>,
    U: FnOnce(&[(TenantKey, Policy)]) -> Result<(), MapError>,
    D: FnOnce(&[TenantKey]) -> Result<(), MapError>,
>(access: PolicyMapAccess<L, G, U, D>, desired: &KeyedTable<TenantKey, Policy>) -> (r: Result<
    (),
    MapFailure,
>)
    requires
        may_reconcile(access, desired@),
    ensures
        match r {
            Ok(_) => reconciles(access, desired@, Ok::<(), MapError>(())),
            Err(MapFailure::Listing(error)) => call_ensures(
                access.list,
                (),
                Err::<Vec<TenantKey>, MapError>(error),
            ),
            Err(MapFailure::Reconciling(error)) => reconciles(
                access,
                desired@,
                Err::<(), MapError>(error),
            ),
        },
{
    let PolicyMapAccess { list, get, upsert, delete } = access;
    let keys = match list() {
        Ok(keys) => keys,
        Err(error) => return Err(MapFailure::Listing(error)),
    };
    match reconcile_policy_map(desired, keys.as_slice(), &get, upsert, delete) {
        Ok(unit) => {
            assert(unit == ());
            Ok(())
        },
        Err(error) => Err(MapFailure::Reconciling(error)),
    }
}

/// Access to the switches of the packet path: reading each, and storing both.
pub struct SwitchAccess<E, V, S> {
    pub enabled: E,
    pub flow_keys_live: V,
    pub seed: S,
}

/// Whether the switches read as `enabled` and `live`.
pub open spec fn switches_read<
    E: FnOnce() -> Result<bool, MapError>,
    V: FnOnce() -> Result<bool, MapError>,
    S,
>(access: SwitchAccess<E, V, S>, enabled: bool, live: bool) -> bool {
    &&& call_ensures(access.enabled, (), Ok::<bool, MapError>(enabled))
    &&& call_ensures(access.flow_keys_live, (), Ok::<bool, MapError>(live))
}

/// The desired switches as they are stored.
pub open spec fn desired_switches(desired: DesiredState) -> GlobalConfig {
    GlobalConfigSeed {
        enabled: desired.global_enabled,
        flow_keys_live: desired.flow_keys_live,
    }.config()
}

/// Whether the switches may be brought in line: both may be read, and the desired
/// ones stored where they differ.
pub open spec fn may_reconcile_switches<
    E: FnOnce() -> Result<bool, MapError>,
    V: FnOnce() -> Result<bool, MapError>,
    S: FnOnce(GlobalConfig) -> Result<(), MapError>,
>(access: SwitchAccess<E, V, S>, desired: DesiredState) -> bool {
    &&& call_requires(access.enabled, ())
    &&& forall|enabled: bool| #[trigger]
        call_ensures(access.enabled, (), Ok::<bool, MapError>(enabled)) ==> call_requires(
            access.flow_keys_live,
            (),
        )
    &&& forall|enabled: bool, live: bool| #[trigger]
        switches_read(access, enabled, live) && (enabled != desired.global_enabled || live
            != desired.flow_keys_live) ==> call_requires(access.seed, (desired_switches(desired),))
}

/// Whether reading and, where it differs, rewriting the switches can have come
/// out as `r`.
pub open spec fn switches_outcome<
    E: FnOnce() -> Result<bool, MapError>,
    V: FnOnce() -> Result<bool, MapError>,
    S: FnOnce(GlobalConfig) -> Result<(), MapError>,
>(access: SwitchAccess<E, V, S>, desired: DesiredState, r: Result<(), ReconcileError>) -> bool {
    match r {
        Err(error) => {
            ||| {
                &&& error.context@
                    == "failed to read GLOBAL_CONFIG_MAP enabled state for reconcile"@
                &&& call_ensures(access.enabled, (), Err::<bool, MapError>(error.source))
            }
            ||| {
                &&& error.context@
                    == "failed to read GLOBAL_CONFIG_MAP flow-keys state for reconcile"@
                &&& exists|enabled: bool| #[trigger]
                    call_ensures(access.enabled, (), Ok::<bool, MapError>(enabled))
                &&& call_ensures(access.flow_keys_live, (), Err::<bool, MapError>(error.source))
            }
            ||| {
                &&& error.context@
                    == "failed to reconcile GLOBAL_CONFIG_MAP from persisted state"@
                &&& exists|enabled: bool, live: bool| #[trigger]
                    switches_read(access, enabled, live) && (enabled != desired.global_enabled
                        || live != desired.flow_keys_live)
                &&& call_ensures(
                    access.seed,
                    (desired_switches(desired),),
                    Err::<(), MapError>(error.source),
                )
            }
        },
        Ok(_) => exists|enabled: bool, live: bool| #[trigger]
            switches_read(access, enabled, live) && (enabled == desired.global_enabled && live
                == desired.flow_keys_live || call_ensures(
                access.seed,
                (desired_switches(desired),),
                Ok::<(), MapError>(()),
            )),
    }
}

/// The switches end up as desired: where they read otherwise, success means that the
/// desired ones were stored; a failure is the one that reading or storing gave.
pub proof fn switches_end_up_as_desired<
    E: FnOnce() -> Result<bool, MapError>,
    V: FnOnce() -> Result<bool, MapError>,
    S: FnOnce(GlobalConfig) -> Result<(), MapError>,
>(access: SwitchAccess<E, V, S>, desired: DesiredState, r: Result<(), ReconcileError>)
    requires
        switches_outcome(access, desired, r),
    ensures
        r is Ok && !(call_ensures(
            access.enabled,
            (),
            Ok::<bool, MapError>(desired.global_enabled),
        ) && call_ensures(
            access.flow_keys_live,
            (),
            Ok::<bool, MapError>(desired.flow_keys_live),
        )) ==> exists|config: GlobalConfig|
            {
                &&& #[trigger] call_ensures(access.seed, (config,), Ok::<(), MapError>(()))
                &&& (config.enabled != 0) == desired.global_enabled
                &&& (config.flow_keys_live != 0) == desired.flow_keys_live
            },
        r matches Err(error) ==> {
            ||| call_ensures(access.enabled, (), Err::<bool, MapError>(error.source))
                && error.context@
                == "failed to read GLOBAL_CONFIG_MAP enabled state for reconcile"@
            ||| call_ensures(access.flow_keys_live, (), Err::<bool, MapError>(error.source))
                && error.context@
                == "failed to read GLOBAL_CONFIG_MAP flow-keys state for reconcile"@
                && exists|enabled: bool| #[trigger]
                call_ensures(access.enabled, (), Ok::<bool, MapError>(enabled))
            ||| error.context@ == "failed to reconcile GLOBAL_CONFIG_MAP from persisted state"@
                && exists|config: GlobalConfig, enabled: bool, live: bool|
                {
                    &&& #[trigger] call_ensures(
                        access.seed,
                        (config,),
                        Err::<(), MapError>(error.source),
                    )
                    &&& #[trigger] switches_read(access, enabled, live)
                    &&& enabled != desired.global_enabled || live != desired.flow_keys_live
                    &&& (config.enabled != 0) == desired.global_enabled
                    &&& (config.flow_keys_live != 0) == desired.flow_keys_live
                }
        },
{
}

/// Brings the switches of the packet path in line with the desired ones.
fn reconcile_switches<
    E: FnOnce() -> Result<bool, MapError>,
    V: FnOnce() -> Result<bool, MapError>,
    S: FnOnce(GlobalConfig) -> Result<(), MapError>,
>(access: SwitchAccess<E, V, S>, desired: &PersistedStateV1) -> (r: Result<(), ReconcileError>)
    requires
        may_reconcile_switches(access, desired@),
    ensures
        switches_outcome(access, desired@, r),
{
    let ghost whole = access;
    let SwitchAccess { enabled, flow_keys_live, seed } = access;
    let is_enabled: bool = match enabled() {
        Ok(is_enabled) => is_enabled,
        Err(source) => return Err(
            ReconcileError {
                context: "failed to read GLOBAL_CONFIG_MAP enabled state for reconcile",
                source,
            },
        ),
    };
    let is_live: bool = match flow_keys_live() {
        Ok(is_live) => is_live,
        Err(source) => return Err(
            ReconcileError {
                context: "failed to read GLOBAL_CONFIG_MAP flow-keys state for reconcile",
                source,
            },
        ),
    };
    assert(switches_read(whole, is_enabled, is_live));
    if is_enabled != desired.global_enabled || is_live != desired.flow_keys_live {
        let wanted = GlobalConfigSeed {
            enabled: desired.global_enabled,
            flow_keys_live: desired.flow_keys_live,
        };
        match seed(wanted.as_global_config()) {
            Ok(unit) => {
                assert(unit == ());
            },
            Err(source) => return Err(
                ReconcileError {
                    context: "failed to reconcile GLOBAL_CONFIG_MAP from persisted state",
                    source,
                },
            ),
        }
    }
    Ok(())
}

/// Whether `r` is how a reconcile can have come out: the switches go first, then
/// the base map, then the runtime map, up to the first failure.
pub open spec fn once_outcome<
    E: FnOnce() -> Result<bool, MapError>,
    V: FnOnce() -> Result<bool, MapError>,
    S: FnOnce(GlobalConfig) -> Result<(), MapError>,
    L: FnOnce() -> Result<Vec<TenantKey>, MapError>,
    G: Fn(TenantKey) -> Result<Option<Policy>, MapError>,
    U: FnOnce(&[(TenantKey, Policy)]) -> Result<(), MapError>,
    D: FnOnce(&[TenantKey]) -> Result<(), MapError>,
    M: FnOnce() -> Result<Vec<TenantKey>, MapError>,
    H: Fn(TenantKey) -> Result<Option<Policy>, MapError>,
    W: FnOnce(&[(TenantKey, Policy)]) -> Result<(), MapError>,
    X: FnOnce(&[TenantKey]) -> Result<(), MapError>,
>(
    store: &StateStore,
    switches: SwitchAccess<E, V, S>,
    base: PolicyMapAccess<L, G, U, D>,
    runtime: PolicyMapAccess<M, H, W, X>,
    r: Result<u64, ReconcileError>,
) -> bool {
    let desired = store.desired();
    let overrides = override_policies(desired.runtime_overrides);
    let switched = switches_outcome(switches, desired, Ok::<(), ReconcileError>(()));
    let base_done = reconciles(base, desired.base_policies, Ok::<(), MapError>(()));
    match r {
        Ok(revision) => {
            &&& revision == store.changes()
            &&& switched
            &&& base_done
            &&& reconciles(runtime, overrides, Ok::<(), MapError>(()))
        },
        Err(error) => {
            let failed = Err::<(), MapError>(error.source);
            let unlisted = Err::<Vec<TenantKey>, MapError>(error.source);
            ||| switches_outcome(switches, desired, Err::<(), ReconcileError>(error))
            ||| {
                &&& error.context@ == "failed to collect base policy keys for reconcile"@
                &&& switched
                &&& call_ensures(base.list, (), unlisted)
            }
            ||| {
                &&& error.context@ == "failed to reconcile POLICY_MAP from persisted state"@
                &&& switched
                &&& reconciles(base, desired.base_policies, failed)
            }
            ||| {
                &&& error.context@ == "failed to collect runtime policy keys for reconcile"@
                &&& switched
                &&& base_done
                &&& call_ensures(runtime.list, (), unlisted)
            }
            ||| {
                &&& error.context@
                    == "failed to reconcile RUNTIME_POLICY_MAP from persisted state"@
                &&& switched
                &&& base_done
                &&& reconciles(runtime, overrides, failed)
            }
        },
    }
}

/// Brings the kernel maps in line with the desired state: first the switches,
/// then the base policies, then the runtime overrides, each only after those
/// before it. On success it returns the revision that the maps are now in line
/// with.
pub fn reconcile_once<
    E: FnOnce() -> Result<bool, MapError>,
    V: FnOnce() -> Result<bool, MapError>,
    S: FnOnce(GlobalConfig) -> Result<(), MapError>,
    L: FnOnce() -> Result<Vec<TenantKey>, MapError>,
    G: Fn(TenantKey) -> Result<Option<Policy>, MapError>,
    U: FnOnce(&[(TenantKey, Policy)]) -> Result<(), MapError>,
    D: FnOnce(&[TenantKey]) -> Result<(), MapError>,
    M: FnOnce() -> Result<Vec<TenantKey>, MapError>,
    H: Fn(TenantKey) -> Result<Option<Policy>, MapError>,
    W: FnOnce(&[(TenantKey, Policy)]) -> Result<(), MapError>,
    X: FnOnce(&[TenantKey]) -> Result<(), MapError>,
>(
    store: &StateStore,
    switches: SwitchAccess<E, V, S>,
    base: PolicyMapAccess<L, G, U, D>,
    runtime: PolicyMapAccess<M, H, W, X>,
) -> (r: Result<u64, ReconcileError>)
    requires
        may_reconcile_switches(switches, store.desired()),
        switches_outcome(switches, store.desired(), Ok::<(), ReconcileError>(())) ==> may_reconcile(
            base,
            store.desired().base_policies,
        ),
        switches_outcome(switches, store.desired(), Ok::<(), ReconcileError>(())) && reconciles(
            base,
            store.desired().base_policies,
            Ok::<(), MapError>(()),
        ) ==> may_reconcile(runtime, override_policies(store.desired().runtime_overrides)),
    ensures
        once_outcome(store, switches, base, runtime, r),
{
    let (snapshot, revision) = store.snapshot_with_revision();
    match reconcile_switches(switches, &snapshot) {
        Ok(unit) => {
            assert(unit == ());
        },
        Err(error) => return Err(error),
    }
    let desired_runtime = runtime_policies(&snapshot.runtime_overrides);
    match reconcile_map(base, &snapshot.base_policies) {
        Ok(_) => {},
        Err(MapFailure::Listing(source)) => return Err(
            ReconcileError { context: "failed to collect base policy keys for reconcile", source },
        ),
        Err(MapFailure::Reconciling(source)) => return Err(
            ReconcileError {
                context: "failed to reconcile POLICY_MAP from persisted state",
                source,
            },
        ),
    }
    match reconcile_map(runtime, &desired_runtime) {
        Ok(_) => {},
        Err(MapFailure::Listing(source)) => return Err(
            ReconcileError {
                context: "failed to collect runtime policy keys for reconcile",
                source,
            },
        ),
        Err(MapFailure::Reconciling(source)) => return Err(
            ReconcileError {
                context: "failed to reconcile RUNTIME_POLICY_MAP from persisted state",
                source,
            },
        ),
    }
    Ok(revision)
}

/// A reconcile goes in order and stops at its first failure, which it names: nothing is
/// done to the base map unless the switches are as desired, and nothing to the runtime
/// map unless the base map is.
pub proof fn a_reconcile_stops_at_its_first_failure<
    E: FnOnce() -> Result<bool, MapError>,
    V: FnOnce() -> Result<bool, MapError>,
    S: FnOnce(GlobalConfig) -> Result<(), MapError>,
    L: FnOnce() -> Result<Vec<TenantKey>, MapError>,
    G: Fn(TenantKey) -> Result<Option<Policy>, MapError>,
    U: FnOnce(&[(TenantKey, Policy)]) -> Result<(), MapError>,
    D: FnOnce(&[TenantKey]) -> Result<(), MapError>,
    M: FnOnce() -> Result<Vec<TenantKey>, MapError>,
    H: Fn(TenantKey) -> Result<Option<Policy>, MapError>,
    W: FnOnce(&[(TenantKey, Policy)]) -> Result<(), MapError>,
    X: FnOnce(&[TenantKey]) -> Result<(), MapError>,
>(
    store: &StateStore,
    switches: SwitchAccess<E, V, S>,
    base: PolicyMapAccess<L, G, U, D>,
    runtime: PolicyMapAccess<M, H, W, X>,
    error: ReconcileError,
)
    requires
        once_outcome(store, switches, base, runtime, Err::<u64, ReconcileError>(error)),
    ensures
        ({
            let switched = switches_outcome(
                switches,
                store.desired(),
                Ok::<(), ReconcileError>(()),
            );
            let base_done = reconciles(
                base,
                store.desired().base_policies,
                Ok::<(), MapError>(()),
            );
            ||| switches_outcome(switches, store.desired(), Err::<(), ReconcileError>(error))
            ||| switched && call_ensures(
                base.list,
                (),
                Err::<Vec<TenantKey>, MapError>(error.source),
            ) && error.context@ == "failed to collect base policy keys for reconcile"@
            ||| switched && reconciles(
                base,
                store.desired().base_policies,
                Err::<(), MapError>(error.source),
            ) && error.context@ == "failed to reconcile POLICY_MAP from persisted state"@
            ||| switched && base_done && call_ensures(
                runtime.list,
                (),
                Err::<Vec<TenantKey>, MapError>(error.source),
            ) && error.context@ == "failed to collect runtime policy keys for reconcile"@
            ||| switched && base_done && error.context@
                == "failed to reconcile RUNTIME_POLICY_MAP from persisted state"@
                && exists|wanted: Map<TenantKey, Policy>| #[trigger]
                reconciles(runtime, wanted, Err::<(), MapError>(error.source)) && wanted.dom()
                    == store.desired().runtime_overrides.dom()
        }),
{
    let overrides = override_policies(store.desired().runtime_overrides);
    assert(overrides.dom() =~= store.desired().runtime_overrides.dom());
}

/// The switches that are stored are the desired ones, and overrides are written with
/// their policy, whoever owns them.
pub proof fn desired_switches_and_overrides(desired: DesiredState, key: TenantKey)
    ensures
        (desired_switches(desired).enabled != 0) == desired.global_enabled,
        (desired_switches(desired).flow_keys_live != 0) == desired.flow_keys_live,
        desired_switches(desired).enabled <= 1,
        desired_switches(desired).flow_keys_live <= 1,
        override_policies(desired.runtime_overrides).dom().contains(key)
            == desired.runtime_overrides.dom().contains(key),
        desired.runtime_overrides.dom().contains(key) ==> override_policies(
            desired.runtime_overrides,
        )[key] == desired.runtime_overrides[key].policy,
{
}

/// Whether a map that holds `current` is listed and read as it is.
pub open spec fn shows_map<
    L: FnOnce() -> Result<Vec<TenantKey>, MapError>,
    G: Fn(TenantKey) -> Result<Option<Policy>, MapError>,
    U,
    D,
>(access: PolicyMapAccess<L, G, U, D>, current: Map<TenantKey, Policy>) -> bool {
    &&& reads_map(access.get, current)
    &&& forall|keys: Vec<TenantKey>| #[trigger]
        call_ensures(access.list, (), Ok::<Vec<TenantKey>, MapError>(keys)) ==> keys@.to_set()
            == current.dom()
}

/// A reconcile that succeeds leaves everything as desired: the switches were so or
/// were stored, and both policy maps were turned into the desired ones, touching
/// only keys whose entries differed.
pub proof fn reconciled_maps_are_desired<
    E: FnOnce() -> Result<bool, MapError>,
    V: FnOnce() -> Result<bool, MapError>,
    S: FnOnce(GlobalConfig) -> Result<(), MapError>,
    L: FnOnce() -> Result<Vec<TenantKey>, MapError>,
    G: Fn(TenantKey) -> Result<Option<Policy>, MapError>,
    U: FnOnce(&[(TenantKey, Policy)]) -> Result<(), MapError>,
    D: FnOnce(&[TenantKey]) -> Result<(), MapError>,
    M: FnOnce() -> Result<Vec<TenantKey>, MapError>,
    H: Fn(TenantKey) -> Result<Option<Policy>, MapError>,
    W: FnOnce(&[(TenantKey, Policy)]) -> Result<(), MapError>,
    X: FnOnce(&[TenantKey]) -> Result<(), MapError>,
>(
    store: &StateStore,
    switches: SwitchAccess<E, V, S>,
    base: PolicyMapAccess<L, G, U, D>,
    runtime: PolicyMapAccess<M, H, W, X>,
    base_before: Map<TenantKey, Policy>,
    runtime_before: Map<TenantKey, Policy>,
    revision: u64,
)
    requires
        once_outcome(store, switches, base, runtime, Ok::<u64, ReconcileError>(revision)),
        shows_map(base, base_before),
        shows_map(runtime, runtime_before),
    ensures
        revision == store.changes(),
        switches_read(switches, store.desired().global_enabled, store.desired().flow_keys_live)
            || call_ensures(
            switches.seed,
            (desired_switches(store.desired()),),
            Ok::<(), MapError>(()),
        ),
        exists|plan: ReconcilePlan| #[trigger]
            turned_into(
                base_before,
                store.desired().base_policies,
                plan,
                base.upsert,
                base.delete,
            ),
        exists|plan: ReconcilePlan| #[trigger]
            turned_into(
                runtime_before,
                override_policies(store.desired().runtime_overrides),
                plan,
                runtime.upsert,
                runtime.delete,
            ),
{
    reconciled_map_is_desired(
        store.desired().base_policies,
        base_before,
        base.get,
        base.upsert,
        base.delete,
    );
    reconciled_map_is_desired(
        override_policies(store.desired().runtime_overrides),
        runtime_before,
        runtime.get,
        runtime.upsert,
        runtime.delete,
    );
}

/// Whether a tick has to reconcile: the desired state has changed, or a deep
/// check is due.
pub open spec fn tick_is_due(
    current_revision: u64,
    last_reconciled_revision: u64,
    tick_index: u64,
    deep_check_every: u64,
) -> bool {
    current_revision != last_reconciled_revision || deep_check_is_due(tick_index, deep_check_every)
}

/// Whether a deep check is due; a period of zero has one at tick zero alone.
pub open spec fn deep_check_is_due(tick_index: u64, deep_check_every: u64) -> bool {
    if deep_check_every == 0 {
        tick_index == 0
    } else {
        tick_index % deep_check_every == 0
    }
}

/// A tick reconciles where the state changed since the last time, and else exactly at the
/// multiples of the deep check period; without a period, at tick zero alone.
pub proof fn ticks_are_due_on_change_or_in_turn(
    current_revision: u64,
    last_reconciled_revision: u64,
    tick_index: u64,
    deep_check_every: u64,
)
    ensures
        current_revision != last_reconciled_revision ==> tick_is_due(
            current_revision,
            last_reconciled_revision,
            tick_index,
            deep_check_every,
        ),
        current_revision == last_reconciled_revision ==> tick_is_due(
            current_revision,
            last_reconciled_revision,
            tick_index,
            deep_check_every,
        ) == deep_check_is_due(tick_index, deep_check_every),
        deep_check_every > 0 ==> (deep_check_is_due(tick_index, deep_check_every) <==> exists|n: int|
            tick_index == #[trigger] (n * deep_check_every)),
        deep_check_every == 0 ==> (deep_check_is_due(tick_index, deep_check_every) <==> tick_index
            == 0),
{
    if deep_check_every > 0 {
        let period = deep_check_every as int;
        let tick = tick_index as int;
        vstd::arithmetic::div_mod::lemma_fundamental_div_mod(tick, period);
        if deep_check_is_due(tick_index, deep_check_every) {
            let n = tick / period;
            assert(tick == n * period) by (nonlinear_arith)
                requires
                    tick == period * n,
            ;
        }
        if exists|n: int| tick_index == #[trigger] (n * deep_check_every) {
            let n = choose|n: int| tick_index == #[trigger] (n * deep_check_every);
            vstd::arithmetic::div_mod::lemma_mod_multiples_basic(n, period);
        }
    }
}

/// Deep checks come round: of any `deep_check_every` ticks in a row one has a deep
/// check, changes or not.
pub proof fn deep_check_comes_round(first_tick: u64, deep_check_every: u64)
    requires
        deep_check_every > 0,
        first_tick + deep_check_every <= u64::MAX,
    ensures
        exists|tick: u64|
            first_tick <= tick < first_tick + deep_check_every && #[trigger] deep_check_is_due(
                tick,
                deep_check_every,
            ),
{
    let n = deep_check_every as int;
    let past = first_tick as int % n;
    let due: int = if past == 0 {
        first_tick as int
    } else {
        first_tick + n - past
    };
    vstd::arithmetic::div_mod::lemma_fundamental_div_mod(first_tick as int, n);
    let q = first_tick as int / n;
    if past != 0 {
        assert(due == n * (q + 1)) by (nonlinear_arith)
            requires
                first_tick as int == n * q + past,
                due == first_tick + n - past,
        ;
        vstd::arithmetic::div_mod::lemma_mod_multiples_basic(q + 1, n);
        assert((q + 1) * n == n * (q + 1)) by (nonlinear_arith);
    }
    assert(deep_check_is_due(due as u64, deep_check_every));
}

/// Whether a tick reconciles: where the state changed since, or a deep check is due.
pub fn should_reconcile_tick(
    current_revision: u64,
    last_reconciled_revision: u64,
    tick_index: u64,
    deep_check_every: u64,
) -> (r: bool)
    ensures
        r == tick_is_due(current_revision, last_reconciled_revision, tick_index, deep_check_every),
{
    if current_revision != last_reconciled_revision {
        return true;
    }
    if deep_check_every == 0 {
        return tick_index == 0;
    }
    tick_index % deep_check_every == 0
}

/// The schedule of the reconcile controller.
#[derive(Clone, Copy, Debug, PartialEq, Eq, Structural)]
pub struct ReconcileSchedule {
    pub tick_ms: u64,
    pub deep_check_every: u64,
    pub tick_index: u64,
    pub last_reconciled_revision: u64,
}

/// What the reconcile controller does next.
#[derive(Clone, Copy, Debug, PartialEq, Eq, Structural)]
pub enum TickAction {
    Wait,
    Reconcile { tick_index: u64, deep_check_due: bool },
}

impl ReconcileSchedule {
    /// A schedule for maps in line with a revision; both periods are held at their least values.
    pub fn new(
        initial_reconciled_revision: u64,
        reconcile_tick_ms: u64,
        reconcile_deep_check_every_n: u64,
    ) -> (schedule: Self)
        ensures
            schedule.tick_ms == (if reconcile_tick_ms < 100 {
                100
            } else {
                reconcile_tick_ms
            }),
            schedule.deep_check_every == (if reconcile_deep_check_every_n < 1 {
                1
            } else {
                reconcile_deep_check_every_n
            }),
            schedule.tick_index == 0,
            schedule.last_reconciled_revision == initial_reconciled_revision,
    {
        ReconcileSchedule {
            tick_ms: if reconcile_tick_ms < 100 {
                100
            } else {
                reconcile_tick_ms
            },
            deep_check_every: if reconcile_deep_check_every_n < 1 {
                1
            } else {
                reconcile_deep_check_every_n
            },
            tick_index: 0,
            last_reconciled_revision: initial_reconciled_revision,
        }
    }

    /// Counts a tick and decides whether to reconcile.
    pub fn on_tick(&mut self, current_revision: u64) -> (action: TickAction)
        ensures
            *final(self) == (ReconcileSchedule {
                tick_index: old(self).tick_index.saturating_add(1),
                ..*old(self)
            }),
            action == (if tick_is_due(
                current_revision,
                old(self).last_reconciled_revision,
                final(self).tick_index,
                old(self).deep_check_every,
            ) {
                TickAction::Reconcile {
                    tick_index: final(self).tick_index,
                    deep_check_due: deep_check_is_due(
                        final(self).tick_index,
                        old(self).deep_check_every,
                    ),
                }
            } else {
                TickAction::Wait
            }),
    {
        self.tick_index = self.tick_index.saturating_add(1);
        if !should_reconcile_tick(
            current_revision,
            self.last_reconciled_revision,
            self.tick_index,
            self.deep_check_every,
        ) {
            return TickAction::Wait;
        }
        let deep_check_due: bool = if self.deep_check_every == 0 {
            self.tick_index == 0
        } else {
            self.tick_index % self.deep_check_every == 0
        };
        TickAction::Reconcile { tick_index: self.tick_index, deep_check_due }
    }

    /// Takes in how a reconcile came out. A failure is counted, and the same change is
    /// due again at the next tick.
    pub fn on_reconciled(
        &mut self,
        outcome: &Result<u64, ReconcileError>,
        metrics: &mut MetricsState,
    )
        ensures
            *final(self) == (match outcome {
                Ok(revision) => ReconcileSchedule {
                    last_reconciled_revision: *revision,
                    ..*old(self)
                },
                Err(_) => *old(self),
            }),
            *final(metrics) == (match outcome {
                Ok(_) => *old(metrics),
                Err(_) => MetricsState {
                    reconcile_failures_total: old(metrics).reconcile_failures_total.wrapping_add(
                        1,
                    ),
                    ..*old(metrics)
                },
            }),
    {
        match outcome {
            Ok(revision) => {
                self.last_reconciled_revision = *revision;
            },
            Err(_) => {
                metrics.count_reconcile_failure();
            },
        }
    }
}

} // verus!
