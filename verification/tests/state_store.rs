//! The desired state over a file kept in memory.

use std::cell::RefCell;
use std::collections::BTreeSet;

use vantage::common::{Policy, TenantKey};
use vantage::state_store::{
    base_policies_from_entries, frame_state, persist_state_file, read_state_file,
    runtime_overrides_from_entries, tmp_extension, AdaptiveUpsertOutcome, PersistStep,
    PersistedStateV1, RuntimeDeleteMode, RuntimeOverrideRecord, RuntimeOwner, StateFileOps,
    StateStore, StateStoreDefaults, StateStoreError,
};

fn test_policy(rate: u64, burst: u64, enabled: bool) -> Policy {
    Policy {
        rate_tokens_per_sec: rate,
        burst_tokens: burst,
        enabled: u8::from(enabled),
        _pad: [0; 7],
    }
}

fn tenant(cgroup_id: u64) -> TenantKey {
    TenantKey {
        cgroup_id,
        http_path_hash: 0,
        dst_port: 0,
        proto: 0,
        http_method: 0,
    }
}

/// A state file kept in memory.
struct File(RefCell<Option<PersistedStateV1>>);

impl File {
    fn missing() -> Self {
        File(RefCell::new(None))
    }

    fn read(&self) -> Result<Option<PersistedStateV1>, StateStoreError> {
        Ok(self.0.borrow().clone())
    }

    fn write(&self, state: &PersistedStateV1) -> Result<(), StateStoreError> {
        *self.0.borrow_mut() = Some(state.clone());
        Ok(())
    }
}

fn open(file: &File) -> StateStore {
    let defaults = StateStoreDefaults::default();
    let store = StateStore::load_or_init(
        || file.read(),
        &|state: &PersistedStateV1| file.write(state),
        &defaults,
    );
    let Ok(store) = store else {
        panic!("store should initialize");
    };
    store
}

fn disk_full() -> StateStoreError {
    StateStoreError::WriteFile {
        path: "state.json".to_owned(),
        source: "disk full".to_owned(),
    }
}

#[test]
fn initializes_missing_file_with_defaults() {
    let file = File::missing();
    let mut essential = BTreeSet::new();
    let inserted = essential.insert(42);
    assert!(inserted, "fixture insert should change set");
    let defaults = StateStoreDefaults {
        global_enabled: true,
        flow_keys_live: false,
        essential_tenants: essential,
    };

    let store = StateStore::load_or_init(
        || file.read(),
        &|state: &PersistedStateV1| file.write(state),
        &defaults,
    );
    let Ok(store) = store else {
        panic!("store should initialize from defaults");
    };
    let snapshot = store.snapshot();
    assert_eq!(snapshot.version, 1);
    assert!(snapshot.global_enabled);
    assert!(!snapshot.flow_keys_live);
    assert!(snapshot.essential_tenants.contains(&42));
    assert_eq!(snapshot.base_policies.len(), 0);
    assert_eq!(snapshot.runtime_overrides.len(), 0);
    let Some(written) = file.0.borrow().clone() else {
        panic!("defaults should be persisted");
    };
    assert!(written.global_enabled);
    assert!(written.essential_tenants.contains(&42));
}

#[test]
fn rejects_unsupported_version() {
    let data = br#"{"version":2,"global_enabled":true,"flow_keys_live":true,"essential_tenants":[],"base_policies":[],"runtime_overrides":[]}"#;
    let defaults = StateStoreDefaults::default();
    let loaded = StateStore::load_or_init(
        || {
            read_state_file(
                "state.json",
                Ok(Some(data.to_vec())),
                version_of,
                |_: &[u8]| panic!("nothing is parsed of another version"),
            )
        },
        &|_: &PersistedStateV1| Ok(()),
        &defaults,
    );
    let Err(error) = loaded else {
        panic!("unsupported version should fail");
    };
    assert!(
        matches!(
            error,
            StateStoreError::UnsupportedVersion { version: 2, .. }
        ),
        "error should report unsupported version: {}",
        error.message()
    );
    assert_eq!(
        error.message(),
        "state file 'state.json' has unsupported version 2"
    );
}

fn version_of(data: &[u8]) -> Result<u16, String> {
    let value: serde_json::Value =
        serde_json::from_slice(data).map_err(|error| error.to_string())?;
    value["version"]
        .as_u64()
        .and_then(|version| u16::try_from(version).ok())
        .ok_or_else(|| "missing field `version`".to_owned())
}

#[test]
fn a_state_file_is_read_by_its_version() {
    let parse = |_: &[u8]| Ok(PersistedStateV1::with_defaults(&StateStoreDefaults::default()));
    let read = |data: Result<Option<Vec<u8>>, String>| {
        read_state_file("state.json", data, version_of, parse)
    };
    assert!(matches!(read(Ok(None)), Ok(None)));
    let Err(error) = read(Err("permission denied".to_owned())) else {
        panic!("an unreadable file is an error");
    };
    assert_eq!(
        error.message(),
        "failed to read state file 'state.json': permission denied"
    );
    let Err(error) = read(Ok(Some(b"{}".to_vec()))) else {
        panic!("a file without a version is an error");
    };
    assert_eq!(
        error.message(),
        "failed to parse state file 'state.json': missing field `version`"
    );
    let Ok(Some(state)) = read(Ok(Some(br#"{"version":1}"#.to_vec()))) else {
        panic!("a file of this version is parsed");
    };
    assert_eq!(state.version, 1);
    let broken = read_state_file(
        "state.json",
        Ok(Some(br#"{"version":1}"#.to_vec())),
        version_of,
        |_: &[u8]| Err("missing field `global_enabled`".to_owned()),
    );
    assert!(matches!(broken, Err(StateStoreError::Parse { .. })));
}

#[test]
fn mutation_persists_and_is_visible_after_reload() {
    let file = File::missing();
    let persist = |state: &PersistedStateV1| file.write(state);
    let mut store = open(&file);
    let set_enabled = store.set_global_enabled(true, &persist);
    assert!(set_enabled.is_ok(), "global enabled update should persist");
    let upsert_base = store.upsert_base_policy(tenant(7), test_policy(10, 20, true), &persist);
    assert!(upsert_base.is_ok(), "base policy upsert should persist");
    let upsert_runtime =
        store.upsert_manual_runtime_override(tenant(11), test_policy(1, 2, true), &persist);
    assert!(
        upsert_runtime.is_ok(),
        "runtime override upsert should persist"
    );

    let reloaded = open(&file);
    let snapshot = reloaded.snapshot();
    assert!(snapshot.global_enabled);
    assert_eq!(
        snapshot.base_policies.get(&tenant(7)),
        Some(test_policy(10, 20, true))
    );
    assert_eq!(
        snapshot
            .runtime_overrides
            .get(&tenant(11))
            .map(|record| record.owner),
        Some(RuntimeOwner::Manual)
    );
    assert_eq!(reloaded.revision(), 0);
}

#[test]
fn adaptive_upsert_does_not_override_manual_owner() {
    let file = File::missing();
    let persist = |state: &PersistedStateV1| file.write(state);
    let mut store = open(&file);

    let manual =
        store.upsert_manual_runtime_override(tenant(9), test_policy(200, 300, true), &persist);
    assert!(manual.is_ok(), "manual override insert should persist");

    let adaptive =
        store.upsert_adaptive_runtime_override(tenant(9), test_policy(1, 1, true), &persist);
    let Ok(adaptive) = adaptive else {
        panic!("adaptive upsert should complete");
    };
    assert_eq!(
        adaptive,
        AdaptiveUpsertOutcome::SkippedManualOwner,
        "adaptive override must not replace manual owner"
    );

    let snapshot = store.snapshot();
    assert_eq!(
        snapshot
            .runtime_overrides
            .get(&tenant(9))
            .map(|record| record.owner),
        Some(RuntimeOwner::Manual)
    );
    assert_eq!(
        snapshot
            .runtime_overrides
            .get(&tenant(9))
            .map(|record| record.policy),
        Some(test_policy(200, 300, true))
    );
}

#[test]
fn exposes_full_mutation_surface() {
    let file = File::missing();
    let persist = |state: &PersistedStateV1| file.write(state);
    let mut store = open(&file);

    let flow_set = store.set_flow_keys_live(true, &persist);
    assert!(flow_set.is_ok(), "flow-key mode should persist");

    let essential_added = store.set_essential_tenant(99, true, &persist);
    let Ok(essential_added) = essential_added else {
        panic!("essential set should succeed");
    };
    assert!(essential_added, "essential insert should report change");

    let base_insert = store.upsert_base_policy(tenant(99), test_policy(9, 9, true), &persist);
    assert!(base_insert.is_ok(), "base policy upsert should succeed");
    let base_deleted = store.delete_base_policy(tenant(99), &persist);
    let Ok(base_deleted) = base_deleted else {
        panic!("base policy delete should succeed");
    };
    assert!(
        base_deleted.is_some(),
        "base policy delete should return removed entry"
    );

    let runtime_insert =
        store.upsert_manual_runtime_override(tenant(99), test_policy(3, 3, true), &persist);
    assert!(
        runtime_insert.is_ok(),
        "runtime override upsert should succeed"
    );
    let owner_deleted =
        store.delete_runtime_override_if_owner(tenant(99), RuntimeOwner::Adaptive, &persist);
    let Ok(owner_deleted) = owner_deleted else {
        panic!("owner-specific delete should succeed");
    };
    assert!(
        !owner_deleted,
        "owner-specific delete should not remove manual-owned entries"
    );

    let runtime_insert_manual =
        store.upsert_manual_runtime_override(tenant(99), test_policy(4, 4, true), &persist);
    assert!(
        runtime_insert_manual.is_ok(),
        "manual runtime override upsert should succeed"
    );
    let runtime_deleted = store.delete_runtime_override_with_mode(
        tenant(99),
        RuntimeDeleteMode::AnyOwner,
        &persist,
    );
    let Ok(runtime_deleted) = runtime_deleted else {
        panic!("runtime delete should succeed");
    };
    assert!(
        runtime_deleted.is_some(),
        "runtime delete should report change"
    );
}

#[test]
fn manual_delete_mode_requires_manual_owner_unless_forced() {
    let file = File::missing();
    let persist = |state: &PersistedStateV1| file.write(state);
    let mut store = open(&file);

    let inserted =
        store.upsert_adaptive_runtime_override(tenant(123), test_policy(5, 5, true), &persist);
    let Ok(inserted) = inserted else {
        panic!("adaptive runtime override upsert should succeed");
    };
    assert_eq!(inserted, AdaptiveUpsertOutcome::Applied);

    let manual_only = store.delete_runtime_override_with_mode(
        tenant(123),
        RuntimeDeleteMode::ManualOnly,
        &persist,
    );
    let Ok(manual_only) = manual_only else {
        panic!("manual-only delete should succeed");
    };
    assert!(
        manual_only.is_none(),
        "manual-only delete must not remove adaptive-owned entries"
    );

    let forced = store.delete_runtime_override_with_mode(
        tenant(123),
        RuntimeDeleteMode::AnyOwner,
        &persist,
    );
    let Ok(forced) = forced else {
        panic!("forced delete should succeed");
    };
    assert!(
        forced.is_some(),
        "forced delete should remove the entry regardless of owner"
    );
}

#[test]
fn revision_advances_on_successful_mutations() {
    let file = File::missing();
    let persist = |state: &PersistedStateV1| file.write(state);
    let mut store = open(&file);

    assert_eq!(store.revision(), 0, "initial revision should start at zero");

    let set_enabled = store.set_global_enabled(true, &persist);
    assert!(set_enabled.is_ok(), "global enabled update should persist");
    assert_eq!(
        store.revision(),
        1,
        "revision should advance after mutation"
    );

    let set_flow = store.set_flow_keys_live(true, &persist);
    assert!(set_flow.is_ok(), "flow-keys update should persist");
    let (snapshot, snapshot_revision) = store.snapshot_with_revision();
    assert!(
        snapshot.flow_keys_live,
        "snapshot should include latest value"
    );
    assert_eq!(
        snapshot_revision, 2,
        "snapshot revision should match mutation count"
    );
}

#[test]
fn a_change_that_cannot_be_persisted_changes_nothing() {
    let file = File::missing();
    let mut store = open(&file);
    let refuse = |_: &PersistedStateV1| Err(disk_full());
    assert!(store.set_global_enabled(true, &refuse).is_err());
    assert!(store.set_essential_tenant(4, true, &refuse).is_err());
    let refused = store.upsert_base_policy(tenant(1), test_policy(1, 1, true), &refuse);
    let Err(error) = refused else {
        panic!("persistence fails");
    };
    assert_eq!(
        error.message(),
        "failed to write state file 'state.json': disk full"
    );
    let (snapshot, revision) = store.snapshot_with_revision();
    assert!(!snapshot.global_enabled);
    assert_eq!(snapshot.essential_tenants.len(), 0);
    assert_eq!(snapshot.base_policies.len(), 0);
    assert_eq!(revision, 0);
    assert_eq!(
        StateStoreError::LockPoisoned.message(),
        "failed to lock persisted state"
    );
}

#[test]
fn a_change_without_effect_is_persisted_too() {
    let file = File::missing();
    let persist = |state: &PersistedStateV1| file.write(state);
    let mut store = open(&file);
    assert!(matches!(store.set_essential_tenant(5, false, &persist), Ok(false)));
    assert!(matches!(store.delete_base_policy(tenant(5), &persist), Ok(None)));
    assert!(matches!(
        store.delete_runtime_override_if_owner(tenant(5), RuntimeOwner::Manual, &persist),
        Ok(false)
    ));
    assert_eq!(store.revision(), 3);
}

#[test]
fn listed_entries_read_back() {
    let listed = [
        (tenant(3), test_policy(3, 3, true)),
        (tenant(1), test_policy(1, 1, false)),
    ];
    let Ok(table) = base_policies_from_entries(&listed) else {
        panic!("keys are distinct");
    };
    assert_eq!(table.get(&tenant(1)), Some(test_policy(1, 1, false)));
    let Ok(again) = base_policies_from_entries(table.rows()) else {
        panic!("a table lists no key twice");
    };
    assert_eq!(again.rows(), table.rows());
    assert_eq!(again.rows().len(), 2);

    let twice = [listed[0], listed[0]];
    assert_eq!(
        base_policies_from_entries(&twice).err(),
        Some("duplicate base policy tenant key")
    );
    let record = RuntimeOverrideRecord {
        policy: test_policy(1, 1, true),
        owner: RuntimeOwner::Adaptive,
    };
    assert_eq!(
        runtime_overrides_from_entries(&[(tenant(2), record), (tenant(2), record)]).err(),
        Some("duplicate runtime override tenant key")
    );
    assert!(runtime_overrides_from_entries(&[(tenant(2), record)]).is_ok());
}

/// A disk on which one step may fail, with a log of the steps performed.
struct Disk {
    fails: Option<PersistStep>,
    seen: RefCell<Vec<PersistStep>>,
    file: RefCell<Option<Vec<u8>>>,
    temp: RefCell<Option<Vec<u8>>>,
}

impl Disk {
    fn new(fails: Option<PersistStep>) -> Self {
        Disk {
            fails,
            seen: RefCell::new(Vec::new()),
            file: RefCell::new(Some(b"old".to_vec())),
            temp: RefCell::new(Some(b"stale".to_vec())),
        }
    }

    fn perform(&self, step: PersistStep) -> Result<(), String> {
        self.seen.borrow_mut().push(step);
        if self.fails == Some(step) {
            return Err("broken".to_owned());
        }
        Ok(())
    }

    fn replace(
        &self,
        path: &str,
        parent: &str,
        tmp: &str,
        state: &PersistedStateV1,
    ) -> Result<(), StateStoreError> {
        persist_state_file(
            path,
            parent,
            tmp,
            state,
            StateFileOps {
                create_parent: || self.perform(PersistStep::CreateParent),
                remove_stale_temp: || {
                    self.perform(PersistStep::RemoveStaleTemp)?;
                    self.temp.replace(None);
                    Ok(())
                },
                encode: |state: &PersistedStateV1| {
                    self.perform(PersistStep::Encode)?;
                    Ok(format!("{{\"version\":{}}}", state.version).into_bytes())
                },
                create_temp: || {
                    self.perform(PersistStep::CreateTemp)?;
                    self.temp.replace(Some(Vec::new()));
                    Ok(17_u8)
                },
                write_temp: |handle: u8, bytes: &[u8]| {
                    assert_eq!(handle, 17);
                    self.temp.replace(Some(bytes[..1].to_vec()));
                    self.perform(PersistStep::WriteTemp)?;
                    self.temp.replace(Some(bytes.to_vec()));
                    Ok(())
                },
                rename: || {
                    self.perform(PersistStep::Rename)?;
                    self.file.replace(self.temp.take());
                    Ok(())
                },
                sync_parent: || self.perform(PersistStep::SyncParent),
            },
        )
    }
}

fn first_state() -> PersistedStateV1 {
    PersistedStateV1::with_defaults(&StateStoreDefaults::default())
}

#[test]
fn the_state_file_is_replaced_step_by_step() {
    let disk = Disk::new(None);
    let done = disk.replace("dir/state.json", "dir", "dir/state.json.tmp", &first_state());
    assert!(done.is_ok());
    assert_eq!(
        *disk.seen.borrow(),
        vec![
            PersistStep::CreateParent,
            PersistStep::RemoveStaleTemp,
            PersistStep::Encode,
            PersistStep::CreateTemp,
            PersistStep::WriteTemp,
            PersistStep::Rename,
            PersistStep::SyncParent,
        ]
    );
    let disk = Disk::new(None);
    let done = disk.replace("state.json", "", "state.json.tmp", &first_state());
    assert!(done.is_ok());
    assert_eq!(
        *disk.seen.borrow(),
        vec![
            PersistStep::RemoveStaleTemp,
            PersistStep::Encode,
            PersistStep::CreateTemp,
            PersistStep::WriteTemp,
            PersistStep::Rename,
        ]
    );
}

#[test]
fn a_state_file_is_whole_whatever_fails() {
    let whole = b"{\"version\":1}\n".to_vec();
    for step in [
        PersistStep::CreateParent,
        PersistStep::RemoveStaleTemp,
        PersistStep::Encode,
        PersistStep::CreateTemp,
        PersistStep::WriteTemp,
        PersistStep::Rename,
    ] {
        let disk = Disk::new(Some(step));
        assert!(disk.replace("d/s", "d", "d/s.tmp", &first_state()).is_err());
        assert_eq!(*disk.file.borrow(), Some(b"old".to_vec()));
    }
    let disk = Disk::new(Some(PersistStep::SyncParent));
    assert!(disk.replace("d/s", "d", "d/s.tmp", &first_state()).is_err());
    assert_eq!(*disk.file.borrow(), Some(whole.clone()));
    let disk = Disk::new(None);
    assert!(disk.replace("d/s", "d", "d/s.tmp", &first_state()).is_ok());
    assert_eq!(*disk.file.borrow(), Some(whole));
    assert_eq!(*disk.temp.borrow(), None);
    let read = read_state_file("d/s", Ok(disk.file.borrow().clone()), version_of, |_: &[u8]| {
        Ok(first_state())
    });
    let Ok(Some(state)) = read else {
        panic!("what was persisted is read back");
    };
    assert_eq!(state.version, 1);
}

#[test]
fn a_failed_step_ends_the_replacement() {
    let fails_at = |bad: PersistStep| {
        let disk = Disk::new(Some(bad));
        let Err(error) = disk.replace("d/s", "d", "d/s.tmp", &first_state()) else {
            panic!("the step fails");
        };
        let last = disk.seen.borrow().last().copied();
        assert_eq!(last, Some(bad));
        error.message()
    };
    assert_eq!(
        fails_at(PersistStep::CreateParent),
        "failed to write state file 'd': broken"
    );
    assert_eq!(
        fails_at(PersistStep::RemoveStaleTemp),
        "failed to write state file 'd/s.tmp': broken"
    );
    assert_eq!(
        fails_at(PersistStep::Encode),
        "failed to parse state file 'd/s': broken"
    );
    assert_eq!(
        fails_at(PersistStep::WriteTemp),
        "failed to write state file 'd/s.tmp': broken"
    );
    assert_eq!(
        fails_at(PersistStep::Rename),
        "failed to write state file 'd/s': broken"
    );
    assert_eq!(
        fails_at(PersistStep::SyncParent),
        "failed to write state file 'd': broken"
    );
}

#[test]
fn a_state_file_ends_in_a_line_feed() {
    assert_eq!(frame_state(b"{}".to_vec()), b"{}\n".to_vec());
    assert_eq!(tmp_extension(Some("json")), "json.tmp");
    assert_eq!(tmp_extension(Some("")), "tmp");
    assert_eq!(tmp_extension(None), "tmp");
}
