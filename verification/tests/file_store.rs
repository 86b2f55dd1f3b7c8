use miles_control::api::{
    DatasetConfig, EvalConfig, FaultToleranceConfig, JobMode, JobRuntime, JobSpec, JobState,
    LoopPhase, ResourcePlan, RolloutConfig, RolloutCursor, SaveConfig, TrainBackend, TrainConfig,
};
use miles_control::clock::Timestamp;
use miles_control::file_store::{
    DirEntry, DirListing, FileStateStore, SnapshotFile, SnapshotRead, SnapshotWrite, WriteOutcome,
};
use miles_control::ids::JobId;
use miles_control::state_store::{StoreError, StoredJob};
use std::collections::BTreeMap;
use uuid::Uuid;

fn sample_spec() -> JobSpec {
    JobSpec {
        job_name: "job".to_string(),
        mode: JobMode::Sync,
        backend: TrainBackend::Fsdp,
        resource_plan: ResourcePlan {
            actor_num_nodes: 1,
            actor_num_gpus_per_node: 1,
            critic_num_nodes: None,
            critic_num_gpus_per_node: None,
            rollout_num_gpus: 1,
            rollout_num_gpus_per_engine: 1,
            num_gpus_per_node: 8,
            colocate: false,
        },
        dataset_config: DatasetConfig {
            prompt_data: "x".to_string(),
            input_key: "prompt".to_string(),
            label_key: "label".to_string(),
        },
        rollout_config: RolloutConfig {
            batch_size: 1,
            n_samples_per_prompt: 1,
            max_response_len: None,
        },
        train_config: TrainConfig {
            global_batch_size: 1,
            num_rollout: 1,
            update_weights_interval: 1,
        },
        eval_config: EvalConfig {
            eval_interval: None,
        },
        save_config: SaveConfig {
            save_interval: None,
            output_dir: None,
        },
        fault_tolerance_config: FaultToleranceConfig {
            enabled: false,
            max_retries: 0,
            retry_backoff_ms: 0,
        },
    }
}

fn random_id() -> JobId {
    Uuid::new_v4().as_u128()
}

fn runtime(job_id: JobId) -> JobRuntime {
    JobRuntime {
        job_id,
        state: JobState::Created,
        phase: LoopPhase::Init,
        cursor: RolloutCursor {
            current_rollout_id: 0,
            total_rollouts: 1,
        },
        fence_token: 0,
        updated_at: Timestamp { secs: 1, nanos: 2 },
    }
}

fn entry(name: &[u8]) -> DirEntry {
    DirEntry {
        name: name.to_vec(),
        path: format!("snapshots/{}", String::from_utf8_lossy(name)),
    }
}

fn file_of(write: &SnapshotWrite) -> SnapshotFile {
    SnapshotFile {
        entry: entry(write.file_name.as_bytes()),
        read: SnapshotRead::Parsed(write.job.clone()),
    }
}

fn other_file(name: &[u8]) -> SnapshotFile {
    SnapshotFile {
        entry: entry(name),
        read: SnapshotRead::Unreadable("not read".to_string()),
    }
}

fn new_store() -> FileStateStore {
    FileStateStore::new("snapshots".to_string(), &Vec::new(), None).expect("empty directory")
}

#[test]
fn file_state_store_persists_and_restores_job() {
    let mut store = new_store();
    let job_id = random_id();

    let mut job_runtime = runtime(job_id);
    job_runtime.state = JobState::Running;
    job_runtime.phase = LoopPhase::Train;
    job_runtime.fence_token = 11;

    let write = store
        .put_job(sample_spec(), job_runtime.clone())
        .expect("persisted put");
    WriteOutcome::Written.into_result().expect("written");

    let restored = FileStateStore::new("snapshots".to_string(), &vec![file_of(&write)], None)
        .expect("restore file state store");
    let loaded = restored.get_job(job_id).expect("job loaded");
    assert_eq!(loaded.runtime.state, JobState::Running);
    assert_eq!(loaded.runtime.phase, LoopPhase::Train);
    assert_eq!(loaded.runtime.fence_token, 11);
    assert_eq!(loaded, store.get_job(job_id).expect("job kept"));
}

#[test]
fn file_load_snapshot_missing_returns_not_found() {
    let mut store = new_store();
    let missing = random_id();

    let err = store
        .load_snapshot(missing, None)
        .expect_err("missing snapshot should fail");
    assert_eq!(err, StoreError::NotFound(missing));
}

#[test]
fn file_list_snapshots_returns_all_job_ids() {
    let mut store = new_store();
    let id1 = random_id();
    let id2 = random_id();

    let first = store
        .put_job(sample_spec(), runtime(id1))
        .expect("persist id1");
    let second = store
        .put_job(sample_spec(), runtime(id2))
        .expect("persist id2");
    let listing = DirListing {
        entries: vec![
            entry(first.file_name.as_bytes()),
            entry(second.file_name.as_bytes()),
        ],
        failure: None,
    };

    let ids = store.list_snapshots(&listing).expect("list snapshots");
    assert_eq!(ids.len(), 2);
    assert!(ids.contains(&id1));
    assert!(ids.contains(&id2));
    assert!(ids[0] <= ids[1]);
}

#[test]
fn file_load_snapshot_rejects_corrupted_json() {
    let mut store = new_store();
    let job_id = random_id();
    let cause = serde_json::from_str::<serde_json::Value>("{not-valid-json")
        .expect_err("invalid json")
        .to_string();

    let err = store
        .load_snapshot(job_id, Some(&SnapshotRead::Malformed(cause.clone())))
        .expect_err("corrupted snapshot should fail");
    assert!(matches!(err, StoreError::Serialization(_)));
    assert_eq!(err, StoreError::Serialization(cause));
}

#[test]
fn snapshots_are_named_after_their_jobs() {
    let mut store = new_store();
    let id = 0xffff_0000_1234_5678_9abc_def0_0f1e_2d3c_u128;
    assert_eq!(
        store.snapshot_path(id),
        "ffff0000-1234-5678-9abc-def00f1e2d3c.json"
    );
    let write = store.put_job(sample_spec(), runtime(id)).expect("put");
    assert_eq!(write.file_name, "ffff0000-1234-5678-9abc-def00f1e2d3c.json");
    assert_eq!(
        write.temporary_name,
        "ffff0000-1234-5678-9abc-def00f1e2d3c.tmp"
    );
    assert_eq!(
        write.job,
        StoredJob {
            spec: sample_spec(),
            runtime: runtime(id),
        }
    );
    assert_eq!(entry(write.file_name.as_bytes()).snapshot_id(), Ok(Some(id)));
    assert_eq!(entry(write.temporary_name.as_bytes()).snapshot_id(), Ok(None));
    assert_eq!(store.snapshot_dir(), "snapshots");
    assert_eq!(store.list_jobs(), vec![write.job]);
}

#[test]
fn every_form_of_an_id_is_read() {
    let id = 0x0123_4567_89ab_cdef_fedc_ba98_7654_3210_u128;
    for name in [
        "01234567-89ab-cdef-fedc-ba9876543210.json",
        "0123456789ABCDEFFEDCBA9876543210.json",
        "{01234567-89AB-cdef-FEDC-ba9876543210}.json",
        "URN:uuid:01234567-89ab-cdef-fedc-ba9876543210.json",
    ] {
        assert_eq!(entry(name.as_bytes()).snapshot_id(), Ok(Some(id)), "{name}");
    }
}

#[test]
fn files_without_the_extension_are_no_snapshots() {
    for name in [
        "",
        "json",
        ".json",
        "readme.md",
        "01234567-89ab-cdef-fedc-ba9876543210",
        "01234567-89ab-cdef-fedc-ba9876543210.JSON",
        "01234567-89ab-cdef-fedc-ba9876543210.json.bak",
        "01234567-89ab-cdef-fedc-ba9876543210.jsonl",
    ] {
        assert_eq!(entry(name.as_bytes()).snapshot_id(), Ok(None), "{name}");
    }
    assert_eq!(entry(b"x.\xff\xfe").snapshot_id(), Ok(None));
}

#[test]
fn names_that_are_no_ids_are_invalid() {
    for stem in [
        ".",
        "notes",
        "01234567-89ab-cdef-fedc-ba987654321",
        "01234567-89ab-cdef-fedc-ba987654321g",
        "01234567089ab-cdef-fedc-ba9876543210",
        "0123456-789ab-cdef-fedc-ba9876543210",
        "{0123456789abcdeffedcba9876543210}",
        "(01234567-89ab-cdef-fedc-ba9876543210)",
        "urn:guid:01234567-89ab-cdef-fedc-ba9876543210",
        "01234567-89ab-cdef-fedc-ba987654\u{e9}10",
    ] {
        let name = format!("{stem}.json");
        assert_eq!(
            entry(name.as_bytes()).snapshot_id(),
            Err(StoreError::InvalidSnapshotName(stem.to_string()))
        );
    }
    let unreadable = DirEntry {
        name: b"\xc3(.json".to_vec(),
        path: "snapshots/?(.json".to_string(),
    };
    assert_eq!(
        unreadable.snapshot_id(),
        Err(StoreError::InvalidSnapshotName("snapshots/?(.json".to_string()))
    );
}

#[test]
fn restore_skips_other_files_and_takes_all_snapshots() {
    let mut store = new_store();
    let mut files = vec![other_file(b"README"), other_file(b"left.tmp")];
    for id in [9, 3, 6] {
        let write = store.put_job(sample_spec(), runtime(id)).expect("put");
        files.push(file_of(&write));
        files.push(other_file(write.temporary_name.as_bytes()));
    }
    let mut restored = new_store();
    assert_eq!(restored.restore_all(&files, None), Ok(()));
    for id in [9, 3, 6] {
        assert_eq!(restored.get_job(id), store.get_job(id));
    }
    assert_eq!(restored.list_jobs().len(), 3);
}

#[test]
fn restore_is_all_or_nothing() {
    let mut source = new_store();
    let good = file_of(&source.put_job(sample_spec(), runtime(1)).expect("put"));
    let wrong = SnapshotFile {
        entry: entry(source.snapshot_path(2).as_bytes()),
        read: SnapshotRead::Parsed(source.get_job(1).expect("job")),
    };
    let cases = vec![
        (
            wrong,
            StoreError::Serialization(
                "snapshot id mismatch: filename 00000000-0000-0000-0000-000000000002, payload \
                 00000000-0000-0000-0000-000000000001"
                    .to_string(),
            ),
        ),
        (
            SnapshotFile {
                entry: entry(source.snapshot_path(3).as_bytes()),
                read: SnapshotRead::Unreadable("denied".to_string()),
            },
            StoreError::Io("denied".to_string()),
        ),
        (
            SnapshotFile {
                entry: entry(source.snapshot_path(4).as_bytes()),
                read: SnapshotRead::Malformed("no json".to_string()),
            },
            StoreError::Serialization("no json".to_string()),
        ),
        (
            other_file(b"latest.json"),
            StoreError::InvalidSnapshotName("latest".to_string()),
        ),
        (
            SnapshotFile {
                entry: entry(source.snapshot_path(5).as_bytes()),
                read: SnapshotRead::Unreadable("No such file or directory".to_string()),
            },
            StoreError::Io("No such file or directory".to_string()),
        ),
    ];
    for (bad, error) in cases {
        let files = vec![
            SnapshotFile {
                entry: entry(&good.entry.name),
                read: SnapshotRead::Parsed(source.get_job(1).expect("job")),
            },
            bad,
        ];
        let mut store = new_store();
        let cut = Some("cut short".to_string());
        assert_eq!(store.restore_all(&files, cut.clone()).as_ref(), Err(&error));
        assert_eq!(store.list_jobs(), Vec::new());
        let opened = FileStateStore::new("snapshots".to_string(), &files, cut);
        assert_eq!(opened.expect_err("cannot be restored"), error);
    }
    let opened = FileStateStore::new(
        "snapshots".to_string(),
        &vec![good],
        Some("cut short".to_string()),
    );
    assert_eq!(
        opened.expect_err("directory was not read"),
        StoreError::Io("cut short".to_string())
    );
}

#[test]
fn listing_reports_the_first_fault() {
    let store = new_store();
    let listing = |names: &[&str], failure: Option<&str>| DirListing {
        entries: names.iter().map(|name| entry(name.as_bytes())).collect(),
        failure: failure.map(|cause| cause.to_string()),
    };
    let two = "00000000-0000-0000-0000-000000000002.json";
    let one = "00000000000000000000000000000001.json";
    let one_again = "00000000-0000-0000-0000-000000000001.json";
    assert_eq!(
        store.list_snapshots(&listing(&[two, "x.tmp", one, one_again], None)),
        Ok(vec![1, 1, 2])
    );
    assert_eq!(
        store.list_snapshots(&listing(&[two, "b.json", "a.json"], Some("gone"))),
        Err(StoreError::InvalidSnapshotName("b".to_string()))
    );
    assert_eq!(
        store.list_snapshots(&listing(&[two], Some("gone"))),
        Err(StoreError::Io("gone".to_string()))
    );
}

#[test]
fn loading_a_snapshot_puts_its_job_in() {
    let mut source = new_store();
    source.put_job(sample_spec(), runtime(8)).expect("put");
    let job = source.get_job(8).expect("job");

    let mut store = new_store();
    assert_eq!(
        store.load_snapshot(8, Some(&SnapshotRead::Parsed(job.clone()))),
        Ok(job.clone())
    );
    assert_eq!(store.get_job(8), Ok(job.clone()));
    assert_eq!(
        store.load_snapshot(9, Some(&SnapshotRead::Parsed(job))),
        Err(StoreError::Serialization(
            "snapshot id mismatch: requested 00000000-0000-0000-0000-000000000009, payload \
             00000000-0000-0000-0000-000000000008"
                .to_string()
        ))
    );
    assert_eq!(store.get_job(9), Err(StoreError::NotFound(9)));
    assert_eq!(
        store.load_snapshot(9, Some(&SnapshotRead::Unreadable("denied".to_string()))),
        Err(StoreError::Io("denied".to_string()))
    );
}

#[test]
fn updates_are_persisted() {
    let mut store = new_store();
    assert_eq!(
        store.update_runtime(runtime(1)),
        Err(StoreError::NotFound(1))
    );
    assert_eq!(store.snapshot_job(1), Err(StoreError::NotFound(1)));
    store.put_job(sample_spec(), runtime(1)).expect("put");
    let mut moved = runtime(1);
    moved.phase = LoopPhase::Save;
    let instant = Timestamp { secs: 30, nanos: 31 };
    let write = store.update_runtime_at(moved, instant).expect("update");
    moved.updated_at = instant;
    assert_eq!(write.job.runtime, moved);
    assert_eq!(store.snapshot_job(1), Ok(write));
    let refreshed = store.update_runtime(moved).expect("update");
    assert!(refreshed.job.runtime.updated_at > instant);
    assert_eq!(store.persist_job(1), Ok(refreshed));
}

#[test]
fn any_run_of_a_store_survives_a_restart() {
    let mut directory: BTreeMap<String, StoredJob> = BTreeMap::new();
    let mut store = new_store();
    for step in 0..40_u128 {
        let id = (step * 7) % 5;
        let write = if store.get_job(id).is_ok() && step % 3 != 0 {
            let mut moved = runtime(id);
            moved.fence_token = step as u64;
            moved.phase = LoopPhase::Train;
            store.update_runtime(moved)
        } else {
            let mut fresh = runtime(id);
            fresh.cursor.current_rollout_id = step as u32;
            store.put_job(sample_spec(), fresh)
        }
        .expect("persisted");
        directory.insert(write.file_name, write.job);

        let mut files = vec![other_file(b"x.tmp")];
        for (name, job) in directory.iter().rev() {
            files.push(SnapshotFile {
                entry: entry(name.as_bytes()),
                read: SnapshotRead::Parsed(job.clone()),
            });
        }
        let again =
            FileStateStore::new("snapshots".to_string(), &files, None).expect("restored");
        for id in 0..6 {
            assert_eq!(again.get_job(id), store.get_job(id));
        }
        assert_eq!(again.snapshot_dir(), store.snapshot_dir());
    }
}

#[test]
fn failed_writes_are_reported() {
    assert_eq!(WriteOutcome::Written.into_result(), Ok(()));
    assert_eq!(
        WriteOutcome::NotEncoded("loop".to_string()).into_result(),
        Err(StoreError::Serialization("loop".to_string()))
    );
    assert_eq!(
        WriteOutcome::NotWritten("full".to_string()).into_result(),
        Err(StoreError::Io("full".to_string()))
    );
}
