use job_broker::broker::{fetch_job, poll_next, reattempt, submit, PollOutcome, RetrievalConfig};
use job_broker::error::ErrorKind;
use job_broker::payload::{put_field, FieldValue, InputValue, JobRequest, JsonField};
use job_broker::staging::StagingStore;
use job_broker::store::{DeleteOutcome, QueueStore, Settings, UpsertOutcome};

fn obj(fields: Vec<(&str, i64)>) -> InputValue {
    let mut out = Vec::new();
    for (k, v) in fields {
        out.push(JsonField { key: k.to_string(), value: FieldValue::Int(v) });
    }
    InputValue::Object(out)
}

fn settings(fields: Vec<(&str, i64)>) -> Settings {
    Settings { data: obj(fields) }
}

fn field_pairs(input: &InputValue) -> Vec<(String, i64)> {
    match input {
        InputValue::Object(fields) => fields
            .iter()
            .map(|f| match f.value {
                FieldValue::Int(n) => (f.key.clone(), n),
                _ => panic!("expected an integer field"),
            })
            .collect(),
        InputValue::Other(_) => panic!("expected an object"),
    }
}

#[test]
fn upsert_created_then_updated() {
    let mut qs = QueueStore::new();
    let name = "q".to_string();
    let r1 = qs.create_or_update_queue(&name, &settings(vec![("retries", 3)]));
    assert!(matches!(r1, Ok(UpsertOutcome::Created)));
    let r2 = qs.create_or_update_queue(&name, &settings(vec![("retries", 5)]));
    assert!(matches!(r2, Ok(UpsertOutcome::Updated)));
    let current = qs.queue_settings(&name).unwrap();
    assert_eq!(field_pairs(&current.data), vec![("retries".to_string(), 5)]);
}

#[test]
fn invalid_settings_rejected_and_unapplied() {
    let mut qs = QueueStore::new();
    let name = "q".to_string();
    qs.create_or_update_queue(&name, &settings(vec![("retries", 3)])).unwrap();
    let bad = Settings { data: InputValue::Other("42".to_string()) };
    let r = qs.create_or_update_queue(&name, &bad);
    assert_eq!(r, Err(ErrorKind::BadRequest));
    let current = qs.queue_settings(&name).unwrap();
    assert_eq!(field_pairs(&current.data), vec![("retries".to_string(), 3)]);
}

#[test]
fn invalid_settings_do_not_create() {
    let mut qs = QueueStore::new();
    let name = "q".to_string();
    let bad = Settings { data: InputValue::Other("null".to_string()) };
    assert_eq!(qs.create_or_update_queue(&name, &bad), Err(ErrorKind::BadRequest));
    assert_eq!(qs.queue_size(&name), Err(ErrorKind::NoSuchQueue));
}

#[test]
fn queue_size_on_missing_queue() {
    let qs = QueueStore::new();
    assert_eq!(qs.queue_size(&"missing".to_string()), Err(ErrorKind::NoSuchQueue));
}

#[test]
fn create_job_on_missing_queue() {
    let mut qs = QueueStore::new();
    let req = JobRequest { input: Some(obj(vec![("x", 1)])) };
    assert_eq!(qs.create_job(&"missing".to_string(), &req), Err(ErrorKind::NoSuchQueue));
}

#[test]
fn submit_on_missing_queue_stages_then_surfaces_error() {
    let mut qs = QueueStore::new();
    let mut ss = StagingStore::new();
    let name = "missing".to_string();
    let req = JobRequest { input: Some(obj(vec![("x", 1)])) };
    assert_eq!(submit(&mut qs, &mut ss, &name, &req), Err(ErrorKind::NoSuchQueue));
    let staged = ss.get_job(&name, 1).unwrap();
    assert_eq!(field_pairs(staged.input.as_ref().unwrap()), vec![("x".to_string(), 1)]);
}

#[test]
fn delete_queue_outcomes() {
    let mut qs = QueueStore::new();
    let name = "q".to_string();
    assert_eq!(qs.delete_queue(&name), Ok(DeleteOutcome::NotFound));
    qs.create_or_update_queue(&name, &settings(vec![])).unwrap();
    assert_eq!(qs.delete_queue(&name), Ok(DeleteOutcome::Deleted));
    assert_eq!(qs.queue_size(&name), Err(ErrorKind::NoSuchQueue));
}

#[test]
fn submit_success_cleans_staged_record() {
    let mut qs = QueueStore::new();
    let mut ss = StagingStore::new();
    let name = "jobs".to_string();
    qs.create_or_update_queue(&name, &settings(vec![])).unwrap();
    let req = JobRequest { input: Some(obj(vec![("x", 1)])) };
    assert_eq!(submit(&mut qs, &mut ss, &name, &req), Ok(1));
    assert_eq!(ss.get_job(&name, 1).map(|_| ()), Err(ErrorKind::Staging));
}

#[test]
fn submit_tolerates_cleanup_failure() {
    let mut qs = QueueStore::new();
    let mut ss = StagingStore::new();
    let name = "jobs".to_string();
    qs.create_or_update_queue(&name, &settings(vec![])).unwrap();
    ss.fail_deletes = 1;
    let req = JobRequest { input: Some(obj(vec![("x", 1)])) };
    assert_eq!(submit(&mut qs, &mut ss, &name, &req), Ok(1));
    let orphan = ss.get_job(&name, 1).unwrap();
    assert_eq!(field_pairs(orphan.input.as_ref().unwrap()), vec![("x".to_string(), 1)]);
}

#[test]
fn failed_commit_retains_record_and_reattempt_commits_it() {
    let mut qs = QueueStore::new();
    let mut ss = StagingStore::new();
    let name = "jobs".to_string();
    qs.create_or_update_queue(&name, &settings(vec![])).unwrap();
    qs.fail_commits = 1;
    let req = JobRequest { input: Some(obj(vec![("a", 1)])) };
    assert_eq!(submit(&mut qs, &mut ss, &name, &req), Err(ErrorKind::Internal));
    assert_eq!(qs.queue_size(&name), Ok(0));
    let staged = ss.get_job(&name, 1).unwrap();
    assert_eq!(field_pairs(staged.input.as_ref().unwrap()), vec![("a".to_string(), 1)]);
    assert_eq!(reattempt(&mut qs, &mut ss, &name, 1), Ok(1));
    assert_eq!(ss.get_job(&name, 1).map(|_| ()), Err(ErrorKind::Staging));
    assert_eq!(qs.queue_size(&name), Ok(1));
}

#[test]
fn reattempt_augments_object_input() {
    let mut qs = QueueStore::new();
    let mut ss = StagingStore::new();
    let name = "jobs".to_string();
    qs.create_or_update_queue(&name, &settings(vec![])).unwrap();
    qs.fail_commits = 1;
    let req = JobRequest { input: Some(obj(vec![("a", 1)])) };
    submit(&mut qs, &mut ss, &name, &req).unwrap_err();
    assert_eq!(reattempt(&mut qs, &mut ss, &name, 1), Ok(1));
    let cfg = RetrievalConfig { next_job_delay_ms: None };
    match poll_next(&mut qs, &cfg, &name).unwrap() {
        PollOutcome::Found(job) => {
            assert_eq!(job.id, 1);
            assert_eq!(
                field_pairs(job.input.as_ref().unwrap()),
                vec![("a".to_string(), 1), ("attempted_on".to_string(), 1)]
            );
        }
        _ => panic!("expected the recovered job"),
    }
}

#[test]
fn reattempt_overwrites_existing_audit_field() {
    let mut qs = QueueStore::new();
    let mut ss = StagingStore::new();
    let name = "jobs".to_string();
    qs.create_or_update_queue(&name, &settings(vec![])).unwrap();
    qs.fail_commits = 1;
    let req = JobRequest { input: Some(obj(vec![("attempted_on", 99), ("b", 2)])) };
    submit(&mut qs, &mut ss, &name, &req).unwrap_err();
    reattempt(&mut qs, &mut ss, &name, 1).unwrap();
    let cfg = RetrievalConfig { next_job_delay_ms: None };
    match poll_next(&mut qs, &cfg, &name).unwrap() {
        PollOutcome::Found(job) => {
            assert_eq!(
                field_pairs(job.input.as_ref().unwrap()),
                vec![("attempted_on".to_string(), 1), ("b".to_string(), 2)]
            );
        }
        _ => panic!("expected the recovered job"),
    }
}

#[test]
fn reattempt_leaves_non_object_input_unmodified() {
    let mut qs = QueueStore::new();
    let mut ss = StagingStore::new();
    let name = "jobs".to_string();
    qs.create_or_update_queue(&name, &settings(vec![])).unwrap();
    qs.fail_commits = 1;
    let req = JobRequest { input: Some(InputValue::Other("[1,2,3]".to_string())) };
    submit(&mut qs, &mut ss, &name, &req).unwrap_err();
    reattempt(&mut qs, &mut ss, &name, 1).unwrap();
    let cfg = RetrievalConfig { next_job_delay_ms: None };
    match poll_next(&mut qs, &cfg, &name).unwrap() {
        PollOutcome::Found(job) => match job.input.as_ref().unwrap() {
            InputValue::Other(s) => assert_eq!(s, "[1,2,3]"),
            _ => panic!("expected the array to pass through untouched"),
        },
        _ => panic!("expected the recovered job"),
    }
}

#[test]
fn reattempt_leaves_absent_input_absent() {
    let mut qs = QueueStore::new();
    let mut ss = StagingStore::new();
    let name = "jobs".to_string();
    qs.create_or_update_queue(&name, &settings(vec![])).unwrap();
    qs.fail_commits = 1;
    let req = JobRequest { input: None };
    submit(&mut qs, &mut ss, &name, &req).unwrap_err();
    reattempt(&mut qs, &mut ss, &name, 1).unwrap();
    let cfg = RetrievalConfig { next_job_delay_ms: None };
    match poll_next(&mut qs, &cfg, &name).unwrap() {
        PollOutcome::Found(job) => assert!(job.input.is_none()),
        _ => panic!("expected the recovered job"),
    }
}

#[test]
fn reattempt_on_missing_record_is_a_staging_error() {
    let mut qs = QueueStore::new();
    let mut ss = StagingStore::new();
    let name = "jobs".to_string();
    qs.create_or_update_queue(&name, &settings(vec![])).unwrap();
    assert_eq!(reattempt(&mut qs, &mut ss, &name, 7), Err(ErrorKind::Staging));
}

#[test]
fn staging_write_failure_fails_submission_before_commit() {
    let mut qs = QueueStore::new();
    let mut ss = StagingStore::new();
    let name = "jobs".to_string();
    qs.create_or_update_queue(&name, &settings(vec![])).unwrap();
    ss.fail_writes = 1;
    let req = JobRequest { input: Some(obj(vec![("x", 1)])) };
    assert_eq!(submit(&mut qs, &mut ss, &name, &req), Err(ErrorKind::Staging));
    assert_eq!(qs.queue_size(&name), Ok(0));
    assert_eq!(ss.get_job(&name, 1).map(|_| ()), Err(ErrorKind::Staging));
}

#[test]
fn empty_poll_respects_configured_delay() {
    let mut qs = QueueStore::new();
    let name = "jobs".to_string();
    qs.create_or_update_queue(&name, &settings(vec![])).unwrap();
    let delayed = RetrievalConfig { next_job_delay_ms: Some(50) };
    assert!(matches!(poll_next(&mut qs, &delayed, &name), Ok(PollOutcome::EmptyAfterDelay(50))));
    let zero = RetrievalConfig { next_job_delay_ms: Some(0) };
    assert!(matches!(poll_next(&mut qs, &zero, &name), Ok(PollOutcome::EmptyImmediate)));
    let unset = RetrievalConfig { next_job_delay_ms: None };
    assert!(matches!(poll_next(&mut qs, &unset, &name), Ok(PollOutcome::EmptyImmediate)));
}

#[test]
fn poll_on_missing_queue_propagates_the_error() {
    let mut qs = QueueStore::new();
    let cfg = RetrievalConfig { next_job_delay_ms: Some(50) };
    assert_eq!(
        poll_next(&mut qs, &cfg, &"missing".to_string()).map(|_| ()),
        Err(ErrorKind::NoSuchQueue)
    );
}

#[test]
fn end_to_end_submit_then_poll() {
    let mut qs = QueueStore::new();
    let mut ss = StagingStore::new();
    let name = "jobs".to_string();
    qs.create_or_update_queue(&name, &settings(vec![])).unwrap();
    let req = JobRequest { input: Some(obj(vec![("x", 1)])) };
    assert_eq!(submit(&mut qs, &mut ss, &name, &req), Ok(1));
    assert_eq!(ss.get_job(&name, 1).map(|_| ()), Err(ErrorKind::Staging));
    let cfg = RetrievalConfig { next_job_delay_ms: None };
    match poll_next(&mut qs, &cfg, &name).unwrap() {
        PollOutcome::Found(job) => {
            assert_eq!(job.id, 1);
            assert_eq!(field_pairs(job.input.as_ref().unwrap()), vec![("x".to_string(), 1)]);
        }
        _ => panic!("expected the submitted job"),
    }
    assert!(matches!(poll_next(&mut qs, &cfg, &name), Ok(PollOutcome::EmptyImmediate)));
}

#[test]
fn fetch_targets_a_specific_job() {
    let mut qs = QueueStore::new();
    let mut ss = StagingStore::new();
    let name = "jobs".to_string();
    qs.create_or_update_queue(&name, &settings(vec![])).unwrap();
    submit(&mut qs, &mut ss, &name, &JobRequest { input: None }).unwrap();
    submit(&mut qs, &mut ss, &name, &JobRequest { input: None }).unwrap();
    let cfg = RetrievalConfig { next_job_delay_ms: None };
    match fetch_job(&mut qs, &cfg, &name, 2).unwrap() {
        PollOutcome::Found(job) => assert_eq!(job.id, 2),
        _ => panic!("expected job 2"),
    }
    assert_eq!(qs.queue_job_ids(&name), Ok(vec![1]));
    assert!(matches!(fetch_job(&mut qs, &cfg, &name, 2), Ok(PollOutcome::EmptyImmediate)));
}

#[test]
fn job_ids_keep_commit_order() {
    let mut qs = QueueStore::new();
    let mut ss = StagingStore::new();
    let name = "jobs".to_string();
    qs.create_or_update_queue(&name, &settings(vec![])).unwrap();
    for _ in 0..3 {
        submit(&mut qs, &mut ss, &name, &JobRequest { input: None }).unwrap();
    }
    assert_eq!(qs.queue_job_ids(&name), Ok(vec![1, 2, 3]));
    assert_eq!(qs.queue_size(&name), Ok(3));
}

#[test]
fn queue_names_in_store_order() {
    let mut qs = QueueStore::new();
    qs.create_or_update_queue(&"alpha".to_string(), &settings(vec![])).unwrap();
    qs.create_or_update_queue(&"beta".to_string(), &settings(vec![])).unwrap();
    assert_eq!(qs.queue_names(), vec!["alpha".to_string(), "beta".to_string()]);
}

#[test]
fn error_kinds_map_to_distinct_status_classes() {
    assert_eq!(ErrorKind::Connection.status_code(), 503);
    assert_eq!(ErrorKind::NoSuchQueue.status_code(), 404);
    assert_eq!(ErrorKind::BadRequest.status_code(), 400);
    assert_eq!(ErrorKind::NotFound.status_code(), 404);
    assert_eq!(ErrorKind::Staging.status_code(), 500);
    assert_eq!(ErrorKind::Internal.status_code(), 500);
}

#[test]
fn cleanup_is_idempotent_after_success() {
    let mut qs = QueueStore::new();
    let mut ss = StagingStore::new();
    let name = "jobs".to_string();
    qs.create_or_update_queue(&name, &settings(vec![])).unwrap();
    submit(&mut qs, &mut ss, &name, &JobRequest { input: None }).unwrap();
    assert!(!ss.delete_job(&name, 1));
    assert_eq!(ss.get_job(&name, 1).map(|_| ()), Err(ErrorKind::Staging));
}

#[test]
fn record_staged_against_missing_queue_is_replayable_once_fixed() {
    let mut qs = QueueStore::new();
    let mut ss = StagingStore::new();
    let name = "late".to_string();
    let req = JobRequest { input: Some(obj(vec![("x", 9)])) };
    assert_eq!(submit(&mut qs, &mut ss, &name, &req), Err(ErrorKind::NoSuchQueue));
    qs.create_or_update_queue(&name, &settings(vec![])).unwrap();
    assert_eq!(reattempt(&mut qs, &mut ss, &name, 1), Ok(1));
    let cfg = RetrievalConfig { next_job_delay_ms: None };
    match poll_next(&mut qs, &cfg, &name).unwrap() {
        PollOutcome::Found(job) => {
            assert_eq!(
                field_pairs(job.input.as_ref().unwrap()),
                vec![("x".to_string(), 9), ("attempted_on".to_string(), 1)]
            );
        }
        _ => panic!("expected the replayed job"),
    }
}

#[test]
fn deleting_one_queue_leaves_others_intact() {
    let mut qs = QueueStore::new();
    let mut ss = StagingStore::new();
    let keep = "keep".to_string();
    let drop = "drop".to_string();
    qs.create_or_update_queue(&keep, &settings(vec![("retries", 1)])).unwrap();
    qs.create_or_update_queue(&drop, &settings(vec![])).unwrap();
    submit(&mut qs, &mut ss, &keep, &JobRequest { input: None }).unwrap();
    assert_eq!(qs.delete_queue(&drop), Ok(DeleteOutcome::Deleted));
    assert_eq!(qs.queue_size(&keep), Ok(1));
    let current = qs.queue_settings(&keep).unwrap();
    assert_eq!(field_pairs(&current.data), vec![("retries".to_string(), 1)]);
}

#[test]
fn fetch_on_missing_queue_propagates_the_error() {
    let mut qs = QueueStore::new();
    let cfg = RetrievalConfig { next_job_delay_ms: None };
    assert_eq!(
        fetch_job(&mut qs, &cfg, &"missing".to_string(), 1).map(|_| ()),
        Err(ErrorKind::NoSuchQueue)
    );
}

#[test]
fn job_ids_are_assigned_from_one_counter_across_queues() {
    let mut qs = QueueStore::new();
    let mut ss = StagingStore::new();
    let a = "a".to_string();
    let b = "b".to_string();
    qs.create_or_update_queue(&a, &settings(vec![])).unwrap();
    qs.create_or_update_queue(&b, &settings(vec![])).unwrap();
    assert_eq!(submit(&mut qs, &mut ss, &a, &JobRequest { input: None }), Ok(1));
    assert_eq!(submit(&mut qs, &mut ss, &b, &JobRequest { input: None }), Ok(2));
    assert_eq!(qs.queue_job_ids(&a), Ok(vec![1]));
    assert_eq!(qs.queue_job_ids(&b), Ok(vec![2]));
}

#[test]
fn put_field_overwrites_in_place_or_appends() {
    let mut fields = vec![
        JsonField { key: "a".to_string(), value: FieldValue::Int(1) },
        JsonField { key: "b".to_string(), value: FieldValue::Int(2) },
    ];
    put_field(&mut fields, "a".to_string(), FieldValue::Int(7));
    put_field(&mut fields, "c".to_string(), FieldValue::Int(3));
    let got = field_pairs(&InputValue::Object(fields));
    assert_eq!(
        got,
        vec![("a".to_string(), 7), ("b".to_string(), 2), ("c".to_string(), 3)]
    );
}
