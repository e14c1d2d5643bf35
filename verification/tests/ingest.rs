use ariata::ingest::{
    create_pipeline_activity, generate_next_checkpoint, get_storage_strategy, ingest, process_records,
    process_single_record, validate_device_token, validate_source_stream, ActivityLog, ActivityStatus,
    AuthQuery, IngestError, IngestRequest, IngestResponse, IngestSession, Processor, StorageStrategy,
};
use ariata::registry::Registry;
use ariata::state::AppState;
use std::cell::RefCell;

fn record(value: i64) -> serde_json::Value {
    let mut fields = serde_json::Map::new();
    fields.insert("value".to_string(), serde_json::Value::from(value));
    fields.insert("unit".to_string(), serde_json::Value::from("bpm"));
    serde_json::Value::Object(fields)
}

fn request(source: &str, stream: &str, values: &[i64], checkpoint: Option<&str>) -> IngestRequest {
    IngestRequest {
        source: source.to_string(),
        stream: stream.to_string(),
        device_id: "iPhone-123".to_string(),
        records: values.iter().map(|v| record(*v)).collect(),
        checkpoint: checkpoint.map(|c| c.to_string()),
        timestamp: 1_704_067_200_000,
    }
}

fn no_token() -> AuthQuery {
    AuthQuery { device_token: None }
}

fn positive(_: Processor, _: StorageStrategy, record: &serde_json::Value) -> bool {
    record["value"].as_i64().map(|v| v > 0).unwrap_or(false)
}

#[test]
fn test_ingest_request_deserialize() {
    let json = r#"{
            "source": "ios",
            "stream": "healthkit",
            "device_id": "iPhone-123",
            "records": [{"value": 72, "unit": "bpm"}],
            "timestamp": "2024-01-01T00:00:00Z"
        }"#;

    let body: serde_json::Value = serde_json::from_str(json).unwrap();
    let timestamp: chrono::DateTime<chrono::Utc> = body["timestamp"].as_str().unwrap().parse().unwrap();
    let request = IngestRequest {
        source: body["source"].as_str().unwrap().to_string(),
        stream: body["stream"].as_str().unwrap().to_string(),
        device_id: body["device_id"].as_str().unwrap().to_string(),
        records: body["records"].as_array().unwrap().clone(),
        checkpoint: body.get("checkpoint").and_then(|c| c.as_str()).map(|c| c.to_string()),
        timestamp: timestamp.timestamp_millis() as u64,
    };
    assert_eq!(request.source, "ios");
    assert_eq!(request.stream, "healthkit");
    assert_eq!(request.records.len(), 1);
    assert_eq!(request.checkpoint, None);
    assert_eq!(request.timestamp, 1_704_067_200_000);
    assert_eq!(validate_source_stream(&request.source, &request.stream), Ok(()));
}

#[test]
fn one_bad_record_of_three_is_rejected_alone() {
    let mut log = ActivityLog::new();
    let seen = RefCell::new(Vec::new());
    let response = ingest(
        &mut log,
        &no_token(),
        &request("ios", "healthkit", &[72, -1, 64], None),
        |processor, strategy, record| {
            assert_eq!(strategy, StorageStrategy::PostgresOnly);
            seen.borrow_mut().push((processor, record["value"].as_i64().unwrap()));
            positive(processor, strategy, record)
        },
        |_| true,
        9_000,
    )
    .unwrap();
    assert_eq!(response.accepted, 2);
    assert_eq!(response.rejected, 1);
    assert_eq!(response.next_checkpoint, None);
    // every record was handed over, in order, also those behind the bad one
    assert_eq!(
        *seen.borrow(),
        vec![(Processor::IosHealthkit, 72), (Processor::IosHealthkit, -1), (Processor::IosHealthkit, 64)]
    );
    assert_eq!(log.len(), 1);
    let activity = log.get(0).unwrap();
    assert_eq!(activity.id, response.activity_id);
    assert_eq!(activity.records_processed, 2);
    assert_eq!(activity.records_rejected, 1);
    assert_eq!(activity.record_count, 3);
    assert_eq!(activity.status, ActivityStatus::Completed);
    assert_eq!((activity.started_at, activity.finished_at), (9_000, Some(9_000)));
    assert_eq!(activity.source, "ios");
    assert_eq!(activity.stream, "healthkit");
    assert_eq!(activity.device_id, "iPhone-123");
}

#[test]
fn counts_for_any_number_of_bad_records() {
    for n in 0..12i64 {
        for k in 0..=n {
            // the first k records are malformed
            let values: Vec<i64> = (0..n).map(|i| if i < k { -1 } else { 1 }).collect();
            let mut log = ActivityLog::new();
            let response =
                ingest(&mut log, &no_token(), &request("mac", "apps", &values, None), positive, |_| true, 1)
                    .unwrap();
            assert_eq!(response.accepted as i64, n - k);
            assert_eq!(response.rejected as i64, k);
        }
    }
}

#[test]
fn unknown_pair_refuses_the_whole_batch() {
    let mut log = ActivityLog::new();
    let called = RefCell::new(0);
    let answer = ingest(
        &mut log,
        &no_token(),
        &request("ios", "steps", &[1, 2], Some("t")),
        |_, _, _| {
            *called.borrow_mut() += 1;
            true
        },
        |_| {
            *called.borrow_mut() += 1;
            true
        },
        1,
    );
    let error = answer.unwrap_err();
    assert_eq!(
        error,
        IngestError::UnknownSourceStream { source: "ios".to_string(), stream: "steps".to_string() }
    );
    assert_eq!(error.message(), "Invalid source/stream: ios/steps");
    assert_eq!(log.len(), 0);
    assert_eq!(*called.borrow(), 0);
}

#[test]
fn stream_without_processor_rejects_every_record() {
    let mut log = ActivityLog::new();
    let response = ingest(
        &mut log,
        &AuthQuery { device_token: Some("secret".to_string()) },
        &request("google", "calendar", &[1, 2, 3, 4], Some("cp")),
        |_, _, _| true,
        |_| true,
        1,
    )
    .unwrap();
    assert_eq!((response.accepted, response.rejected), (0, 4));
    assert_eq!(response.next_checkpoint, Some("cp_next".to_string()));
    assert_eq!(log.get(0).unwrap().records_processed, 0);
}

#[test]
fn checkpoint_that_is_not_kept_gives_no_hint() {
    let mut log = ActivityLog::new();
    let kept = RefCell::new(Vec::new());
    let ok = ingest(
        &mut log,
        &no_token(),
        &request("ios", "location", &[5], Some("2024-01-01")),
        positive,
        |token: &String| {
            kept.borrow_mut().push(token.clone());
            true
        },
        1,
    )
    .unwrap();
    assert_eq!(ok.next_checkpoint, Some("2024-01-01_next".to_string()));
    assert_eq!(*kept.borrow(), vec!["2024-01-01".to_string()]);
    let degraded = ingest(
        &mut log,
        &no_token(),
        &request("ios", "location", &[5], Some("2024-01-02")),
        positive,
        |_| false,
        2,
    )
    .unwrap();
    assert_eq!(degraded.next_checkpoint, None);
    assert_eq!((degraded.accepted, degraded.rejected), (1, 0));
    assert_eq!(log.len(), 2);
    assert_ne!(ok.activity_id, degraded.activity_id);
}

#[test]
fn audio_goes_to_the_object_store() {
    let mut log = ActivityLog::new();
    let response = ingest(
        &mut log,
        &no_token(),
        &request("ios", "mic", &[1], None),
        |processor, strategy, _| processor == Processor::IosMicrophone && strategy == StorageStrategy::Hybrid,
        |_| true,
        1,
    )
    .unwrap();
    assert_eq!((response.accepted, response.rejected), (1, 0));
}

#[test]
fn empty_batch_is_taken() {
    let mut log = ActivityLog::new();
    let response =
        ingest(&mut log, &no_token(), &request("mac", "imessage", &[], None), positive, |_| true, 1).unwrap();
    assert_eq!((response.accepted, response.rejected), (0, 0));
    assert_eq!(response.activity_id.len(), 36);
    assert_eq!(log.get(0).unwrap().status, ActivityStatus::Completed);
}

#[test]
fn session_step_by_step() {
    let mut log = ActivityLog::new();
    let mut session =
        IngestSession::begin(&mut log, "ios", "mic", "dev-1", 3, "activity-1".to_string(), 50).unwrap();
    assert_eq!(session.processor(), Some(Processor::IosMicrophone));
    assert_eq!(session.activity_id(), "activity-1");
    assert_eq!(log.get(0).unwrap().status, ActivityStatus::InProgress);
    assert_eq!(log.get(0).unwrap().record_count, 3);
    assert_eq!(session.next_record(), Some(0));
    assert!(session.record(true));
    assert_eq!(session.next_record(), Some(1));
    assert!(session.record(false));
    assert!(session.record(true));
    assert_eq!(session.next_record(), None);
    // a report beyond the end of the batch does not count
    assert!(!session.record(true));
    let response = session.finish(&mut log, Some("t9".to_string()), true, 60);
    assert_eq!(
        response,
        IngestResponse {
            accepted: 2,
            rejected: 1,
            next_checkpoint: Some("t9_next".to_string()),
            activity_id: "activity-1".to_string(),
        }
    );
    let activity = log.get(0).unwrap();
    assert_eq!(activity.status, ActivityStatus::Completed);
    assert_eq!(activity.finished_at, Some(60));
    assert_eq!((activity.records_processed, activity.records_rejected), (2, 1));
}

#[test]
fn records_never_reported_count_as_rejected() {
    let mut log = ActivityLog::new();
    let mut session =
        IngestSession::begin(&mut log, "mac", "browser", "dev-1", 5, "a".to_string(), 1).unwrap();
    session.record(true);
    session.record(true);
    let response = session.finish(&mut log, None, true, 2);
    assert_eq!((response.accepted, response.rejected), (2, 3));
    assert_eq!(response.next_checkpoint, None);
}

#[test]
fn session_needs_a_known_pair() {
    let mut log = ActivityLog::new();
    let refused = IngestSession::begin(&mut log, "android", "healthkit", "d", 1, "a".to_string(), 1);
    assert!(matches!(refused, Err(IngestError::UnknownSourceStream { .. })));
    assert_eq!(log.len(), 0);
}

#[test]
fn log_closes_a_batch_once() {
    let mut log = ActivityLog::new();
    let at = log.open("id-1".to_string(), "ios", "healthkit", "d", 4, 10);
    assert_eq!(at, 0);
    assert!(!log.close(1, 1, 1, 11));
    assert!(log.close(0, 3, 1, 12));
    assert!(!log.close(0, 0, 4, 13));
    let a = log.get(0).unwrap();
    assert_eq!((a.records_processed, a.records_rejected, a.finished_at), (3, 1, Some(12)));
    assert!(log.get(1).is_none());
}

#[test]
fn activity_ids_are_fresh() {
    let mut log = ActivityLog::new();
    let a = create_pipeline_activity(&mut log, "ios", "healthkit", "d", 2, 5);
    let b = create_pipeline_activity(&mut log, "ios", "healthkit", "d", 2, 5);
    assert_eq!(a.len(), 36);
    assert_eq!(b.len(), 36);
    assert_ne!(a, b);
    assert_eq!(a.matches('-').count(), 4);
    assert!(a.chars().all(|c| c == '-' || c.is_ascii_hexdigit()));
    assert_eq!(log.get(0).unwrap().id, a);
    assert_eq!(log.get(1).unwrap().id, b);
    assert_eq!(log.get(1).unwrap().record_count, 2);
    assert_eq!(log.get(1).unwrap().status, ActivityStatus::InProgress);
}

#[test]
fn known_pairs() {
    let known = [
        ("ios", "healthkit"),
        ("ios", "location"),
        ("ios", "microphone"),
        ("ios", "mic"),
        ("mac", "apps"),
        ("mac", "browser"),
        ("mac", "imessage"),
        ("mac", "screentime"),
        ("google", "calendar"),
        ("google", "gmail"),
        ("strava", "activities"),
        ("notion", "pages"),
    ];
    let sources = ["ios", "mac", "google", "strava", "notion", "android", ""];
    let streams = [
        "healthkit", "location", "microphone", "mic", "apps", "browser", "imessage", "screentime",
        "calendar", "gmail", "activities", "pages", "screenshots", "",
    ];
    for source in sources {
        for stream in streams {
            let valid = validate_source_stream(source, stream);
            if known.contains(&(source, stream)) {
                assert_eq!(valid, Ok(()), "{source}/{stream}");
            } else {
                assert_eq!(
                    valid,
                    Err(IngestError::UnknownSourceStream {
                        source: source.to_string(),
                        stream: stream.to_string()
                    })
                );
            }
        }
    }
    assert!(validate_source_stream("IOS", "healthkit").is_err());
    assert!(validate_source_stream("ios ", "healthkit").is_err());
}

#[test]
fn processors_by_stream() {
    assert_eq!(process_single_record("ios", "healthkit"), Ok(Processor::IosHealthkit));
    assert_eq!(process_single_record("ios", "location"), Ok(Processor::IosLocation));
    assert_eq!(process_single_record("ios", "microphone"), Ok(Processor::IosMicrophone));
    assert_eq!(process_single_record("ios", "mic"), Ok(Processor::IosMicrophone));
    assert_eq!(process_single_record("mac", "apps"), Ok(Processor::MacApps));
    assert_eq!(process_single_record("mac", "browser"), Ok(Processor::MacBrowser));
    assert_eq!(process_single_record("mac", "imessage"), Ok(Processor::MacImessage));
    let unsupported = process_single_record("mac", "screentime").unwrap_err();
    assert_eq!(unsupported.message(), "Unsupported source/stream combination: mac/screentime");
    assert_eq!(
        process_single_record("google", "gmail"),
        Err(IngestError::PerRecordFailure {
            reason: "Unsupported source/stream combination: google/gmail".to_string()
        })
    );
    assert!(process_single_record("mac", "healthkit").is_err());
}

#[test]
fn storage_strategies() {
    assert_eq!(get_storage_strategy("ios", "healthkit"), StorageStrategy::PostgresOnly);
    assert_eq!(get_storage_strategy("mac", "apps"), StorageStrategy::PostgresOnly);
    assert_eq!(get_storage_strategy("ios", "mic"), StorageStrategy::Hybrid);
    assert_eq!(get_storage_strategy("mac", "screenshots"), StorageStrategy::Hybrid);
    assert_eq!(get_storage_strategy("ios", "microphone"), StorageStrategy::PostgresOnly);
    assert_eq!(get_storage_strategy("mac", "mic"), StorageStrategy::PostgresOnly);
    assert_eq!(get_storage_strategy("nowhere", "nothing"), StorageStrategy::PostgresOnly);
}

#[test]
fn next_checkpoint_hint() {
    assert_eq!(generate_next_checkpoint("abc"), "abc_next");
    assert_eq!(generate_next_checkpoint(""), "_next");
    assert_eq!(generate_next_checkpoint("a_next"), "a_next_next");
}

#[test]
fn every_device_token_passes() {
    assert_eq!(validate_device_token("", "iPhone-123"), Ok(()));
    assert_eq!(validate_device_token("anything", ""), Ok(()));
}

#[test]
fn counting_from_outcomes() {
    let outcomes = vec![true, false, true, true, false];
    assert_eq!(process_records(Some(Processor::MacApps), &outcomes), (3, 2));
    assert_eq!(process_records(None, &outcomes), (0, 5));
    assert_eq!(process_records(Some(Processor::MacApps), &vec![]), (0, 0));
    assert_eq!(process_records(Some(Processor::IosLocation), &vec![false; 7]), (0, 7));
}

#[test]
fn fresh_state_is_empty() {
    let state = AppState::new(Registry::new());
    assert_eq!(state.activities.len(), 0);
    assert_eq!(state.engine.ledger.len(), 0);
    assert!(state.engine.registry.list().is_empty());
    assert_eq!(state.engine.checkpoint(1, "calendar"), None);
}
