use ably_core::error::AblyError;
use ably_core::protocol::json::JsonValue;
use ably_core::protocol::messages::{Message, PresenceAction, PresenceMessage};
use ably_core::replay::channel_replay::{ChannelReplay, MessageFilter, StateAnalyzer};
use ably_core::replay::presence_replay::{
    AnomalyType, AnomolySeverity, DataChange, PresenceReplay, PresenceReplayOptions, PresenceSession,
};
use ably_core::replay::state_recovery::{
    CheckpointReason, RecoveryOptions, RecoveryPlan, RecoveryState, RecoveryStrategy, StateRecovery, ValidationOptions,
};
use ably_core::replay::{
    process_message_for_state, process_presence_for_state, replay_message_state, time_order, ReplayManager,
    ReplayOptions, ReplayResult, SnapshotMetadata, StateSnapshot,
};
use ably_core::strmap::StringMap;

fn text(s: &str) -> JsonValue {
    JsonValue::String(s.to_string())
}

fn message(name: &str, data: JsonValue, client: &str, ts: i64) -> Message {
    let mut m = Message::empty();
    m.name = Some(name.to_string());
    m.data = Some(data);
    m.client_id = Some(client.to_string());
    m.timestamp = Some(ts);
    m
}

fn presence(action: PresenceAction, client: &str, ts: i64) -> PresenceMessage {
    PresenceMessage {
        id: None,
        action,
        client_id: Some(client.to_string()),
        connection_id: None,
        data: None,
        encoding: None,
        timestamp: Some(ts),
    }
}

fn is_text(v: Option<&JsonValue>, t: &str) -> bool {
    matches!(v, Some(JsonValue::String(s)) if s == t)
}

fn snapshot(timestamp: i64, messages_processed: usize) -> StateSnapshot {
    StateSnapshot {
        channel: "ch".to_string(),
        timestamp,
        message_state: StringMap::new(),
        presence_state: StringMap::new(),
        metadata: SnapshotMetadata {
            messages_processed,
            presence_processed: 0,
            replay_duration_ms: 0,
            options: ReplayOptions::default(),
        },
    }
}

#[test]
fn test_channel_replay_creation() {
    let replay = ChannelReplay::new("test-channel".to_string());
    assert_eq!(replay.channel_name, "test-channel");
    assert!(replay.filters.is_empty());
    assert!(replay.analyzers.is_empty());
}

#[test]
fn test_channel_replay_with_filters() {
    let replay = ChannelReplay::new("test-channel".to_string())
        .with_filter(MessageFilter::NamePattern("state:".to_string()))
        .with_filter(MessageFilter::ClientId("client-123".to_string()));

    assert_eq!(replay.filters.len(), 2);
}

#[test]
fn test_channel_replay_with_analyzers() {
    let replay = ChannelReplay::new("test-channel".to_string())
        .with_analyzer(StateAnalyzer::MessageCounts)
        .with_analyzer(StateAnalyzer::ValueTimeline("temperature".to_string()));

    assert_eq!(replay.analyzers.len(), 2);
}

#[test]
fn test_replay_manager_creation() {
    let manager = ReplayManager::new();
    assert_eq!(manager.options.max_messages, 1000);
}

#[test]
fn test_replay_manager_with_custom_options() {
    let options = ReplayOptions {
        max_messages: 500,
        time_range_seconds: 1800,
        include_presence: false,
        compress_state: true,
        batch_size: 50,
        timeout_seconds: 60,
    };

    let manager = ReplayManager::with_options(options.clone());
    assert_eq!(manager.options.max_messages, 500);
    assert_eq!(manager.options.time_range_seconds, 1800);
    assert!(!manager.options.include_presence);
    assert!(manager.options.compress_state);
}

#[test]
fn test_presence_replay_creation() {
    let replay = PresenceReplay::new("test-channel".to_string());
    assert_eq!(replay.channel_name, "test-channel");
    assert!(replay.options.track_patterns);
}

#[test]
fn test_presence_replay_options() {
    let options = PresenceReplayOptions {
        track_patterns: false,
        analyze_sessions: false,
        detect_anomalies: true,
        track_peaks: false,
    };

    let replay = PresenceReplay::with_options("test".to_string(), options);

    assert!(!replay.options.track_patterns);
    assert!(!replay.options.analyze_sessions);
    assert!(replay.options.detect_anomalies);
    assert!(!replay.options.track_peaks);
}

#[test]
fn test_presence_session_structure() {
    let session = PresenceSession {
        client_id: "test-client".to_string(),
        enter_time: 1000,
        leave_time: Some(2000),
        duration_ms: Some(1000),
        data_changes: vec![DataChange {
            timestamp: 1500,
            old_data: None,
            new_data: Some(JsonValue::Object(vec![("status".to_string(), text("active"))])),
        }],
        is_complete: true,
    };

    assert_eq!(session.client_id, "test-client");
    assert_eq!(session.duration_ms, Some(1000));
    assert!(session.is_complete);
    assert_eq!(session.data_changes.len(), 1);
}

#[test]
fn test_state_recovery_creation() {
    let recovery = StateRecovery::new();
    assert_eq!(recovery.checkpoints.len(), 0);
    assert_eq!(recovery.recovery_options.max_checkpoints, 10);
}

#[test]
fn test_recovery_options() {
    let options = RecoveryOptions {
        max_checkpoints: 5,
        checkpoint_interval_seconds: 60,
        max_checkpoint_age_seconds: 3600,
        auto_recovery: false,
        recovery_strategy: RecoveryStrategy::Conservative,
        validation: ValidationOptions {
            check_integrity: true,
            validate_schema: true,
            check_consistency: false,
            max_acceptable_loss: 50,
        },
    };

    let recovery = StateRecovery::with_options(options);
    assert_eq!(recovery.recovery_options.max_checkpoints, 5);
    assert!(!recovery.recovery_options.auto_recovery);
}

#[test]
fn replayed_state_follows_special_names() {
    let mut state: StringMap<JsonValue> = StringMap::new();
    process_message_for_state(&message("temperature", text("25"), "c", 1), &mut state);
    assert!(is_text(state.get("temperature"), "25"));

    process_message_for_state(&message("state:delete", text("temperature"), "c", 2), &mut state);
    assert!(state.get("temperature").is_none());
    assert!(is_text(state.get("state:delete"), "temperature"));

    let members = vec![("a".to_string(), text("1")), ("b".to_string(), text("2"))];
    process_message_for_state(&message("state:merge", JsonValue::Object(members), "c", 3), &mut state);
    assert!(is_text(state.get("a"), "1"));
    assert!(is_text(state.get("b"), "2"));
    assert!(state.contains_key("state:merge"));

    process_message_for_state(&message("state:clear", text("x"), "c", 4), &mut state);
    assert_eq!(state.len(), 0);

    let mut unnamed = Message::empty();
    unnamed.data = Some(text("y"));
    process_message_for_state(&unnamed, &mut state);
    assert_eq!(state.len(), 0);
}

#[test]
fn replayed_presence_follows_actions() {
    let mut state: StringMap<PresenceMessage> = StringMap::new();
    process_presence_for_state(presence(PresenceAction::Enter, "alice", 1), &mut state);
    process_presence_for_state(presence(PresenceAction::Enter, "bob", 2), &mut state);
    process_presence_for_state(presence(PresenceAction::Update, "alice", 3), &mut state);
    process_presence_for_state(presence(PresenceAction::Leave, "bob", 4), &mut state);
    process_presence_for_state(presence(PresenceAction::Present, "carol", 5), &mut state);
    assert!(state.contains_key("alice"));
    assert!(!state.contains_key("bob"));
    assert!(!state.contains_key("carol"));
    assert_eq!(state.get("alice").unwrap().timestamp, Some(3));
}

#[test]
fn time_order_keeps_equal_times_in_order() {
    assert_eq!(time_order(&[30, 10, 20, 10]), vec![1, 3, 2, 0]);
    assert_eq!(time_order(&[]), Vec::<usize>::new());
    assert_eq!(time_order(&[5, 5, 5]), vec![0, 1, 2]);
}

#[test]
fn replay_rebuilds_state_in_time_order() {
    let messages = vec![message("k", text("late"), "c", 20), message("k", text("early"), "c", 10)];
    let state = replay_message_state(&messages);
    assert!(is_text(state.get("k"), "late"));

    let manager = ReplayManager::new();
    let presence_history = vec![presence(PresenceAction::Leave, "a", 9), presence(PresenceAction::Enter, "a", 1)];
    let result = manager.replay_result(&messages, Some(Ok(presence_history)), 7);
    assert_eq!(result.messages_processed, 2);
    assert_eq!(result.presence_processed, 2);
    assert!(!result.presence_state.contains_key("a"));
    assert!(result.success);
    assert_eq!(result.duration_ms, 7);

    let failed = manager.replay_result(&messages, Some(Err("boom".to_string())), 0);
    assert_eq!(failed.warnings, vec!["Presence history unavailable: boom".to_string()]);
    assert_eq!(failed.presence_processed, 0);

    let none = ReplayResult::failure("offline");
    assert!(!none.success);
    assert_eq!(none.warnings, vec!["Replay failed: offline".to_string()]);
}

#[test]
fn snapshot_reads_state_and_presence() {
    let mut snap = snapshot(1234567890, 10);
    snap.message_state.insert("key1".to_string(), text("value1"));
    snap.presence_state.insert("alice".to_string(), presence(PresenceAction::Enter, "alice", 1));
    assert!(is_text(snap.get_state_value("key1"), "value1"));
    assert!(snap.get_state_value("key2").is_none());
    assert!(snap.is_client_present("alice"));
    assert!(!snap.is_client_present("bob"));
    assert_eq!(snap.present_clients(), vec!["alice".to_string()]);
    assert!(snap.is_recent_at(60, 1234567890 + 59_999));
    assert!(!snap.is_recent_at(60, 1234567890 + 60_000));
}

fn presence_history() -> Vec<PresenceMessage> {
    let mut update = presence(PresenceAction::Update, "alice", 1500);
    update.data = Some(text("busy"));
    vec![
        presence(PresenceAction::Enter, "alice", 1000),
        update,
        presence(PresenceAction::Enter, "bob", 2000),
        presence(PresenceAction::Leave, "alice", 4000),
        presence(PresenceAction::Enter, "alice", 5000),
        presence(PresenceAction::Leave, "carol", 6000),
        presence(PresenceAction::Enter, "bob", 7000),
    ]
}

#[test]
fn presence_analysis_builds_sessions_and_finds_anomalies() {
    let options = PresenceReplayOptions {
        track_patterns: true,
        analyze_sessions: true,
        detect_anomalies: true,
        track_peaks: true,
    };
    let replay = PresenceReplay::with_options("room".to_string(), options);
    let analysis = replay.analyze_presence_messages(&presence_history());

    assert!(analysis.current_presence.contains_key("alice"));
    assert!(analysis.current_presence.contains_key("bob"));
    assert_eq!(analysis.current_presence.len(), 2);

    let alice = analysis.client_sessions.get("alice").unwrap();
    assert_eq!(alice.len(), 2);
    assert!(alice[0].is_complete);
    assert_eq!(alice[0].enter_time, 1000);
    assert_eq!(alice[0].leave_time, Some(4000));
    assert_eq!(alice[0].duration_ms, Some(3000));
    assert_eq!(alice[0].data_changes.len(), 1);
    assert_eq!(alice[0].data_changes[0].timestamp, 1500);
    assert!(alice[0].data_changes[0].old_data.is_none());
    assert!(matches!(&alice[0].data_changes[0].new_data, Some(JsonValue::String(s)) if s == "busy"));
    assert!(!alice[1].is_complete);
    assert_eq!(alice[1].enter_time, 5000);
    let bob = analysis.client_sessions.get("bob").unwrap();
    assert_eq!(bob.len(), 1);
    assert_eq!(bob[0].enter_time, 7000);

    assert_eq!(analysis.anomalies.len(), 2);
    assert_eq!(analysis.anomalies[0].anomaly_type, AnomalyType::OrphanedLeave);
    assert_eq!(analysis.anomalies[0].client_id, "carol");
    assert_eq!(analysis.anomalies[0].timestamp, 6000);
    assert_eq!(analysis.anomalies[0].description, "Client left without entering");
    assert_eq!(analysis.anomalies[1].anomaly_type, AnomalyType::DuplicateEnter);
    assert_eq!(analysis.anomalies[1].client_id, "bob");
    assert_eq!(analysis.anomalies[1].severity, AnomolySeverity::Medium);

    assert_eq!(analysis.patterns.avg_session_duration_ms, 3000);
    assert_eq!(analysis.patterns.longest_session_client, Some("alice".to_string()));
    assert_eq!(analysis.patterns.most_active_client, Some("alice".to_string()));
    assert_eq!(analysis.patterns.peak_hours, vec![0u8]);

    assert_eq!(analysis.peak_metrics.max_concurrent, 2);
    assert_eq!(analysis.peak_metrics.peak_timestamp, 2000);
    assert_eq!(analysis.peak_metrics.total_concurrent, 10);
    assert_eq!(analysis.peak_metrics.sample_count, 7);
    assert_eq!(analysis.peak_metrics.concurrency_timeline.len(), 7);

    assert_eq!(analysis.health_score, 95);
}

#[test]
fn presence_analysis_without_options_only_builds_sessions() {
    let options = PresenceReplayOptions {
        track_patterns: false,
        analyze_sessions: false,
        detect_anomalies: false,
        track_peaks: false,
    };
    let replay = PresenceReplay::with_options("room".to_string(), options);
    let analysis = replay.analyze_presence_messages(&presence_history());
    assert!(analysis.anomalies.is_empty());
    assert_eq!(analysis.patterns.avg_session_duration_ms, 0);
    assert!(analysis.patterns.peak_hours.is_empty());
    assert_eq!(analysis.peak_metrics.sample_count, 0);
    assert_eq!(analysis.health_score, 105);
}

#[test]
fn flapping_client_is_an_anomaly() {
    let mut history = Vec::new();
    for k in 0..6 {
        history.push(presence(PresenceAction::Enter, "x", k * 2000));
        history.push(presence(PresenceAction::Leave, "x", k * 2000 + 1000));
    }
    let options = PresenceReplayOptions {
        track_patterns: false,
        analyze_sessions: true,
        detect_anomalies: true,
        track_peaks: false,
    };
    let replay = PresenceReplay::with_options("room".to_string(), options);
    let analysis = replay.analyze_presence_messages(&history);
    assert_eq!(analysis.anomalies.len(), 1);
    let a = &analysis.anomalies[0];
    assert_eq!(a.anomaly_type, AnomalyType::FlappingPresence);
    assert_eq!(a.client_id, "x");
    assert_eq!(a.timestamp, 11000);
    assert_eq!(a.description, "Rapid enter/leave cycles detected: 6");
    assert_eq!(a.severity, AnomolySeverity::High);
    // 100 - 10 for the anomaly, + 10 for all six sessions complete.
    assert_eq!(analysis.health_score, 100);
}

fn channel_history() -> Vec<Message> {
    vec![
        message("temp", text("20"), "c1", 1000),
        message("temp", text("21"), "c2", 1500),
        message("hum", text("50"), "c1", 5000),
        message("temp", text("22"), "c1", 9000),
    ]
}

#[test]
fn channel_analysis_counts_tracks_and_finds_conflicts() {
    let replay = ChannelReplay::new("sensors".to_string())
        .with_analyzer(StateAnalyzer::ValueTimeline("temp".to_string()))
        .with_analyzer(StateAnalyzer::StateConflicts);
    let analysis = replay.run_analysis(&channel_history());

    assert_eq!(*analysis.message_counts.get("temp").unwrap(), 3);
    assert_eq!(*analysis.message_counts.get("hum").unwrap(), 1);

    let c1 = analysis.client_activity.get("c1").unwrap();
    assert_eq!(c1.message_count, 3);
    assert_eq!(c1.first_seen, 1000);
    assert_eq!(c1.last_seen, 9000);
    assert_eq!(c1.unique_message_names, 2);
    let c2 = analysis.client_activity.get("c2").unwrap();
    assert_eq!(c2.message_count, 1);

    let timeline = analysis.value_timelines.get("temp").unwrap();
    assert_eq!(timeline.len(), 3);
    assert!(timeline[0].old_value.is_none());
    assert!(matches!(&timeline[1].old_value, Some(JsonValue::String(s)) if s == "20"));
    assert!(matches!(&timeline[2].new_value, JsonValue::String(s) if s == "22"));
    assert_eq!(timeline[1].client_id, Some("c2".to_string()));

    assert_eq!(analysis.state_conflicts.len(), 1);
    let conflict = &analysis.state_conflicts[0];
    assert_eq!(conflict.key, "temp");
    assert_eq!(conflict.timestamp, 1500);
    assert_eq!(conflict.conflicting_clients, vec!["c1".to_string(), "c2".to_string()]);
    assert!(matches!(&conflict.values[1], JsonValue::String(s) if s == "21"));

    // 100 - 10 for the conflict - 20 as c1 sent most messages + 5 for two clients.
    assert_eq!(analysis.health_score, 75);
}

#[test]
fn prepared_messages_are_filtered_and_in_time_order() {
    let replay = ChannelReplay::new("sensors".to_string()).with_filter(MessageFilter::NamePattern("temp".to_string()));
    let mut history = channel_history();
    history.reverse();
    let texts: Vec<Option<String>> = vec![None, None, None, None];
    let prepared = replay.prepare(&history, &texts);
    let times: Vec<Option<i64>> = prepared.iter().map(|m| m.timestamp).collect();
    assert_eq!(times, vec![Some(1000), Some(1500), Some(9000)]);

    let filtered = replay.apply_filters(&history, &texts);
    assert_eq!(filtered.len(), 3);
    assert_eq!(filtered[0].timestamp, Some(9000));

    let (result, analysis) = replay.analyze_prepared(&prepared);
    assert_eq!(result.messages_processed, 3);
    assert!(is_text(result.final_state.get("temp"), "22"));
    assert_eq!(*analysis.message_counts.get("temp").unwrap(), 3);
}

#[test]
fn checkpoint_quality_and_integrity() {
    let recovery = StateRecovery::new();
    let hour: i64 = 3_600_000;
    let now: i64 = 100 * hour;
    assert_eq!(recovery.calculate_checkpoint_quality(&snapshot(now - hour, 0), now), 100);
    assert_eq!(recovery.calculate_checkpoint_quality(&snapshot(now - 13 * hour, 0), now), 90);
    assert_eq!(recovery.calculate_checkpoint_quality(&snapshot(now - 30 * hour, 0), now), 80);
    let mut full = snapshot(now, 101);
    full.message_state.insert("a".to_string(), text("1"));
    full.presence_state.insert("p".to_string(), presence(PresenceAction::Enter, "p", 1));
    assert_eq!(recovery.calculate_checkpoint_quality(&full, now), 120);

    let mut state: StringMap<JsonValue> = StringMap::new();
    assert_eq!(recovery.validate_recovered_state(&state), 0);
    state.insert("a".to_string(), text("1"));
    state.insert("b".to_string(), JsonValue::Null);
    assert_eq!(recovery.validate_recovered_state(&state), 95);
}

fn recovery_with_checkpoints(strategy: RecoveryStrategy) -> StateRecovery {
    let mut options = RecoveryOptions::default();
    options.recovery_strategy = strategy;
    let mut recovery = StateRecovery::with_options(options);
    let now_secs: u64 = 1_700_000_000;
    let now_ms: i64 = 1_700_000_000_000;
    let mut older = snapshot(now_ms - 20_000, 0);
    older.message_state.insert("a".to_string(), text("1"));
    let id = recovery.add_checkpoint("ch", CheckpointReason::Manual, older, "h1".to_string(), 10, 1, now_ms, now_secs, 3);
    assert_eq!(id, "checkpoint_ch_1");
    let mut newer = snapshot(now_ms - 10_000, 200);
    newer.message_state.insert("a".to_string(), text("2"));
    recovery.add_checkpoint("ch", CheckpointReason::Scheduled, newer, "h2".to_string(), 10, 2, now_ms, now_secs, 3);
    recovery
}

#[test]
fn checkpoints_are_found_and_cleaned_up() {
    let recovery = recovery_with_checkpoints(RecoveryStrategy::LatestCheckpoint);
    let now_secs: u64 = 1_700_000_000;
    assert_eq!(recovery.checkpoints.len(), 2);
    assert_eq!(recovery.checkpoints[0].metadata.tags, vec!["auto".to_string()]);
    assert_eq!(recovery.checkpoints[0].metadata.quality_score, 110);
    assert_eq!(recovery.checkpoints[1].metadata.quality_score, 115);
    let latest = recovery.find_latest_valid_checkpoint("ch", now_secs).unwrap();
    assert_eq!(latest.id, "checkpoint_ch_2");
    let best = recovery.find_best_quality_checkpoint("ch", now_secs).unwrap();
    assert_eq!(best.id, "checkpoint_ch_2");
    assert!(recovery.find_latest_valid_checkpoint("other", now_secs).is_none());
    // A day and more later, none is young enough.
    assert!(recovery.find_latest_valid_checkpoint("ch", now_secs + 86_400 + 30).is_none());

    assert_eq!(recovery.get_recovery_state(now_secs), RecoveryState::Healthy);
    assert_eq!(recovery.get_recovery_state(now_secs + 7200), RecoveryState::Degraded);
    assert_eq!(StateRecovery::new().get_recovery_state(now_secs), RecoveryState::Degraded);

    let summary = recovery.recovery_summary(now_secs);
    assert_eq!(summary.total_checkpoints, 2);
    assert_eq!(summary.quality_sum, 225);
    assert_eq!(summary.latest_checkpoint_age_seconds, Some(10));
    assert_eq!(summary.recovery_state, RecoveryState::Healthy);

    let mut capped = recovery_with_checkpoints(RecoveryStrategy::LatestCheckpoint);
    capped.recovery_options.max_checkpoints = 1;
    capped.cleanup_old_checkpoints(now_secs);
    assert_eq!(capped.checkpoints.len(), 1);
    assert_eq!(capped.checkpoints[0].id, "checkpoint_ch_1");
    capped.cleanup_old_checkpoints(now_secs + 86_400 + 30);
    assert!(capped.checkpoints.is_empty());
}

#[test]
fn recovery_follows_its_plan() {
    let now_secs: u64 = 1_700_000_000;

    let latest = recovery_with_checkpoints(RecoveryStrategy::LatestCheckpoint);
    let plan = latest.plan_recovery("ch", now_secs);
    assert_eq!(plan, RecoveryPlan::UseCheckpoint(1));
    let done = latest.finish_recovery(plan, None, 12).ok().unwrap();
    assert!(done.success);
    assert_eq!(done.checkpoint_used, Some("checkpoint_ch_2".to_string()));
    assert!(is_text(done.recovered_state.get("a"), "2"));
    assert_eq!(done.metrics.confidence_score, 115);
    assert_eq!(done.metrics.recovery_time_ms, 12);
    assert_eq!(done.metrics.integrity_score, 100);

    let fallback = latest.plan_recovery("other", now_secs);
    assert_eq!(fallback, RecoveryPlan::ReplayFallback { warn: true });
    let failed = latest.finish_recovery(fallback, Some(Err(AblyError::Network { message: "down".to_string(), retryable: true })), 0);
    assert!(failed.is_err());
    let replayed = latest
        .finish_recovery(fallback, Some(Ok(ReplayManager::new().replay_result(&channel_history(), None, 0))), 0)
        .ok()
        .unwrap();
    assert!(replayed.success);
    assert_eq!(replayed.metrics.confidence_score, 90);
    assert_eq!(replayed.metrics.messages_replayed, 4);
    assert_eq!(replayed.warnings, vec!["No valid checkpoint found, falling back to replay".to_string()]);

    let merge = recovery_with_checkpoints(RecoveryStrategy::MultiSourceMerge);
    let plan = merge.plan_recovery("ch", now_secs);
    assert_eq!(plan, RecoveryPlan::Merge(Some(1)));
    let mut replay = ReplayResult::failure("unused");
    replay.success = true;
    replay.final_state.insert("a".to_string(), text("3"));
    replay.final_state.insert("b".to_string(), text("4"));
    let merged = merge.finish_recovery(plan, Some(Ok(replay)), 0).ok().unwrap();
    assert!(is_text(merged.recovered_state.get("a"), "3"));
    assert!(is_text(merged.recovered_state.get("b"), "4"));
    assert_eq!(merged.metrics.confidence_score, 100);
    assert_eq!(merged.checkpoint_used, Some("checkpoint_ch_2".to_string()));

    let conservative = recovery_with_checkpoints(RecoveryStrategy::Conservative);
    assert_eq!(conservative.plan_recovery("other", now_secs), RecoveryPlan::Conservative(None));
    let none = conservative.finish_recovery(RecoveryPlan::Conservative(None), None, 0).ok().unwrap();
    assert!(!none.success);
    assert_eq!(none.warnings, vec!["No checkpoints available for conservative recovery".to_string()]);
}
