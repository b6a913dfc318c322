use antigravity_agent::clear::{ClearSession, ClearStage};
use antigravity_agent::config::{FieldConfig, ManagedField};
use antigravity_agent::error::{Skipped, Step};
use antigravity_agent::marker::FlagEntry;
use antigravity_agent::restore::{plan_restore, FieldWrite, RestoreSession};
use antigravity_agent::snapshot::Snapshot;
use antigravity_agent::store::{KeyStore, StoreCommand, StoreReply};

fn config() -> FieldConfig {
    FieldConfig::new(
        vec![
            ManagedField { name: "authStatus".to_string(), default_flag: 0 },
            ManagedField { name: "profileUrl".to_string(), default_flag: 0 },
            ManagedField { name: "settings".to_string(), default_flag: 1 },
            ManagedField { name: "newStorage".to_string(), default_flag: 1 },
        ],
        "marker".to_string(),
        "newStorage".to_string(),
        "lastUpload".to_string(),
    )
    .unwrap()
}

fn delete(key: &str) -> Option<StoreCommand> {
    Some(StoreCommand::Delete { key: key.to_string() })
}

fn read(key: &str) -> Option<StoreCommand> {
    Some(StoreCommand::Read { key: key.to_string() })
}

fn upsert(key: &str, value: &str) -> Option<StoreCommand> {
    Some(StoreCommand::Upsert { key: key.to_string(), value: value.to_string() })
}

fn failed(cause: &str) -> StoreReply {
    StoreReply::Failed { cause: cause.to_string() }
}

fn value(text: &str) -> StoreReply {
    StoreReply::Value { value: Some(text.to_string()) }
}

fn skipped(step: Step, key: &str, cause: &str) -> Skipped {
    Skipped { step, key: key.to_string(), cause: cause.to_string() }
}

#[test]
fn clear_session_gives_its_commands_in_order() {
    let mut session = ClearSession::new(&config());
    assert_eq!(session.command(), delete("authStatus"));
    session = session.advance(StoreReply::Deleted { removed: true });
    assert_eq!(session.command(), delete("profileUrl"));
    session = session.advance(StoreReply::Deleted { removed: false });
    assert_eq!(session.command(), delete("settings"));
    session = session.advance(StoreReply::Deleted { removed: true });
    assert_eq!(session.command(), delete("newStorage"));
    session = session.advance(StoreReply::Deleted { removed: false });
    assert_eq!(session.command(), read("marker"));
    session = session.advance(value("{\"authStatus\":1,\"settings\":1,\"theme\":1}"));
    assert_eq!(session.command(), upsert("marker", "{\"theme\":1}"));
    assert!(!session.is_finished());
    session = session.advance(StoreReply::Stored);
    assert!(session.is_finished());
    assert_eq!(session.command(), None);
    let report = session.report();
    assert_eq!(report.deleted, 2);
    assert!(report.marker_updated);
    assert!(report.skipped.is_empty());
}

#[test]
fn clear_session_passes_over_a_failed_delete() {
    let mut session = ClearSession::new(&config());
    session = session.advance(failed("database is locked"));
    assert_eq!(session.command(), delete("profileUrl"));
    session = session.advance(StoreReply::Deleted { removed: true });
    session = session.advance(StoreReply::Deleted { removed: true });
    session = session.advance(StoreReply::Deleted { removed: true });
    session = session.advance(StoreReply::Value { value: None });
    assert!(session.is_finished());
    let report = session.report();
    assert_eq!(report.deleted, 3);
    assert!(!report.marker_updated);
    assert_eq!(report.skipped, vec![skipped(Step::DeleteField, "authStatus", "database is locked")]);
}

#[test]
fn clear_session_leaves_a_marker_that_cannot_be_read() {
    let mut session = ClearSession::new(&config());
    for _ in 0..4 {
        session = session.advance(StoreReply::Deleted { removed: false });
    }
    assert_eq!(session.command(), read("marker"));
    session = session.advance(failed("disk I/O error"));
    assert!(session.is_finished());
    let report = session.report();
    assert_eq!(report.deleted, 0);
    assert!(!report.marker_updated);
    assert_eq!(report.skipped, vec![skipped(Step::ReadMarker, "marker", "disk I/O error")]);
}

#[test]
fn clear_session_records_a_marker_that_cannot_be_written() {
    let mut session = ClearSession::new(&config());
    for _ in 0..4 {
        session = session.advance(StoreReply::Deleted { removed: true });
    }
    session = session.advance(value("{\"profileUrl\":0}"));
    assert_eq!(session.command(), upsert("marker", "{}"));
    session = session.advance(failed("database is locked"));
    assert!(session.is_finished());
    let report = session.report();
    assert_eq!(report.deleted, 4);
    assert!(!report.marker_updated);
    assert_eq!(report.skipped, vec![skipped(Step::WriteMarker, "marker", "database is locked")]);
}

#[test]
fn clear_session_counts_a_reply_of_the_wrong_kind_as_a_failure() {
    let mut session = ClearSession::new(&config());
    session = session.advance(StoreReply::Stored);
    assert_eq!(session.command(), delete("profileUrl"));
    for _ in 0..3 {
        session = session.advance(StoreReply::Deleted { removed: false });
    }
    session = session.advance(StoreReply::Deleted { removed: true });
    assert!(session.is_finished());
    let report = session.report();
    assert_eq!(report.deleted, 0);
    assert_eq!(
        report.skipped,
        vec![
            skipped(Step::DeleteField, "authStatus", "unexpected reply"),
            skipped(Step::ReadMarker, "marker", "unexpected reply"),
        ]
    );
}

#[test]
fn clear_session_ignores_replies_after_its_end() {
    let mut session = ClearSession::new(&config());
    for _ in 0..4 {
        session = session.advance(StoreReply::Deleted { removed: true });
    }
    session = session.advance(StoreReply::Value { value: None });
    assert!(session.is_finished());
    session = session.advance(failed("late"));
    session = session.advance(StoreReply::Deleted { removed: true });
    assert!(session.is_finished());
    let report = session.report();
    assert_eq!(report.deleted, 4);
    assert!(report.skipped.is_empty());
}

#[test]
fn clear_session_without_fields_reads_the_marker_at_once() {
    let empty = FieldConfig::new(vec![], "marker".to_string(), "newStorage".to_string(), "lastUpload".to_string()).unwrap();
    let mut session = ClearSession::new(&empty);
    assert_eq!(session.command(), read("marker"));
    session = session.advance(value("{\"authStatus\":1}"));
    assert!(session.is_finished());
    let report = session.report();
    assert_eq!(report.deleted, 0);
    assert!(!report.marker_updated);
}

#[test]
fn clear_stage_is_comparable() {
    assert_eq!(ClearStage::Deleting, ClearStage::Deleting);
    assert_ne!(ClearStage::Deleting, ClearStage::Finished);
}

const SNAPSHOT: &str = "{\"authStatus\":\"token\",\"settings\":\"{}\",\"newStorage\":\"true\",\"profileUrl\":17,\"marker\":{\"authStatus\":1,\"newStorage\":1}}";

#[test]
fn restore_plan_lists_the_string_fields_with_their_flags() {
    let config = config();
    let snapshot = Snapshot::parse(SNAPSHOT, &config).unwrap();
    let plan = plan_restore(&snapshot, &config);
    assert_eq!(
        plan,
        vec![
            FieldWrite { key: "authStatus".to_string(), value: "token".to_string(), flag: 1, registered: true },
            FieldWrite { key: "settings".to_string(), value: "{}".to_string(), flag: 1, registered: true },
            FieldWrite { key: "newStorage".to_string(), value: "true".to_string(), flag: 1, registered: false },
        ]
    );
}

#[test]
fn restore_session_gives_its_commands_in_order() {
    let config = config();
    let snapshot = Snapshot::parse(SNAPSHOT, &config).unwrap();
    let mut session = RestoreSession::new(&snapshot, &config);
    assert_eq!(session.command(), upsert("authStatus", "token"));
    session = session.advance(StoreReply::Stored);
    assert_eq!(session.command(), upsert("settings", "{}"));
    session = session.advance(StoreReply::Stored);
    assert_eq!(session.command(), upsert("newStorage", "true"));
    session = session.advance(StoreReply::Stored);
    assert_eq!(session.command(), read("marker"));
    session = session.advance(value("{\"theme\":1,\"authStatus\":0}"));
    assert_eq!(session.command(), upsert("marker", "{\"authStatus\":1,\"settings\":1,\"theme\":1}"));
    session = session.advance(StoreReply::Stored);
    assert_eq!(session.command(), upsert("lastUpload", "0"));
    assert!(!session.is_finished());
    session = session.advance(StoreReply::Stored);
    assert!(session.is_finished());
    assert_eq!(session.command(), None);
    let report = session.report();
    assert_eq!(report.restored, 3);
    assert_eq!(
        report.entries,
        vec![
            FlagEntry { key: "authStatus".to_string(), flag: 1 },
            FlagEntry { key: "settings".to_string(), flag: 1 },
        ]
    );
    assert!(report.marker_updated);
    assert!(report.timestamp_reset);
    assert!(report.skipped.is_empty());
}

#[test]
fn restore_session_enters_only_the_fields_that_were_written() {
    let config = config();
    let snapshot = Snapshot::parse(SNAPSHOT, &config).unwrap();
    let mut session = RestoreSession::new(&snapshot, &config);
    session = session.advance(failed("database is locked"));
    session = session.advance(StoreReply::Stored);
    session = session.advance(StoreReply::Stored);
    assert_eq!(session.command(), read("marker"));
    session = session.advance(StoreReply::Value { value: None });
    assert_eq!(session.command(), upsert("marker", "{\"settings\":1}"));
    session = session.advance(StoreReply::Stored);
    session = session.advance(StoreReply::Stored);
    let report = session.report();
    assert_eq!(report.restored, 2);
    assert_eq!(report.entries, vec![FlagEntry { key: "settings".to_string(), flag: 1 }]);
    assert_eq!(report.skipped, vec![skipped(Step::WriteField, "authStatus", "database is locked")]);
}

#[test]
fn restore_session_skips_the_marker_when_no_field_is_entered() {
    let config = config();
    let snapshot = Snapshot::parse(SNAPSHOT, &config).unwrap();
    let mut session = RestoreSession::new(&snapshot, &config);
    session = session.advance(failed("a"));
    session = session.advance(failed("b"));
    session = session.advance(StoreReply::Stored);
    assert_eq!(session.command(), upsert("lastUpload", "0"));
    session = session.advance(StoreReply::Stored);
    assert!(session.is_finished());
    let report = session.report();
    assert_eq!(report.restored, 1);
    assert!(report.entries.is_empty());
    assert!(!report.marker_updated);
    assert!(report.timestamp_reset);
    assert_eq!(
        report.skipped,
        vec![skipped(Step::WriteField, "authStatus", "a"), skipped(Step::WriteField, "settings", "b")]
    );
}

#[test]
fn restore_session_starts_a_new_marker_when_the_row_cannot_be_read() {
    let config = config();
    let snapshot = Snapshot::parse(SNAPSHOT, &config).unwrap();
    let mut session = RestoreSession::new(&snapshot, &config);
    for _ in 0..3 {
        session = session.advance(StoreReply::Stored);
    }
    session = session.advance(failed("disk I/O error"));
    assert_eq!(session.command(), upsert("marker", "{\"authStatus\":1,\"settings\":1}"));
    session = session.advance(failed("database is locked"));
    assert_eq!(session.command(), upsert("lastUpload", "0"));
    session = session.advance(failed("database is locked"));
    assert!(session.is_finished());
    let report = session.report();
    assert_eq!(report.restored, 3);
    assert!(!report.marker_updated);
    assert!(!report.timestamp_reset);
    assert_eq!(
        report.skipped,
        vec![
            skipped(Step::ReadMarker, "marker", "disk I/O error"),
            skipped(Step::WriteMarker, "marker", "database is locked"),
            skipped(Step::ResetTimestamp, "lastUpload", "database is locked"),
        ]
    );
}

#[test]
fn restore_session_of_an_empty_snapshot_resets_the_timestamp() {
    let config = config();
    let snapshot = Snapshot::parse("[1, 2]", &config).unwrap();
    let mut session = RestoreSession::new(&snapshot, &config);
    assert_eq!(session.command(), upsert("lastUpload", "0"));
    session = session.advance(StoreReply::Stored);
    assert!(session.is_finished());
    let report = session.report();
    assert_eq!(report.restored, 0);
    assert!(report.timestamp_reset);
}

#[test]
fn restore_session_treats_an_unparsable_marker_as_empty() {
    let config = config();
    let snapshot = Snapshot::parse("{\"profileUrl\":\"u\"}", &config).unwrap();
    let mut session = RestoreSession::new(&snapshot, &config);
    session = session.advance(StoreReply::Stored);
    session = session.advance(value("{\"theme\":"));
    assert_eq!(session.command(), upsert("marker", "{\"profileUrl\":0}"));
}

#[test]
fn sessions_run_on_a_table_in_memory() {
    let config = config();
    let snapshot = Snapshot::parse(SNAPSHOT, &config).unwrap();
    let mut store = KeyStore::new();
    store.upsert("theme", "dark");
    let mut restore = RestoreSession::new(&snapshot, &config);
    while let Some(command) = restore.command() {
        let reply = store.apply(&command);
        restore = restore.advance(reply);
    }
    assert_eq!(store.read("authStatus"), Some("token".to_string()));
    assert_eq!(store.read("marker"), Some("{\"authStatus\":1,\"settings\":1}".to_string()));
    let mut clear = ClearSession::new(&config);
    while let Some(command) = clear.command() {
        let reply = store.apply(&command);
        clear = clear.advance(reply);
    }
    assert_eq!(clear.report().deleted, 3);
    assert_eq!(store.read("authStatus"), None);
    assert_eq!(store.read("marker"), Some("{}".to_string()));
    assert_eq!(store.read("theme"), Some("dark".to_string()));
    assert_eq!(store.read("lastUpload"), Some("0".to_string()));
}
