use antigravity_agent::clear::clear_database;
use antigravity_agent::config::{FieldConfig, ManagedField};
use antigravity_agent::error::{ErrorKind, Operation};
use antigravity_agent::marker::Marker;
use antigravity_agent::operation::{clear_all_antigravity_data, conclude, restore_all_antigravity_data, StorePair};
use antigravity_agent::restore::restore_database;
use antigravity_agent::snapshot::Snapshot;
use antigravity_agent::store::KeyStore;
use antigravity_agent::error::StateError;

const MARKER_KEY: &str = "__$__targetStorageMarker";
const NEW_STORAGE_KEY: &str = "__$__isNewStorageMarker";
const TIMESTAMP_KEY: &str = "antigravityAnalytics.lastUploadTime";

fn field(name: &str, default_flag: i64) -> ManagedField {
    ManagedField { name: name.to_string(), default_flag }
}

fn small_config() -> FieldConfig {
    FieldConfig::new(
        vec![
            field("authStatus", 1),
            field("profileUrl", 0),
            field("onboarding", 0),
            field(NEW_STORAGE_KEY, 1),
        ],
        MARKER_KEY.to_string(),
        NEW_STORAGE_KEY.to_string(),
        TIMESTAMP_KEY.to_string(),
    )
    .unwrap()
}

fn store_of(rows: &[(&str, &str)]) -> KeyStore {
    let mut store = KeyStore::new();
    for (key, value) in rows {
        store.upsert(key, value);
    }
    store
}

fn text(value: &str) -> Option<String> {
    Some(value.to_string())
}

#[test]
fn clear_removes_the_field_and_its_marker_entry() {
    let config = small_config();
    let mut store = store_of(&[
        ("authStatus", "{\"email\":\"a@b.com\"}"),
        ("other", "x"),
        (MARKER_KEY, "{\"authStatus\":1,\"other\":1}"),
    ]);
    let report = clear_database(&mut store, &config);
    assert_eq!(report.deleted, 1);
    assert!(report.marker_updated);
    assert!(report.skipped.is_empty());
    assert_eq!(store.read("authStatus"), None);
    assert_eq!(store.read("other"), text("x"));
    assert_eq!(store.read(MARKER_KEY), text("{\"other\":1}"));
}

#[test]
fn clear_removes_marker_entries_and_never_zeroes_them() {
    let config = small_config();
    let mut store = store_of(&[
        ("profileUrl", "u"),
        (MARKER_KEY, "{\"authStatus\":1,\"profileUrl\":0,\"zeta\":0}"),
    ]);
    let report = clear_database(&mut store, &config);
    assert_eq!(report.deleted, 1);
    let marker = Marker::parse(&store.read(MARKER_KEY).unwrap());
    assert_eq!(marker.flag("authStatus"), None);
    assert_eq!(marker.flag("profileUrl"), None);
    assert_eq!(marker.flag("zeta"), Some(0));
    assert_eq!(store.read(MARKER_KEY), text("{\"zeta\":0}"));
}

#[test]
fn clear_leaves_a_marker_that_tracks_no_managed_field() {
    let config = small_config();
    let mut store = store_of(&[("authStatus", "a"), (MARKER_KEY, "{ \"other\" : 1 }")]);
    let report = clear_database(&mut store, &config);
    assert_eq!(report.deleted, 1);
    assert!(!report.marker_updated);
    assert_eq!(store.read(MARKER_KEY), text("{ \"other\" : 1 }"));
}

#[test]
fn clear_of_a_store_without_marker_writes_none() {
    let config = small_config();
    let mut store = store_of(&[("authStatus", "a"), ("profileUrl", "b"), ("keep", "k")]);
    let report = clear_database(&mut store, &config);
    assert_eq!(report.deleted, 2);
    assert!(!report.marker_updated);
    assert_eq!(store.read(MARKER_KEY), None);
    assert_eq!(store.read("keep"), text("k"));
}

#[test]
fn clear_treats_an_unparsable_marker_as_empty() {
    let config = small_config();
    let mut store = store_of(&[("authStatus", "a"), (MARKER_KEY, "not json")]);
    let report = clear_database(&mut store, &config);
    assert_eq!(report.deleted, 1);
    assert!(!report.marker_updated);
    assert_eq!(store.read(MARKER_KEY), text("not json"));
}

#[test]
fn clear_twice_finds_nothing_the_second_time() {
    let config = small_config();
    let mut store = store_of(&[
        ("authStatus", "a"),
        ("onboarding", "true"),
        ("other", "x"),
        (MARKER_KEY, "{\"authStatus\":1,\"onboarding\":0,\"other\":1}"),
    ]);
    let first = clear_database(&mut store, &config);
    assert_eq!(first.deleted, 2);
    assert!(first.marker_updated);
    let second = clear_database(&mut store, &config);
    assert_eq!(second.deleted, 0);
    assert!(!second.marker_updated);
    assert_eq!(store.read(MARKER_KEY), text("{\"other\":1}"));
    assert_eq!(store.read("other"), text("x"));
}

#[test]
fn restore_takes_the_flag_from_the_snapshot() {
    let config = small_config();
    let snapshot_text =
        "{\"authStatus\":\"{\\\"email\\\":\\\"a@b.com\\\"}\",\"__$__targetStorageMarker\":{\"authStatus\":0}}";
    let snapshot = Snapshot::parse(snapshot_text, &config).unwrap();
    let mut store = KeyStore::new();
    let report = restore_database(&mut store, &snapshot, &config);
    assert_eq!(report.restored, 1);
    assert_eq!(report.entries.len(), 1);
    assert_eq!(report.entries[0].key, "authStatus");
    assert_eq!(report.entries[0].flag, 0);
    assert!(report.marker_updated);
    assert!(report.timestamp_reset);
    assert!(report.skipped.is_empty());
    assert_eq!(store.read("authStatus"), text("{\"email\":\"a@b.com\"}"));
    let marker = Marker::parse(&store.read(MARKER_KEY).unwrap());
    assert_eq!(marker.flag("authStatus"), Some(0));
    assert_eq!(store.read(MARKER_KEY), text("{\"authStatus\":0}"));
    assert_eq!(store.read(TIMESTAMP_KEY), text("0"));
}

#[test]
fn restore_falls_back_to_the_default_flag() {
    let config = small_config();
    let snapshot_text =
        "{\"profileUrl\":\"https://example.com/p.png\",\"authStatus\":\"{}\",\"__$__targetStorageMarker\":{\"onboarding\":1}}";
    let snapshot = Snapshot::parse(snapshot_text, &config).unwrap();
    let mut store = KeyStore::new();
    restore_database(&mut store, &snapshot, &config);
    let marker = Marker::parse(&store.read(MARKER_KEY).unwrap());
    assert_eq!(marker.flag("profileUrl"), Some(0));
    assert_eq!(marker.flag("authStatus"), Some(1));
    assert_eq!(marker.flag("onboarding"), None);
}

#[test]
fn restore_without_recorded_marker_uses_every_default() {
    let config = small_config();
    let snapshot = Snapshot::parse("{\"authStatus\":\"a\",\"onboarding\":\"true\"}", &config).unwrap();
    let mut store = KeyStore::new();
    restore_database(&mut store, &snapshot, &config);
    assert_eq!(store.read(MARKER_KEY), text("{\"authStatus\":1,\"onboarding\":0}"));
}

#[test]
fn restore_writes_only_the_fields_of_the_snapshot() {
    let config = small_config();
    let snapshot = Snapshot::parse("{\"profileUrl\":\"new\",\"unmanaged\":\"ignored\",\"onboarding\":7}", &config).unwrap();
    let mut store = store_of(&[
        ("authStatus", "old-auth"),
        ("profileUrl", "old-url"),
        ("onboarding", "old-onboarding"),
        ("other", "x"),
        (MARKER_KEY, "{\"authStatus\":1,\"other\":1}"),
    ]);
    let report = restore_database(&mut store, &snapshot, &config);
    assert_eq!(report.restored, 1);
    assert_eq!(store.read("authStatus"), text("old-auth"));
    assert_eq!(store.read("profileUrl"), text("new"));
    assert_eq!(store.read("onboarding"), text("old-onboarding"));
    assert_eq!(store.read("other"), text("x"));
    assert_eq!(store.read("unmanaged"), None);
    assert_eq!(store.read(MARKER_KEY), text("{\"authStatus\":1,\"other\":1,\"profileUrl\":0}"));
    assert_eq!(store.read(TIMESTAMP_KEY), text("0"));
}

#[test]
fn restore_never_enters_the_new_storage_key() {
    let config = small_config();
    let snapshot_text = "{\"__$__isNewStorageMarker\":\"true\",\"__$__targetStorageMarker\":{\"__$__isNewStorageMarker\":1}}";
    let snapshot = Snapshot::parse(snapshot_text, &config).unwrap();
    let mut store = store_of(&[(MARKER_KEY, "{\"other\":1}")]);
    let report = restore_database(&mut store, &snapshot, &config);
    assert_eq!(report.restored, 1);
    assert!(report.entries.is_empty());
    assert!(!report.marker_updated);
    assert!(report.timestamp_reset);
    assert_eq!(store.read(NEW_STORAGE_KEY), text("true"));
    assert_eq!(store.read(MARKER_KEY), text("{\"other\":1}"));
    assert_eq!(store.read(TIMESTAMP_KEY), text("0"));
}

#[test]
fn restore_of_an_empty_snapshot_only_resets_the_timestamp() {
    let config = small_config();
    let snapshot = Snapshot::parse("{}", &config).unwrap();
    let mut store = store_of(&[("authStatus", "a"), (TIMESTAMP_KEY, "1700000000")]);
    let report = restore_database(&mut store, &snapshot, &config);
    assert_eq!(report.restored, 0);
    assert!(!report.marker_updated);
    assert!(report.timestamp_reset);
    assert_eq!(store.read("authStatus"), text("a"));
    assert_eq!(store.read(MARKER_KEY), None);
    assert_eq!(store.read(TIMESTAMP_KEY), text("0"));
}

#[test]
fn restore_overwrites_the_flag_that_the_store_had() {
    let config = small_config();
    let snapshot = Snapshot::parse("{\"authStatus\":\"a\",\"__$__targetStorageMarker\":{\"authStatus\":0}}", &config).unwrap();
    let mut store = store_of(&[(MARKER_KEY, "{\"authStatus\":1,\"other\":1}")]);
    restore_database(&mut store, &snapshot, &config);
    assert_eq!(store.read(MARKER_KEY), text("{\"authStatus\":0,\"other\":1}"));
}

#[test]
fn restore_then_clear_empties_the_managed_fields_each_time() {
    let config = small_config();
    let snapshot_text = "{\"authStatus\":\"a\",\"profileUrl\":\"p\",\"__$__targetStorageMarker\":{\"authStatus\":1}}";
    let snapshot = Snapshot::parse(snapshot_text, &config).unwrap();
    let mut store = store_of(&[("other", "x"), (MARKER_KEY, "{\"other\":1}")]);
    let mut cycle = 0;
    while cycle < 3 {
        let restored = restore_database(&mut store, &snapshot, &config);
        assert_eq!(restored.restored, 2);
        assert_eq!(store.read("authStatus"), text("a"));
        assert_eq!(store.read("profileUrl"), text("p"));
        assert_eq!(store.read(MARKER_KEY), text("{\"authStatus\":1,\"other\":1,\"profileUrl\":0}"));
        let cleared = clear_database(&mut store, &config);
        assert_eq!(cleared.deleted, 2);
        assert_eq!(store.read("authStatus"), None);
        assert_eq!(store.read("profileUrl"), None);
        assert_eq!(store.read("onboarding"), None);
        assert_eq!(store.read(NEW_STORAGE_KEY), None);
        assert_eq!(store.read("other"), text("x"));
        assert_eq!(store.read(MARKER_KEY), text("{\"other\":1}"));
        cycle += 1;
    }
}

#[test]
fn unparsable_snapshot_is_a_parse_error() {
    let config = small_config();
    let error = Snapshot::parse("{\"authStatus\": ", &config).err().unwrap();
    assert_eq!(error.kind, ErrorKind::Parse);
    assert_eq!(error.operation, Operation::Restore);
    assert!(error.key.is_none());
    assert!(error.cause.contains("line 1"));
}

#[test]
fn unparsable_snapshot_touches_no_store() {
    let config = small_config();
    let rows = [("authStatus", "a"), ("other", "x"), (MARKER_KEY, "{\"authStatus\":1}"), (TIMESTAMP_KEY, "17")];
    let mut stores = StorePair { primary: store_of(&rows), replica: Some(store_of(&rows)) };
    let outcome = restore_all_antigravity_data(&mut stores, "{\"authStatus\":\"b\"", &config);
    let error = outcome.err().unwrap();
    assert_eq!(error.kind, ErrorKind::Parse);
    for (key, value) in rows {
        assert_eq!(stores.primary.read(key), text(value));
        assert_eq!(stores.replica.as_ref().unwrap().read(key), text(value));
    }
}

#[test]
fn restore_all_restores_the_replica_by_itself() {
    let config = small_config();
    let mut stores = StorePair {
        primary: store_of(&[(MARKER_KEY, "{\"other\":1}")]),
        replica: Some(store_of(&[("authStatus", "stale"), (MARKER_KEY, "{\"replica\":1}")])),
    };
    let summary = restore_all_antigravity_data(&mut stores, "{\"authStatus\":\"a\"}", &config).unwrap();
    assert_eq!(summary.primary.restored, 1);
    assert_eq!(summary.replica.as_ref().unwrap().restored, 1);
    assert!(summary.replica_error.is_none());
    assert_eq!(stores.primary.read(MARKER_KEY), text("{\"authStatus\":1,\"other\":1}"));
    let replica = stores.replica.as_ref().unwrap();
    assert_eq!(replica.read("authStatus"), text("a"));
    assert_eq!(replica.read(MARKER_KEY), text("{\"authStatus\":1,\"replica\":1}"));
}

#[test]
fn restore_all_without_replica() {
    let config = small_config();
    let mut stores = StorePair { primary: KeyStore::new(), replica: None };
    let summary = restore_all_antigravity_data(&mut stores, "{\"profileUrl\":\"p\"}", &config).unwrap();
    assert_eq!(summary.primary.restored, 1);
    assert!(summary.replica.is_none());
    assert!(stores.replica.is_none());
    assert_eq!(stores.primary.read("profileUrl"), text("p"));
}

#[test]
fn clear_all_clears_both_stores() {
    let config = small_config();
    let mut stores = StorePair {
        primary: store_of(&[("authStatus", "a"), ("profileUrl", "p"), (MARKER_KEY, "{\"authStatus\":1}")]),
        replica: Some(store_of(&[("authStatus", "a"), ("other", "x")])),
    };
    let summary = clear_all_antigravity_data(&mut stores, &config);
    assert_eq!(summary.primary.deleted, 2);
    assert!(summary.primary.marker_updated);
    assert_eq!(summary.replica.as_ref().unwrap().deleted, 1);
    assert!(summary.replica_error.is_none());
    assert_eq!(stores.primary.read("authStatus"), None);
    assert_eq!(stores.primary.read(MARKER_KEY), text("{}"));
    assert_eq!(stores.replica.as_ref().unwrap().read("authStatus"), None);
    assert_eq!(stores.replica.as_ref().unwrap().read("other"), text("x"));
}

fn failure(kind: ErrorKind, cause: &str) -> StateError {
    StateError { kind, operation: Operation::Clear, key: Some("state.vscdb".to_string()), cause: cause.to_string() }
}

#[test]
fn errors_are_told_apart_by_their_kind() {
    let missing = StateError::not_found(Operation::Restore, Some("/tmp/a.json".to_string()), "备份文件不存在".to_string());
    assert_eq!(missing.kind, ErrorKind::NotFound);
    assert_eq!(missing.operation, Operation::Restore);
    assert_eq!(missing.key, Some("/tmp/a.json".to_string()));
    assert_eq!(missing.cause, "备份文件不存在");
    let nowhere = StateError::not_found(Operation::Clear, None, "未找到 Antigravity 安装位置".to_string());
    assert_eq!(nowhere.key, None);
    let unreadable = StateError::io(Operation::Restore, "/tmp/a.json".to_string(), "permission denied".to_string());
    assert_eq!(unreadable.kind, ErrorKind::Io);
    assert_eq!(unreadable.key, Some("/tmp/a.json".to_string()));
    let locked = StateError::unopened(Operation::Clear, "state.vscdb".to_string(), true, "database is locked".to_string());
    assert_eq!(locked.kind, ErrorKind::Io);
    assert_eq!(locked.cause, "database is locked");
    let absent = StateError::unopened(Operation::Clear, "state.vscdb".to_string(), false, "unable to open".to_string());
    assert_eq!(absent.kind, ErrorKind::NotFound);
    assert_eq!(absent.operation, Operation::Clear);
}

#[test]
fn restore_twice_changes_nothing_more() {
    let config = small_config();
    let snapshot = Snapshot::parse("{\"authStatus\":\"a\",\"__$__targetStorageMarker\":{\"authStatus\":0}}", &config).unwrap();
    let mut store = store_of(&[("other", "x"), (MARKER_KEY, "{\"other\":1}")]);
    restore_database(&mut store, &snapshot, &config);
    let first = [store.read("authStatus"), store.read("other"), store.read(MARKER_KEY), store.read(TIMESTAMP_KEY)];
    let again = restore_database(&mut store, &snapshot, &config);
    assert_eq!(again.restored, 1);
    let second = [store.read("authStatus"), store.read("other"), store.read(MARKER_KEY), store.read(TIMESTAMP_KEY)];
    assert_eq!(first, second);
    assert_eq!(store.read(MARKER_KEY), text("{\"authStatus\":0,\"other\":1}"));
}

#[test]
fn an_operation_fails_only_with_its_primary_store() {
    let failed: Result<u32, StateError> = Err(failure(ErrorKind::NotFound, "missing"));
    let outcome = conclude(failed, Some(Ok(4)));
    assert_eq!(outcome, Err(failure(ErrorKind::NotFound, "missing")));
}

#[test]
fn a_failing_replica_is_put_on_record() {
    let outcome = conclude(Ok(3u32), Some(Err(failure(ErrorKind::Io, "database is locked")))).unwrap();
    assert_eq!(outcome.primary, 3);
    assert_eq!(outcome.replica, None);
    assert_eq!(outcome.replica_error, Some(failure(ErrorKind::Io, "database is locked")));
}

#[test]
fn an_operation_reports_both_stores() {
    let outcome = conclude(Ok(3u32), Some(Ok(1))).unwrap();
    assert_eq!(outcome.primary, 3);
    assert_eq!(outcome.replica, Some(1));
    assert_eq!(outcome.replica_error, None);
    let alone = conclude(Ok(2u32), None).unwrap();
    assert_eq!(alone.primary, 2);
    assert_eq!(alone.replica, None);
    assert_eq!(alone.replica_error, None);
}
