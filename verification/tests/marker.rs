use antigravity_agent::config::{ConfigError, FieldConfig, ManagedField};
use antigravity_agent::marker::{
    enter_flags_into_marker, get_marker_flag_from_backup, remove_keys_from_marker, FlagEntry, Marker, MarkerUpdate,
};
use antigravity_agent::snapshot::Snapshot;
use antigravity_agent::store::{KeyStore, StoreCommand, StoreReply};
use antigravity_agent::text::same_text;

fn field(name: &str, default_flag: i64) -> ManagedField {
    ManagedField { name: name.to_string(), default_flag }
}

fn config_of(fields: Vec<ManagedField>, marker: &str, timestamp: &str) -> Result<FieldConfig, ConfigError> {
    FieldConfig::new(fields, marker.to_string(), "newStorage".to_string(), timestamp.to_string())
}

fn config() -> FieldConfig {
    config_of(vec![field("authStatus", 0), field("settings", 1), field("newStorage", 1)], "marker", "lastUpload").unwrap()
}

fn keys(list: &[&str]) -> Vec<String> {
    list.iter().map(|k| k.to_string()).collect()
}

#[test]
fn config_refuses_a_field_that_is_defined_twice() {
    let refused = config_of(vec![field("a", 0), field("b", 1), field("a", 1)], "marker", "lastUpload");
    assert_eq!(refused.err(), Some(ConfigError::DuplicateField));
}

#[test]
fn config_refuses_a_flag_that_is_neither_0_nor_1() {
    let refused = config_of(vec![field("a", 0), field("b", 2)], "marker", "lastUpload");
    assert_eq!(refused.err(), Some(ConfigError::InvalidFlag));
    let negative = config_of(vec![field("a", -1)], "marker", "lastUpload");
    assert_eq!(negative.err(), Some(ConfigError::InvalidFlag));
}

#[test]
fn config_refuses_reserved_keys_that_clash() {
    assert_eq!(config_of(vec![field("marker", 0)], "marker", "lastUpload").err(), Some(ConfigError::ReservedKeyClash));
    assert_eq!(config_of(vec![field("lastUpload", 0)], "marker", "lastUpload").err(), Some(ConfigError::ReservedKeyClash));
    assert_eq!(config_of(vec![field("a", 0)], "same", "same").err(), Some(ConfigError::ReservedKeyClash));
}

#[test]
fn config_reports_the_first_fault() {
    let refused = config_of(vec![field("marker", 5), field("marker", 0)], "marker", "marker");
    assert_eq!(refused.err(), Some(ConfigError::DuplicateField));
    let flag_first = config_of(vec![field("marker", 5)], "marker", "marker");
    assert_eq!(flag_first.err(), Some(ConfigError::InvalidFlag));
}

#[test]
fn config_answers_for_its_fields() {
    let config = config();
    assert_eq!(config.len(), 3);
    assert_eq!(config.field_name(0), "authStatus");
    assert_eq!(config.field_name(2), "newStorage");
    assert_eq!(config.names(), keys(&["authStatus", "settings", "newStorage"]));
    assert_eq!(config.marker_key(), "marker");
    assert_eq!(config.new_storage_key(), "newStorage");
    assert_eq!(config.timestamp_key(), "lastUpload");
    assert!(config.is_managed("settings"));
    assert!(!config.is_managed("marker"));
    assert!(!config.is_managed("Settings"));
    assert_eq!(config.default_flag("authStatus"), 0);
    assert_eq!(config.default_flag("settings"), 1);
    assert_eq!(config.default_flag("unlisted"), 1);
    assert!(config.registers("authStatus"));
    assert!(!config.registers("newStorage"));
}

#[test]
fn standard_config_has_the_documented_defaults() {
    let config = FieldConfig::standard();
    assert_eq!(config.len(), 8);
    assert_eq!(config.marker_key(), "__$__targetStorageMarker");
    assert_eq!(config.new_storage_key(), "__$__isNewStorageMarker");
    assert_eq!(config.timestamp_key(), "antigravityAnalytics.lastUploadTime");
    assert_eq!(config.default_flag("antigravityAuthStatus"), 0);
    assert_eq!(config.default_flag("antigravity.profileUrl"), 0);
    assert_eq!(config.default_flag("antigravityOnboarding"), 0);
    assert_eq!(config.default_flag("antigravity_allowed_command_model_configs"), 0);
    assert_eq!(config.default_flag("antigravityUserSettings.allUserSettings"), 1);
    assert_eq!(config.default_flag("jetskiStateSync.agentManagerInitState"), 1);
    assert_eq!(config.default_flag("google.antigravity"), 1);
    assert_eq!(config.default_flag("anything else"), 1);
    assert!(config.is_managed("__$__isNewStorageMarker"));
    assert!(!config.registers("__$__isNewStorageMarker"));
}

#[test]
fn same_text_compares_by_characters() {
    assert!(same_text("", ""));
    assert!(same_text("marker", "marker"));
    assert!(same_text("日志", "日志"));
    assert!(!same_text("marker", "Marker"));
    assert!(!same_text("marker", "marke"));
    assert!(!same_text("", "a"));
    assert!(!same_text("日志", "日忘"));
}

#[test]
fn new_marker_has_no_entry() {
    let marker = Marker::new();
    assert_eq!(marker.flag("authStatus"), None);
    assert_eq!(marker.render(), Ok("{}".to_string()));
}

#[test]
fn marker_parse_reads_the_entries() {
    let marker = Marker::parse("{\"authStatus\": 1, \"settings\": 0, \"big\": 9223372036854775807}");
    assert_eq!(marker.flag("authStatus"), Some(1));
    assert_eq!(marker.flag("settings"), Some(0));
    assert_eq!(marker.flag("big"), Some(i64::MAX));
    assert_eq!(marker.flag("absent"), None);
}

#[test]
fn marker_parse_takes_what_is_no_object_for_empty() {
    for text in ["", "not json", "[1,2]", "\"text\"", "17", "null", "{\"a\":"] {
        let marker = Marker::parse(text);
        assert_eq!(marker.render(), Ok("{}".to_string()));
    }
}

#[test]
fn marker_flag_is_none_for_what_is_no_integer() {
    let marker = Marker::parse("{\"a\":\"1\",\"b\":1.0,\"c\":true,\"d\":null,\"e\":18446744073709551615,\"f\":-3}");
    assert_eq!(marker.flag("a"), None);
    assert_eq!(marker.flag("b"), None);
    assert_eq!(marker.flag("c"), None);
    assert_eq!(marker.flag("d"), None);
    assert_eq!(marker.flag("e"), None);
    assert_eq!(marker.flag("f"), Some(-3));
}

#[test]
fn marker_set_flag_enters_and_replaces() {
    let mut marker = Marker::parse("{\"a\":1}");
    marker.set_flag("b", 0);
    marker.set_flag("a", 0);
    assert_eq!(marker.flag("a"), Some(0));
    assert_eq!(marker.flag("b"), Some(0));
    assert_eq!(marker.render(), Ok("{\"a\":0,\"b\":0}".to_string()));
}

#[test]
fn marker_remove_says_whether_anything_changed() {
    let mut marker = Marker::parse("{\"authStatus\":1,\"theme\":1}");
    assert!(marker.remove(&keys(&["settings", "authStatus"])));
    assert_eq!(marker.render(), Ok("{\"theme\":1}".to_string()));
    assert!(!marker.remove(&keys(&["settings", "authStatus"])));
    assert!(!marker.remove(&keys(&[])));
    assert_eq!(marker.render(), Ok("{\"theme\":1}".to_string()));
}

#[test]
fn marker_remove_keeps_entries_of_any_shape() {
    let mut marker = Marker::parse("{\"authStatus\":1,\"odd\":{\"nested\":[1,\"x\",null]},\"text\":\"t\"}");
    assert!(marker.remove(&keys(&["authStatus"])));
    assert_eq!(marker.render(), Ok("{\"odd\":{\"nested\":[1,\"x\",null]},\"text\":\"t\"}".to_string()));
}

#[test]
fn marker_merge_prefers_the_recorded_flag() {
    let config = config();
    let recorded = Marker::parse("{\"authStatus\":1,\"settings\":0}");
    let mut marker = Marker::parse("{\"theme\":1,\"authStatus\":0}");
    marker.merge(Some(&recorded), &keys(&["authStatus", "settings"]), &config);
    assert_eq!(marker.render(), Ok("{\"authStatus\":1,\"settings\":0,\"theme\":1}".to_string()));
}

#[test]
fn marker_merge_falls_back_to_the_default() {
    let config = config();
    let recorded = Marker::parse("{\"authStatus\":\"yes\"}");
    let mut marker = Marker::new();
    marker.merge(Some(&recorded), &keys(&["authStatus", "settings", "unlisted"]), &config);
    assert_eq!(marker.flag("authStatus"), Some(0));
    assert_eq!(marker.flag("settings"), Some(1));
    assert_eq!(marker.flag("unlisted"), Some(1));
    let mut bare = Marker::new();
    bare.merge(None, &keys(&["authStatus", "settings"]), &config);
    assert_eq!(bare.render(), Ok("{\"authStatus\":0,\"settings\":1}".to_string()));
}

#[test]
fn marker_merge_never_enters_the_new_storage_key() {
    let config = config();
    let recorded = Marker::parse("{\"newStorage\":1}");
    let mut marker = Marker::parse("{\"theme\":1}");
    marker.merge(Some(&recorded), &keys(&["newStorage"]), &config);
    assert_eq!(marker.flag("newStorage"), None);
    assert_eq!(marker.render(), Ok("{\"theme\":1}".to_string()));
}

#[test]
fn marker_merge_writes_the_exact_flag() {
    let config = config();
    let recorded = Marker::parse("{\"authStatus\":5000000000,\"settings\":-1}");
    let mut marker = Marker::new();
    marker.merge(Some(&recorded), &keys(&["authStatus", "settings"]), &config);
    assert_eq!(marker.flag("authStatus"), Some(5_000_000_000));
    assert_eq!(marker.flag("settings"), Some(-1));
}

#[test]
fn marker_enter_takes_the_later_of_two_flags() {
    let mut marker = Marker::parse("{\"theme\":1}");
    marker.enter(&vec![
        FlagEntry { key: "a".to_string(), flag: 1 },
        FlagEntry { key: "b".to_string(), flag: 0 },
        FlagEntry { key: "a".to_string(), flag: 0 },
    ]);
    assert_eq!(marker.render(), Ok("{\"a\":0,\"b\":0,\"theme\":1}".to_string()));
}

#[test]
fn flag_from_backup_prefers_what_was_recorded() {
    let config = config();
    let recorded = Marker::parse("{\"authStatus\":1,\"settings\":0,\"odd\":\"x\"}");
    assert_eq!(get_marker_flag_from_backup(Some(&recorded), "authStatus", &config), 1);
    assert_eq!(get_marker_flag_from_backup(Some(&recorded), "settings", &config), 0);
    assert_eq!(get_marker_flag_from_backup(Some(&recorded), "odd", &config), 1);
    assert_eq!(get_marker_flag_from_backup(Some(&recorded), "absent", &config), 1);
    assert_eq!(get_marker_flag_from_backup(None, "authStatus", &config), 0);
    assert_eq!(get_marker_flag_from_backup(None, "settings", &config), 1);
}

#[test]
fn removing_keys_tells_what_to_do_with_the_row() {
    let managed = keys(&["authStatus", "settings"]);
    assert_eq!(remove_keys_from_marker(None, &managed), MarkerUpdate::Keep);
    assert_eq!(remove_keys_from_marker(Some("{\"theme\":1}"), &managed), MarkerUpdate::Keep);
    assert_eq!(remove_keys_from_marker(Some("broken"), &managed), MarkerUpdate::Keep);
    assert_eq!(
        remove_keys_from_marker(Some("{\"settings\":1,\"theme\":1,\"authStatus\":0}"), &managed),
        MarkerUpdate::Write("{\"theme\":1}".to_string())
    );
    assert_eq!(remove_keys_from_marker(Some("{\"settings\":1}"), &managed), MarkerUpdate::Write("{}".to_string()));
}

#[test]
fn entering_flags_rewrites_the_row() {
    let entries = vec![FlagEntry { key: "authStatus".to_string(), flag: 0 }];
    assert_eq!(enter_flags_into_marker(None, &entries), MarkerUpdate::Write("{\"authStatus\":0}".to_string()));
    assert_eq!(
        enter_flags_into_marker(Some("{\"theme\":1,\"authStatus\":1}"), &entries),
        MarkerUpdate::Write("{\"authStatus\":0,\"theme\":1}".to_string())
    );
    assert_eq!(enter_flags_into_marker(Some("[]"), &vec![]), MarkerUpdate::Write("{}".to_string()));
}

#[test]
fn snapshot_hands_out_string_fields_only() {
    let config = config();
    let snapshot =
        Snapshot::parse("{\"authStatus\":\"token\",\"settings\":{\"a\":1},\"count\":3,\"flag\":true,\"none\":null}", &config)
            .unwrap();
    assert_eq!(snapshot.field_value("authStatus"), Some("token".to_string()));
    assert_eq!(snapshot.field_value("settings"), None);
    assert_eq!(snapshot.field_value("count"), None);
    assert_eq!(snapshot.field_value("flag"), None);
    assert_eq!(snapshot.field_value("none"), None);
    assert_eq!(snapshot.field_value("absent"), None);
    assert!(snapshot.marker().is_none());
}

#[test]
fn snapshot_keeps_the_recorded_marker() {
    let config = config();
    let snapshot = Snapshot::parse("{\"authStatus\":\"token\",\"marker\":{\"authStatus\":1,\"settings\":0}}", &config).unwrap();
    let marker = snapshot.marker().unwrap();
    assert_eq!(marker.flag("authStatus"), Some(1));
    assert_eq!(marker.flag("settings"), Some(0));
    assert_eq!(marker.flag("newStorage"), None);
}

#[test]
fn snapshot_marker_must_be_an_object() {
    let config = config();
    let text_marker = Snapshot::parse("{\"marker\":\"{\\\"authStatus\\\":1}\"}", &config).unwrap();
    assert!(text_marker.marker().is_none());
    let list_marker = Snapshot::parse("{\"marker\":[1]}", &config).unwrap();
    assert!(list_marker.marker().is_none());
}

#[test]
fn snapshot_that_is_no_object_has_no_field() {
    let config = config();
    for text in ["[\"authStatus\"]", "\"authStatus\"", "1", "null", "true"] {
        let snapshot = Snapshot::parse(text, &config).unwrap();
        assert_eq!(snapshot.field_value("authStatus"), None);
        assert!(snapshot.marker().is_none());
    }
}

#[test]
fn snapshot_parse_fails_on_what_is_no_json() {
    let config = config();
    for text in ["", "{", "{\"a\":1,}", "{'a':1}", "authStatus", "{\"a\":1} trailing"] {
        assert!(Snapshot::parse(text, &config).is_err());
    }
}

#[test]
fn store_reads_what_was_written_last() {
    let mut store = KeyStore::new();
    assert_eq!(store.read("a"), None);
    store.upsert("a", "1");
    store.upsert("b", "2");
    store.upsert("a", "3");
    assert_eq!(store.read("a"), Some("3".to_string()));
    assert_eq!(store.read("b"), Some("2".to_string()));
    assert_eq!(store.read("A"), None);
}

#[test]
fn store_delete_says_whether_a_row_went_away() {
    let mut store = KeyStore::new();
    store.upsert("a", "1");
    store.upsert("b", "2");
    assert!(store.delete("a"));
    assert!(!store.delete("a"));
    assert!(!store.delete("c"));
    assert_eq!(store.read("a"), None);
    assert_eq!(store.read("b"), Some("2".to_string()));
}

#[test]
fn store_upsert_is_idempotent() {
    let mut store = KeyStore::new();
    store.upsert("a", "1");
    store.upsert("a", "1");
    assert_eq!(store.read("a"), Some("1".to_string()));
    assert!(store.delete("a"));
    assert_eq!(store.read("a"), None);
    assert!(!store.delete("a"));
}

#[test]
fn store_answers_commands() {
    let mut store = KeyStore::new();
    let stored = store.apply(&StoreCommand::Upsert { key: "a".to_string(), value: "1".to_string() });
    assert_eq!(stored, StoreReply::Stored);
    let found = store.apply(&StoreCommand::Read { key: "a".to_string() });
    assert_eq!(found, StoreReply::Value { value: Some("1".to_string()) });
    let missing = store.apply(&StoreCommand::Read { key: "b".to_string() });
    assert_eq!(missing, StoreReply::Value { value: None });
    let removed = store.apply(&StoreCommand::Delete { key: "a".to_string() });
    assert_eq!(removed, StoreReply::Deleted { removed: true });
    let nothing = store.apply(&StoreCommand::Delete { key: "a".to_string() });
    assert_eq!(nothing, StoreReply::Deleted { removed: false });
}
