//! What holds of clearing and restoring, whatever the store, the snapshot
//! and the configuration. Each law speaks of an operation in which no
//! command fails, as on a table in memory.

use vstd::prelude::*;
use crate::clear::{cleared_rows, present_count};
use crate::config::{lemma_managed_names, standard_config, FieldConfigView};
use crate::json::{json_text, member_integer, Json};
use crate::marker::{entered, marker_of_row, merged_marker, resolved_flag, MarkerUpdateView};
use crate::restore::{
    lemma_restored_fields, restored_fields, restored_marker, restored_rows, restores, timestamp_reset_value,
};
use crate::snapshot::SnapshotView;
use crate::store::{reply_to, rows_after, CommandView, ReplyView};
use crate::text::{holds_any, without_keys};

verus! {

/// Writing a row a second time changes nothing, and neither does deleting
/// it a second time; the first delete alone finds a row to remove.
pub proof fn law_store_commands_repeat(rows: Map<Seq<char>, Seq<char>>, key: Seq<char>, value: Seq<char>)
    ensures
        rows_after(rows_after(rows, CommandView::Upsert { key, value }), CommandView::Upsert { key, value }) == rows_after(
            rows,
            CommandView::Upsert { key, value },
        ),
        rows_after(rows_after(rows, CommandView::Delete { key }), CommandView::Delete { key }) == rows_after(
            rows,
            CommandView::Delete { key },
        ),
        reply_to(rows_after(rows, CommandView::Delete { key }), CommandView::Delete { key }) == (ReplyView::Deleted {
            removed: false,
        }),
        reply_to(rows_after(rows, CommandView::Upsert { key, value }), CommandView::Read { key }) == (ReplyView::Value {
            value: Some(value),
        }),
{
    assert(rows.insert(key, value).insert(key, value) =~= rows.insert(key, value));
    assert(rows.remove(key).remove(key) =~= rows.remove(key));
}

/// A clear leaves no row of a managed field, and leaves every row as it
/// was that is neither a managed field nor the marker.
pub proof fn law_clear_rows(rows: Map<Seq<char>, Seq<char>>, config: FieldConfigView)
    requires
        config.valid(),
    ensures
        forall|key: Seq<char>| config.is_managed(key) ==> !cleared_rows(rows, config).contains_key(key),
        forall|key: Seq<char>|
            !config.is_managed(key) && key != config.marker_key ==> cleared_rows(rows, config).get(key) == rows.get(key),
{
    assert forall|key: Seq<char>| config.is_managed(key) == config.names().contains(key) by {
        lemma_managed_names(config, key);
    }
}

/// A clear takes out of the marker each managed field that it tracked, and
/// leaves its other entries as they were: the marker's row is rewritten
/// with the text of that marker. A store without marker, and a marker that
/// tracks no managed field, are left as they are.
pub proof fn law_clear_marker(rows: Map<Seq<char>, Seq<char>>, config: FieldConfigView)
    requires
        config.valid(),
    ensures
        ({
            let before = marker_of_row(rows.get(config.marker_key));
            let after = without_keys(before, config.names());
            &&& forall|key: Seq<char>| config.is_managed(key) ==> !after.contains_key(key)
            &&& forall|key: Seq<char>| !config.is_managed(key) ==> after.get(key) == before.get(key)
            &&& cleared_rows(rows, config).get(config.marker_key) == if rows.contains_key(config.marker_key) && holds_any(
                before,
                config.names(),
            ) && json_text(Json::Object(after)) is Some {
                json_text(Json::Object(after))
            } else {
                rows.get(config.marker_key)
            }
        }),
{
    assert forall|key: Seq<char>| config.is_managed(key) == config.names().contains(key) by {
        lemma_managed_names(config, key);
    }
}

/// The first of two clears in a row deletes what there is to delete: the
/// second finds no row of a managed field, and changes no row but, at
/// most, the marker's.
pub proof fn law_clear_twice(rows: Map<Seq<char>, Seq<char>>, config: FieldConfigView)
    requires
        config.valid(),
    ensures
        present_count(cleared_rows(rows, config), config.names()) == 0,
        forall|key: Seq<char>|
            key != config.marker_key ==> cleared_rows(cleared_rows(rows, config), config).get(key) == cleared_rows(
                rows,
                config,
            ).get(key),
{
    let once = cleared_rows(rows, config);
    law_clear_rows(rows, config);
    law_clear_rows(once, config);
    assert forall|key: Seq<char>| config.is_managed(key) == config.names().contains(key) by {
        lemma_managed_names(config, key);
    }
    lemma_absent_count(once, config.names());
    assert forall|key: Seq<char>| key != config.marker_key implies cleared_rows(once, config).get(key) == once.get(key) by {
        if config.is_managed(key) {
            assert(!once.contains_key(key));
            assert(!cleared_rows(once, config).contains_key(key));
        }
    }
}

/// None of the listed keys has a row where none is in the store.
proof fn lemma_absent_count(rows: Map<Seq<char>, Seq<char>>, keys: Seq<Seq<char>>)
    requires
        forall|key: Seq<char>| keys.contains(key) ==> !rows.contains_key(key),
    ensures
        present_count(rows, keys) == 0,
    decreases keys.len(),
{
    if keys.len() > 0 {
        assert forall|key: Seq<char>| keys.drop_last().contains(key) implies !rows.contains_key(key) by {
            let i = choose|i: int| 0 <= i < keys.drop_last().len() && keys.drop_last()[i] == key;
            assert(keys[i] == key);
            assert(keys.contains(key));
        }
        lemma_absent_count(rows, keys.drop_last());
        assert(keys[keys.len() - 1] == keys.last());
        assert(keys.contains(keys.last()));
    }
}

/// The rows of a store after a number of cycles, each a restore from the
/// snapshot followed by a clear.
pub open spec fn cycled(rows: Map<Seq<char>, Seq<char>>, snapshot: SnapshotView, config: FieldConfigView, cycles: nat) -> Map<Seq<char>, Seq<char>>
    decreases cycles,
{
    if cycles == 0 {
        rows
    } else {
        cleared_rows(restored_rows(cycled(rows, snapshot, config, (cycles - 1) as nat), snapshot, config), config)
    }
}

/// After a restore and a clear, no managed field has a row, however often
/// the two were repeated before.
pub proof fn law_restore_then_clear(rows: Map<Seq<char>, Seq<char>>, snapshot: SnapshotView, config: FieldConfigView, cycles: nat)
    requires
        config.valid(),
        cycles >= 1,
    ensures
        forall|key: Seq<char>| config.is_managed(key) ==> !cycled(rows, snapshot, config, cycles).contains_key(key),
        present_count(cycled(rows, snapshot, config, cycles), config.names()) == 0,
{
    let before = restored_rows(cycled(rows, snapshot, config, (cycles - 1) as nat), snapshot, config);
    law_clear_rows(before, config);
    law_clear_twice(before, config);
}

/// A restore writes the flag that the snapshot's marker records for a
/// restored field; only where it records none, the field's default. Fields
/// that are not restored keep the entry they had, or stay without one.
pub proof fn law_merge_precedence(
    current: Map<Seq<char>, Json>,
    snapshot_marker: Option<Map<Seq<char>, Json>>,
    restored: Seq<Seq<char>>,
    config: FieldConfigView,
    key: Seq<char>,
)
    ensures
        ({
            let merged = merged_marker(current, snapshot_marker, restored, config);
            if entered(restored, config, key) {
                merged.get(key) == Some(
                    Json::Integer(
                        match snapshot_marker {
                            Some(recorded) if member_integer(recorded, key) is Some => member_integer(recorded, key)->0,
                            _ => config.default_flag(key),
                        } as int,
                    ),
                )
            } else {
                merged.get(key) == current.get(key)
            }
        }),
{
}

/// The defaults of the standard configuration: flag 0 for the status of
/// the authentication, the profile's address, the onboarding and the
/// command configurations.
pub proof fn law_standard_defaults()
    ensures
        standard_config().default_flag("antigravityAuthStatus"@) == 0,
        standard_config().default_flag("antigravity.profileUrl"@) == 0,
        standard_config().default_flag("antigravityOnboarding"@) == 0,
        standard_config().default_flag("antigravity_allowed_command_model_configs"@) == 0,
        forall|key: Seq<char>|
            key != "antigravityAuthStatus"@ && key != "antigravity.profileUrl"@ && key != "antigravityOnboarding"@ && key
                != "antigravity_allowed_command_model_configs"@ ==> standard_config().default_flag(key) == 1,
{
    let c = standard_config();
    crate::config::lemma_standard_config_valid();
    assert(c.fields[0].name == "antigravityAuthStatus"@);
    assert(c.fields[1].name == "antigravity.profileUrl"@);
    assert(c.fields[2].name == "antigravityOnboarding"@);
    assert(c.fields[3].name == "antigravity_allowed_command_model_configs"@);
    assert forall|key: Seq<char>| c.is_managed(key) implies c.default_flag(key) == (if key == c.fields[0].name || key
        == c.fields[1].name || key == c.fields[2].name || key == c.fields[3].name {
        0i64
    } else {
        1i64
    }) by {
        let i = choose|i: int| 0 <= i < c.fields.len() && #[trigger] c.fields[i].name == key;
        assert(c.fields[i].default_flag == if i < 4 { 0i64 } else { 1i64 });
        if i >= 4 {
            assert(c.fields[0].name != c.fields[i].name);
            assert(c.fields[1].name != c.fields[i].name);
            assert(c.fields[2].name != c.fields[i].name);
            assert(c.fields[3].name != c.fields[i].name);
        } else {
        }
    }
}

/// A restore writes the managed fields for which the snapshot holds a
/// string, and no other field: every row that is neither such a field, nor
/// the marker, nor the timestamp is as it was. The timestamp is "0".
pub proof fn law_restore_rows(rows: Map<Seq<char>, Seq<char>>, snapshot: SnapshotView, config: FieldConfigView)
    requires
        config.valid(),
    ensures
        forall|key: Seq<char>|
            restores(snapshot, config, key) ==> restored_rows(rows, snapshot, config).get(key) == snapshot.field_value(key),
        forall|key: Seq<char>|
            !restores(snapshot, config, key) && key != config.marker_key && key != config.timestamp_key ==> restored_rows(
                rows,
                snapshot,
                config,
            ).get(key) == rows.get(key),
        restored_rows(rows, snapshot, config).get(config.timestamp_key) == Some(timestamp_reset_value()),
        restored_rows(rows, snapshot, config).get(config.marker_key) == match restored_marker(rows, snapshot, config) {
            MarkerUpdateView::Write(text) => Some(text),
            _ => rows.get(config.marker_key),
        },
{
}

/// A restore enters into the marker each managed field that it writes,
/// but for the reserved key, with the flag that the snapshot records for
/// it or with its default; entries of other fields are those of the marker
/// that the store had.
pub proof fn law_restore_marker(rows: Map<Seq<char>, Seq<char>>, snapshot: SnapshotView, config: FieldConfigView, key: Seq<char>)
    requires
        config.valid(),
    ensures
        ({
            let before = marker_of_row(rows.get(config.marker_key));
            let merged = merged_marker(before, snapshot.marker, restored_fields(snapshot, config), config);
            if restores(snapshot, config, key) && config.registers(key) {
                merged.get(key) == Some(Json::Integer(resolved_flag(snapshot.marker, key, config) as int))
            } else {
                merged.get(key) == before.get(key)
            }
        }),
{
    lemma_restored_fields(snapshot, config, key);
}

/// A second restore from the same snapshot changes no row but, at most,
/// the marker's.
pub proof fn law_restore_twice(rows: Map<Seq<char>, Seq<char>>, snapshot: SnapshotView, config: FieldConfigView)
    requires
        config.valid(),
    ensures
        forall|key: Seq<char>|
            key != config.marker_key ==> restored_rows(restored_rows(rows, snapshot, config), snapshot, config).get(key)
                == restored_rows(rows, snapshot, config).get(key),
{
    let once = restored_rows(rows, snapshot, config);
    law_restore_rows(rows, snapshot, config);
    law_restore_rows(once, snapshot, config);
}

} // verus!
