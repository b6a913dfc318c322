use antigravity_agent::clear::ClearSession;
use antigravity_agent::config::FieldConfig;
use antigravity_agent::restore::RestoreSession;
use antigravity_agent::snapshot::Snapshot;
use antigravity_agent::store::{StoreCommand, StoreReply};
use rusqlite::{Connection, OptionalExtension};

const MARKER_KEY: &str = "__$__targetStorageMarker";
const TIMESTAMP_KEY: &str = "antigravityAnalytics.lastUploadTime";

fn table(rows: &[(&str, &str)]) -> Connection {
    let conn = Connection::open_in_memory().unwrap();
    conn.execute("CREATE TABLE ItemTable (key TEXT UNIQUE ON CONFLICT REPLACE, value BLOB)", ()).unwrap();
    for (key, value) in rows {
        conn.execute("INSERT INTO ItemTable (key, value) VALUES (?, ?)", [key, value]).unwrap();
    }
    conn
}

fn run(conn: &Connection, command: &StoreCommand) -> StoreReply {
    match command {
        StoreCommand::Delete { key } => match conn.execute("DELETE FROM ItemTable WHERE key = ?", [key]) {
            Ok(rows) => StoreReply::Deleted { removed: rows > 0 },
            Err(e) => StoreReply::Failed { cause: e.to_string() },
        },
        StoreCommand::Read { key } => {
            let found = conn
                .query_row("SELECT value FROM ItemTable WHERE key = ?", [key], |row| row.get::<_, String>(0))
                .optional();
            match found {
                Ok(value) => StoreReply::Value { value },
                Err(e) => StoreReply::Failed { cause: e.to_string() },
            }
        }
        StoreCommand::Upsert { key, value } => {
            match conn.execute("INSERT OR REPLACE INTO ItemTable (key, value) VALUES (?, ?)", [key, value]) {
                Ok(_) => StoreReply::Stored,
                Err(e) => StoreReply::Failed { cause: e.to_string() },
            }
        }
    }
}

fn row(conn: &Connection, key: &str) -> Option<String> {
    conn.query_row("SELECT value FROM ItemTable WHERE key = ?", [key], |row| row.get::<_, String>(0)).optional().unwrap()
}

fn count(conn: &Connection) -> i64 {
    conn.query_row("SELECT COUNT(*) FROM ItemTable", (), |row| row.get(0)).unwrap()
}

#[test]
fn clear_session_on_a_sqlite_table() {
    let config = FieldConfig::standard();
    let conn = table(&[
        ("antigravityAuthStatus", "{\"email\":\"a@b.com\"}"),
        ("antigravity.profileUrl", "https://example.com/a.png"),
        ("workbench.theme", "dark"),
        (MARKER_KEY, "{\"antigravityAuthStatus\":1,\"antigravity.profileUrl\":1,\"workbench.theme\":1}"),
    ]);
    let mut session = ClearSession::new(&config);
    while let Some(command) = session.command() {
        let reply = run(&conn, &command);
        session = session.advance(reply);
    }
    let report = session.report();
    assert_eq!(report.deleted, 2);
    assert!(report.marker_updated);
    assert!(report.skipped.is_empty());
    assert_eq!(row(&conn, "antigravityAuthStatus"), None);
    assert_eq!(row(&conn, "antigravity.profileUrl"), None);
    assert_eq!(row(&conn, "workbench.theme"), Some("dark".to_string()));
    assert_eq!(row(&conn, MARKER_KEY), Some("{\"workbench.theme\":1}".to_string()));
    assert_eq!(count(&conn), 2);
}

#[test]
fn restore_session_on_a_sqlite_table() {
    let config = FieldConfig::standard();
    let snapshot_text = "{\"antigravityAuthStatus\":\"{\\\"email\\\":\\\"a@b.com\\\"}\",\"antigravityOnboarding\":\"true\",\"__$__isNewStorageMarker\":\"true\",\"__$__targetStorageMarker\":{\"antigravityAuthStatus\":1},\"name\":\"a@b.com\"}";
    let snapshot = Snapshot::parse(snapshot_text, &config).unwrap();
    let conn = table(&[("workbench.theme", "dark"), (MARKER_KEY, "{\"workbench.theme\":1}"), (TIMESTAMP_KEY, "1700000000")]);
    let mut session = RestoreSession::new(&snapshot, &config);
    while let Some(command) = session.command() {
        let reply = run(&conn, &command);
        session = session.advance(reply);
    }
    let report = session.report();
    assert_eq!(report.restored, 3);
    assert!(report.marker_updated);
    assert!(report.timestamp_reset);
    assert!(report.skipped.is_empty());
    assert_eq!(row(&conn, "antigravityAuthStatus"), Some("{\"email\":\"a@b.com\"}".to_string()));
    assert_eq!(row(&conn, "antigravityOnboarding"), Some("true".to_string()));
    assert_eq!(row(&conn, "__$__isNewStorageMarker"), Some("true".to_string()));
    assert_eq!(
        row(&conn, MARKER_KEY),
        Some("{\"antigravityAuthStatus\":1,\"antigravityOnboarding\":0,\"workbench.theme\":1}".to_string())
    );
    assert_eq!(row(&conn, TIMESTAMP_KEY), Some("0".to_string()));
    assert_eq!(row(&conn, "name"), None);
    assert_eq!(count(&conn), 6);
}

#[test]
fn sessions_record_what_a_sqlite_table_refuses() {
    let config = FieldConfig::standard();
    let conn = Connection::open_in_memory().unwrap();
    let mut session = ClearSession::new(&config);
    while let Some(command) = session.command() {
        let reply = run(&conn, &command);
        session = session.advance(reply);
    }
    let report = session.report();
    assert_eq!(report.deleted, 0);
    assert!(!report.marker_updated);
    assert_eq!(report.skipped.len(), 9);
    assert!(report.skipped.iter().all(|skipped| skipped.cause.contains("no such table")));
}
