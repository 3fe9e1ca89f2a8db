use echo_library::catalog::delivery_formats::{delivery_migration_needed, require_intact_references};
use rusqlite::Connection;

const LEGACY_TABLES: &str = "
CREATE TABLE assets (id TEXT PRIMARY KEY, content_hash TEXT NOT NULL, path TEXT NOT NULL,
    path_status TEXT NOT NULL, size_bytes INTEGER NOT NULL, codec TEXT,
    duration_millis INTEGER, recorded_at_millis INTEGER, imported_at_millis INTEGER NOT NULL);
CREATE TABLE asset_adjustment_revisions (id INTEGER PRIMARY KEY AUTOINCREMENT);
CREATE TABLE render_exports (
    id                     INTEGER PRIMARY KEY AUTOINCREMENT,
    asset_id               TEXT NOT NULL REFERENCES assets(id),
    adjustment_revision_id INTEGER REFERENCES asset_adjustment_revisions(id),
    output_path            TEXT NOT NULL,
    format                 TEXT NOT NULL CHECK (
                           format IN ('wav_pcm16','wav_pcm24','flac24','wav_float32')),
    sample_rate            INTEGER NOT NULL CHECK (sample_rate > 0),
    channel_count          INTEGER NOT NULL CHECK (channel_count > 0),
    bit_depth              INTEGER NOT NULL,
    frame_count            INTEGER NOT NULL CHECK (frame_count > 0),
    content_hash           TEXT NOT NULL,
    size_bytes             INTEGER NOT NULL CHECK (size_bytes > 0),
    integrated_lufs        REAL NOT NULL,
    true_peak_dbtp         REAL NOT NULL,
    created_at_millis      INTEGER NOT NULL
);
CREATE TABLE sound_assembly_exports (
    id     INTEGER PRIMARY KEY AUTOINCREMENT,
    format TEXT NOT NULL CHECK (format IN ('wav_pcm16','wav_pcm24','flac24','wav_float32'))
);";

const EXPANSION: &str = "
CREATE TABLE render_exports_expanded (
    id                     INTEGER PRIMARY KEY AUTOINCREMENT,
    asset_id               TEXT NOT NULL REFERENCES assets(id),
    adjustment_revision_id INTEGER REFERENCES asset_adjustment_revisions(id),
    output_path            TEXT NOT NULL,
    format                 TEXT NOT NULL CHECK (
                           format IN ('wav_pcm16','wav_pcm24','flac24','wav_float32','mp3','aac_m4a')),
    sample_rate            INTEGER NOT NULL CHECK (sample_rate > 0),
    channel_count          INTEGER NOT NULL CHECK (channel_count > 0),
    bit_depth              INTEGER NOT NULL,
    frame_count            INTEGER NOT NULL CHECK (frame_count > 0),
    content_hash           TEXT NOT NULL,
    size_bytes             INTEGER NOT NULL CHECK (size_bytes > 0),
    integrated_lufs        REAL NOT NULL,
    true_peak_dbtp         REAL NOT NULL,
    created_at_millis      INTEGER NOT NULL
);
INSERT INTO render_exports_expanded SELECT * FROM render_exports;
DROP TABLE render_exports;
ALTER TABLE render_exports_expanded RENAME TO render_exports;
CREATE TABLE sound_assembly_exports_expanded (
    id     INTEGER PRIMARY KEY AUTOINCREMENT,
    format TEXT NOT NULL CHECK (format IN ('wav_pcm16','wav_pcm24','flac24','wav_float32','mp3','aac_m4a'))
);
INSERT INTO sound_assembly_exports_expanded SELECT * FROM sound_assembly_exports;
DROP TABLE sound_assembly_exports;
ALTER TABLE sound_assembly_exports_expanded RENAME TO sound_assembly_exports;";

fn table_sql(connection: &Connection, name: &str) -> String {
    connection
        .query_row(
            "SELECT sql FROM sqlite_master WHERE type='table' AND name=?1",
            [name],
            |row| row.get(0),
        )
        .unwrap()
}

/// Runs the expansion the way the catalog does: only when the stored table
/// definitions still need it, with foreign keys suspended, and committing
/// only when the rebuilt tables keep every reference.
fn migrate(connection: &Connection) {
    let render_sql = table_sql(connection, "render_exports");
    let assembly_sql = table_sql(connection, "sound_assembly_exports");
    if !delivery_migration_needed(&render_sql, &assembly_sql) {
        return;
    }
    let foreign_keys: bool = connection
        .pragma_query_value(None, "foreign_keys", |row| row.get(0))
        .unwrap();
    connection.pragma_update(None, "foreign_keys", false).unwrap();
    let transaction = connection.unchecked_transaction().unwrap();
    transaction.execute_batch(EXPANSION).unwrap();
    let violations: i64 = transaction
        .query_row("SELECT count(*) FROM pragma_foreign_key_check", [], |row| row.get(0))
        .unwrap();
    require_intact_references(violations).unwrap();
    transaction.commit().unwrap();
    connection.pragma_update(None, "foreign_keys", foreign_keys).unwrap();
}

#[test]
fn expanded_formats_keep_referenced_ids_and_old_exports() {
    let connection = Connection::open_in_memory().unwrap();
    connection.execute_batch(LEGACY_TABLES).unwrap();
    connection.execute_batch("CREATE TABLE kept_export(id INTEGER REFERENCES render_exports(id)); INSERT INTO assets (id,content_hash,path,path_status,size_bytes,codec,duration_millis,recorded_at_millis,imported_at_millis) VALUES('asset','hash','/tmp/voice.wav','present',44,'pcm',1000,0,1); INSERT INTO render_exports VALUES(7,'asset',NULL,'/tmp/out.wav','wav_pcm24',48000,2,24,48000,'render-hash',288044,-12,-1,1); INSERT INTO kept_export VALUES(7);").unwrap();
    connection.pragma_update(None, "foreign_keys", true).unwrap();
    migrate(&connection);
    assert!(connection
        .pragma_query_value(None, "foreign_keys", |row| row.get::<_, bool>(0))
        .unwrap());
    let count: i64 = connection
        .query_row(
            "SELECT count(*) FROM kept_export JOIN render_exports USING(id)",
            [],
            |row| row.get(0),
        )
        .unwrap();
    assert_eq!(count, 1);
    connection.execute("INSERT INTO render_exports (asset_id,output_path,format,sample_rate,channel_count,bit_depth,frame_count,content_hash,size_bytes,integrated_lufs,true_peak_dbtp,created_at_millis) VALUES('asset','/tmp/out.mp3','mp3',44100,1,0,44100,'compressed-hash',100,-12,-1,2)", []).unwrap();
    migrate(&connection);
    assert_eq!(
        connection
            .query_row("SELECT count(*) FROM render_exports", [], |row| row.get::<_, i64>(0))
            .unwrap(),
        2
    );
}
