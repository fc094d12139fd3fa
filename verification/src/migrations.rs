//! The schema migration engine: an ordered list of versioned forward
//! transformations (with reverse ones where they exist), applied exactly
//! once each, in order, with legacy stores fast-forwarded past the base
//! step.

use vstd::prelude::*;

use crate::error::StoreError;
use crate::storage::{db_data_unchanged, db_plants_exists, db_version};

verus! {

/// The version of the newest migration step.
pub const LATEST_VERSION: u32 = 3;

/// The base schema: plants, plant photos (owned by a plant, removed with it),
/// and activities, with a textual exclusive sun requirement.
pub open spec fn forward_sql_spec_v1() -> Seq<char> {
    "CREATE TABLE IF NOT EXISTS plants (
    id INTEGER PRIMARY KEY AUTOINCREMENT,
    name TEXT NOT NULL,
    plant_type TEXT CHECK(plant_type IN ('vegetable_fruit', 'flower', 'herb')),
    sun_requirement TEXT CHECK(sun_requirement IN ('full_sun', 'partial_shade', 'full_shade')),
    sow_periods INTEGER DEFAULT 0,
    plant_periods INTEGER DEFAULT 0,
    notes TEXT,
    created_at DATETIME DEFAULT CURRENT_TIMESTAMP,
    updated_at DATETIME DEFAULT CURRENT_TIMESTAMP
);
CREATE TABLE IF NOT EXISTS plant_photos (
    id INTEGER PRIMARY KEY AUTOINCREMENT,
    plant_id INTEGER NOT NULL,
    sort_order INTEGER DEFAULT 0,
    image_data BLOB,
    created_at DATETIME DEFAULT CURRENT_TIMESTAMP,
    FOREIGN KEY (plant_id) REFERENCES plants(id) ON DELETE CASCADE
);
CREATE TABLE IF NOT EXISTS activities (
    id INTEGER PRIMARY KEY AUTOINCREMENT,
    name TEXT NOT NULL,
    description TEXT,
    active_periods INTEGER DEFAULT 0,
    created_at DATETIME DEFAULT CURRENT_TIMESTAMP,
    updated_at DATETIME DEFAULT CURRENT_TIMESTAMP
);"@
}

/// Convert the exclusive textual sun requirement into the combinable integer
/// flag set: full sun 1, partial shade 2, full shade 4, anything else 0.
pub open spec fn forward_sql_spec_v2() -> Seq<char> {
    "CREATE TABLE plants_new (
    id INTEGER PRIMARY KEY AUTOINCREMENT,
    name TEXT NOT NULL,
    plant_type TEXT CHECK(plant_type IN ('vegetable_fruit', 'flower', 'herb')),
    sun_requirements INTEGER DEFAULT 0,
    sow_periods INTEGER DEFAULT 0,
    plant_periods INTEGER DEFAULT 0,
    notes TEXT,
    created_at DATETIME DEFAULT CURRENT_TIMESTAMP,
    updated_at DATETIME DEFAULT CURRENT_TIMESTAMP
);
INSERT INTO plants_new SELECT
    id, name, plant_type,
    CASE sun_requirement
        WHEN 'full_sun' THEN 1
        WHEN 'partial_shade' THEN 2
        WHEN 'full_shade' THEN 4
        ELSE 0
    END,
    sow_periods, plant_periods, notes, created_at, updated_at
FROM plants;
DROP TABLE plants;
ALTER TABLE plants_new RENAME TO plants;"@
}

/// Add the reorder flag for tracking seeds to buy, default off.
pub open spec fn forward_sql_spec_v3() -> Seq<char> {
    "ALTER TABLE plants ADD COLUMN needs_reorder INTEGER DEFAULT 0;"@
}

/// The forward transformation of the step with the given version.
pub open spec fn forward_sql_spec(version: int) -> Seq<char> {
    if version == 1 {
        forward_sql_spec_v1()
    } else if version == 2 {
        forward_sql_spec_v2()
    } else {
        forward_sql_spec_v3()
    }
}

/// The forward transformation of the step with the given version, as the
/// batch handed to the storage engine.
pub fn forward_sql(version: u32) -> (r: &'static str)
    requires
        1 <= version <= LATEST_VERSION,
    ensures
        r@ == forward_sql_spec(version as int),
{
    if version == 1 {
        "CREATE TABLE IF NOT EXISTS plants (
    id INTEGER PRIMARY KEY AUTOINCREMENT,
    name TEXT NOT NULL,
    plant_type TEXT CHECK(plant_type IN ('vegetable_fruit', 'flower', 'herb')),
    sun_requirement TEXT CHECK(sun_requirement IN ('full_sun', 'partial_shade', 'full_shade')),
    sow_periods INTEGER DEFAULT 0,
    plant_periods INTEGER DEFAULT 0,
    notes TEXT,
    created_at DATETIME DEFAULT CURRENT_TIMESTAMP,
    updated_at DATETIME DEFAULT CURRENT_TIMESTAMP
);
CREATE TABLE IF NOT EXISTS plant_photos (
    id INTEGER PRIMARY KEY AUTOINCREMENT,
    plant_id INTEGER NOT NULL,
    sort_order INTEGER DEFAULT 0,
    image_data BLOB,
    created_at DATETIME DEFAULT CURRENT_TIMESTAMP,
    FOREIGN KEY (plant_id) REFERENCES plants(id) ON DELETE CASCADE
);
CREATE TABLE IF NOT EXISTS activities (
    id INTEGER PRIMARY KEY AUTOINCREMENT,
    name TEXT NOT NULL,
    description TEXT,
    active_periods INTEGER DEFAULT 0,
    created_at DATETIME DEFAULT CURRENT_TIMESTAMP,
    updated_at DATETIME DEFAULT CURRENT_TIMESTAMP
);"
    } else if version == 2 {
        "CREATE TABLE plants_new (
    id INTEGER PRIMARY KEY AUTOINCREMENT,
    name TEXT NOT NULL,
    plant_type TEXT CHECK(plant_type IN ('vegetable_fruit', 'flower', 'herb')),
    sun_requirements INTEGER DEFAULT 0,
    sow_periods INTEGER DEFAULT 0,
    plant_periods INTEGER DEFAULT 0,
    notes TEXT,
    created_at DATETIME DEFAULT CURRENT_TIMESTAMP,
    updated_at DATETIME DEFAULT CURRENT_TIMESTAMP
);
INSERT INTO plants_new SELECT
    id, name, plant_type,
    CASE sun_requirement
        WHEN 'full_sun' THEN 1
        WHEN 'partial_shade' THEN 2
        WHEN 'full_shade' THEN 4
        ELSE 0
    END,
    sow_periods, plant_periods, notes, created_at, updated_at
FROM plants;
DROP TABLE plants;
ALTER TABLE plants_new RENAME TO plants;"
    } else {
        "ALTER TABLE plants ADD COLUMN needs_reorder INTEGER DEFAULT 0;"
    }
}

/// Undo the sun-requirement conversion: keep only the lowest set flag's
/// label, discarding combinations (a documented lossy reversal).
pub open spec fn reverse_sql_spec_v2() -> Seq<char> {
    "CREATE TABLE plants_new (
    id INTEGER PRIMARY KEY AUTOINCREMENT,
    name TEXT NOT NULL,
    plant_type TEXT CHECK(plant_type IN ('vegetable_fruit', 'flower', 'herb')),
    sun_requirement TEXT CHECK(sun_requirement IN ('full_sun', 'partial_shade', 'full_shade')),
    sow_periods INTEGER DEFAULT 0,
    plant_periods INTEGER DEFAULT 0,
    notes TEXT,
    created_at DATETIME DEFAULT CURRENT_TIMESTAMP,
    updated_at DATETIME DEFAULT CURRENT_TIMESTAMP
);
INSERT INTO plants_new SELECT
    id, name, plant_type,
    CASE
        WHEN (sun_requirements & 1) != 0 THEN 'full_sun'
        WHEN (sun_requirements & 2) != 0 THEN 'partial_shade'
        WHEN (sun_requirements & 4) != 0 THEN 'full_shade'
        ELSE NULL
    END,
    sow_periods, plant_periods, notes, created_at, updated_at
FROM plants;
DROP TABLE plants;
ALTER TABLE plants_new RENAME TO plants;"@
}

/// Undo the reorder-flag step: rebuild the plants table without the column.
pub open spec fn reverse_sql_spec_v3() -> Seq<char> {
    "CREATE TABLE plants_new (
    id INTEGER PRIMARY KEY AUTOINCREMENT,
    name TEXT NOT NULL,
    plant_type TEXT CHECK(plant_type IN ('vegetable_fruit', 'flower', 'herb')),
    sun_requirements INTEGER DEFAULT 0,
    sow_periods INTEGER DEFAULT 0,
    plant_periods INTEGER DEFAULT 0,
    notes TEXT,
    created_at DATETIME DEFAULT CURRENT_TIMESTAMP,
    updated_at DATETIME DEFAULT CURRENT_TIMESTAMP
);
INSERT INTO plants_new SELECT
    id, name, plant_type, sun_requirements, sow_periods, plant_periods, notes, created_at, updated_at
FROM plants;
DROP TABLE plants;
ALTER TABLE plants_new RENAME TO plants;"@
}

/// The reverse transformation of the step with the given version, where one
/// exists.
pub open spec fn reverse_sql_spec(version: int) -> Seq<char> {
    if version == 2 {
        reverse_sql_spec_v2()
    } else {
        reverse_sql_spec_v3()
    }
}

/// The reverse transformation of the step with the given version, where one
/// exists. The base step is irreversible; the sun-requirement reversal keeps
/// only the lowest set flag (documented as lossy); the reorder-flag reversal
/// rebuilds the table without the column. No code path applies these; they
/// document how each step could be undone by hand.
pub fn reverse_sql(version: u32) -> (r: Option<&'static str>)
    requires
        1 <= version <= LATEST_VERSION,
    ensures
        r is Some <==> version != 1,
        r matches Some(sql) ==> sql@ == reverse_sql_spec(version as int),
{
    if version == 1 {
        None
    } else if version == 2 {
        Some(
            "CREATE TABLE plants_new (
    id INTEGER PRIMARY KEY AUTOINCREMENT,
    name TEXT NOT NULL,
    plant_type TEXT CHECK(plant_type IN ('vegetable_fruit', 'flower', 'herb')),
    sun_requirement TEXT CHECK(sun_requirement IN ('full_sun', 'partial_shade', 'full_shade')),
    sow_periods INTEGER DEFAULT 0,
    plant_periods INTEGER DEFAULT 0,
    notes TEXT,
    created_at DATETIME DEFAULT CURRENT_TIMESTAMP,
    updated_at DATETIME DEFAULT CURRENT_TIMESTAMP
);
INSERT INTO plants_new SELECT
    id, name, plant_type,
    CASE
        WHEN (sun_requirements & 1) != 0 THEN 'full_sun'
        WHEN (sun_requirements & 2) != 0 THEN 'partial_shade'
        WHEN (sun_requirements & 4) != 0 THEN 'full_shade'
        ELSE NULL
    END,
    sow_periods, plant_periods, notes, created_at, updated_at
FROM plants;
DROP TABLE plants;
ALTER TABLE plants_new RENAME TO plants;",
        )
    } else {
        Some(
            "CREATE TABLE plants_new (
    id INTEGER PRIMARY KEY AUTOINCREMENT,
    name TEXT NOT NULL,
    plant_type TEXT CHECK(plant_type IN ('vegetable_fruit', 'flower', 'herb')),
    sun_requirements INTEGER DEFAULT 0,
    sow_periods INTEGER DEFAULT 0,
    plant_periods INTEGER DEFAULT 0,
    notes TEXT,
    created_at DATETIME DEFAULT CURRENT_TIMESTAMP,
    updated_at DATETIME DEFAULT CURRENT_TIMESTAMP
);
INSERT INTO plants_new SELECT
    id, name, plant_type, sun_requirements, sow_periods, plant_periods, notes, created_at, updated_at
FROM plants;
DROP TABLE plants;
ALTER TABLE plants_new RENAME TO plants;",
        )
    }
}

/// Relies on rusqlite's `Connection::execute_batch`, `Connection::transaction`
/// and `Transaction::commit`, admitted only for the three forward batches
/// above. Each batch runs inside a transaction that rolls back as a unit on
/// error, with foreign-key enforcement off for its duration, so the
/// sun-requirement rewrite's DROP TABLE cannot fire the photo cascade. None
/// of the batches touches the version record, so the recorded version never
/// moves; committed or rolled back, every row reads back unchanged under the
/// model's current-schema interpretation, and a completed batch leaves the
/// plants table present.
#[verifier::external_body]
fn run_batch(conn: &mut rusqlite::Connection, sql: &str) -> (r: Result<(), String>)
    requires
        sql@ == forward_sql_spec(1) || sql@ == forward_sql_spec(2) || sql@ == forward_sql_spec(3),
    ensures
        db_version(*final(conn)) == db_version(*old(conn)),
        db_data_unchanged(*old(conn), *final(conn)),
        r matches Ok(_) ==> db_plants_exists(*final(conn)),
{
    if let Err(e) = conn.execute_batch("PRAGMA foreign_keys=OFF;") {
        return Err(e.to_string());
    }
    let result = match conn.transaction() {
        Ok(tx) => match tx.execute_batch(sql) {
            Ok(_) => tx.commit(),
            Err(e) => Err(e),
        },
        Err(e) => Err(e),
    };
    let restore = conn.execute_batch("PRAGMA foreign_keys=ON;");
    result.and(restore).map_err(|e| e.to_string())
}

/// Relies on rusqlite's `Connection::execute_batch` creating the version
/// table and its single record where they are missing; the recorded version
/// (0 while no record exists) and the entity tables stay as they are.
#[verifier::external_body]
fn ensure_version_row(conn: &mut rusqlite::Connection) -> (r: Result<(), String>)
    ensures
        db_version(*final(conn)) == db_version(*old(conn)),
        db_plants_exists(*final(conn)) == db_plants_exists(*old(conn)),
        db_data_unchanged(*old(conn), *final(conn)),
{
    conn.execute_batch(
        "CREATE TABLE IF NOT EXISTS schema_version (version INTEGER NOT NULL DEFAULT 0);
INSERT INTO schema_version (version) SELECT 0 WHERE NOT EXISTS (SELECT 1 FROM schema_version);",
    ).map_err(|e| e.to_string())
}

/// Relies on rusqlite's `Connection::query_row` reading the version record.
#[verifier::external_body]
fn read_version(conn: &rusqlite::Connection) -> (r: Result<i32, String>)
    ensures
        r matches Ok(v) ==> v as int == db_version(*conn),
{
    conn.query_row("SELECT version FROM schema_version LIMIT 1", [], |row| row.get(0)).map_err(
        |e| e.to_string(),
    )
}

/// Relies on rusqlite's `Connection::execute_batch` writing the version
/// record (inserting it where it is missing); the entity tables stay as
/// they are.
#[verifier::external_body]
fn set_version(conn: &mut rusqlite::Connection, version: i32) -> (r: Result<(), String>)
    ensures
        db_plants_exists(*final(conn)) == db_plants_exists(*old(conn)),
        db_data_unchanged(*old(conn), *final(conn)),
        r matches Ok(_) ==> db_version(*final(conn)) == version as int,
        r matches Err(_) ==> db_version(*final(conn)) == version as int || db_version(*final(conn))
            == db_version(*old(conn)),
{
    let sql = format!(
        "UPDATE schema_version SET version = {v};
INSERT INTO schema_version (version) SELECT {v} WHERE NOT EXISTS (SELECT 1 FROM schema_version);",
        v = version,
    );
    conn.execute_batch(&sql).map_err(|e| e.to_string())
}

/// Relies on rusqlite's `Connection::query_row` asking the engine's catalog
/// whether the plants table exists.
#[verifier::external_body]
fn plants_table_exists(conn: &rusqlite::Connection) -> (r: Result<bool, String>)
    ensures
        r matches Ok(b) ==> b == db_plants_exists(*conn),
{
    conn.query_row(
        "SELECT EXISTS(SELECT 1 FROM sqlite_master WHERE type='table' AND name='plants')",
        [],
        |row| row.get(0),
    ).map_err(|e| e.to_string())
}

/// The version the engine fast-forwards to before running steps: a store with
/// no recorded version but an existing plants table predates versioning, and
/// its schema already is what the base step creates.
pub open spec fn effective_start(version: int, plants_exist: bool) -> int {
    if version == 0 && plants_exist {
        1
    } else {
        version
    }
}

/// How many forward steps a store at the given version still needs.
pub open spec fn steps_needed(version: int) -> int {
    if version >= LATEST_VERSION as int {
        0
    } else if version < 0 {
        LATEST_VERSION as int
    } else {
        LATEST_VERSION as int - version
    }
}

/// Bring the store up to the newest schema version.
///
/// Reads the recorded version (creating the record at 0 where it is absent),
/// fast-forwards a legacy store to version 1 without running the base step,
/// then runs every later step in ascending order, recording each step's
/// version right after its batch completes. Returns how many forward batches
/// ran. A failure surfaces as `MigrationFailure` and leaves the recorded
/// version at the last completed step, the failing step's batch rolled back;
/// no run, completed or failed, loses a row.
pub fn run_migrations(conn: &mut rusqlite::Connection) -> (r: Result<u32, StoreError>)
    ensures
        r matches Ok(n) ==> {
            let eff = effective_start(db_version(*old(conn)), db_plants_exists(*old(conn)));
            &&& n as int == steps_needed(eff)
            &&& db_version(*final(conn)) == if eff >= LATEST_VERSION as int {
                db_version(*old(conn))
            } else {
                LATEST_VERSION as int
            }
            &&& db_data_unchanged(*old(conn), *final(conn))
            &&& n > 0 ==> db_plants_exists(*final(conn))
        },
        r matches Err(e) ==> {
            let eff = effective_start(db_version(*old(conn)), db_plants_exists(*old(conn)));
            &&& e is Migration
            &&& db_data_unchanged(*old(conn), *final(conn))
            &&& (db_version(*final(conn)) == db_version(*old(conn)) || (eff <= db_version(
                *final(conn),
            ) <= LATEST_VERSION as int))
        },
{
    match ensure_version_row(conn) {
        Ok(_) => {},
        Err(m) => {
            return Err(StoreError::Migration(m));
        },
    }
    let mut current: i32 = match read_version(conn) {
        Ok(v) => v,
        Err(m) => {
            return Err(StoreError::Migration(m));
        },
    };
    if current == 0 {
        let legacy = match plants_table_exists(conn) {
            Ok(b) => b,
            Err(m) => {
                return Err(StoreError::Migration(m));
            },
        };
        if legacy {
            match set_version(conn, 1) {
                Ok(_) => {},
                Err(m) => {
                    return Err(StoreError::Migration(m));
                },
            }
            current = 1;
        }
    }
    let mut applied: u32 = 0;
    if current < 1 {
        match run_batch(conn, forward_sql(1)) {
            Ok(_) => {},
            Err(m) => {
                return Err(StoreError::Migration(m));
            },
        }
        match set_version(conn, 1) {
            Ok(_) => {},
            Err(m) => {
                return Err(StoreError::Migration(m));
            },
        }
        applied = applied + 1;
    }
    if current < 2 {
        match run_batch(conn, forward_sql(2)) {
            Ok(_) => {},
            Err(m) => {
                return Err(StoreError::Migration(m));
            },
        }
        match set_version(conn, 2) {
            Ok(_) => {},
            Err(m) => {
                return Err(StoreError::Migration(m));
            },
        }
        applied = applied + 1;
    }
    if current < 3 {
        match run_batch(conn, forward_sql(3)) {
            Ok(_) => {},
            Err(m) => {
                return Err(StoreError::Migration(m));
            },
        }
        match set_version(conn, 3) {
            Ok(_) => {},
            Err(m) => {
                return Err(StoreError::Migration(m));
            },
        }
        applied = applied + 1;
    }
    Ok(applied)
}

/// Once the recorded version has reached the newest step, a further run
/// fast-forwards nothing and needs zero forward steps: together with the
/// engine's contract, a second run changes neither the version nor a row.
pub proof fn lemma_migrations_idempotent(version: int, plants_exist: bool)
    requires
        version >= LATEST_VERSION as int,
    ensures
        effective_start(version, plants_exist) == version,
        steps_needed(effective_start(version, plants_exist)) == 0,
{
}

/// A store with only the base tables and no version record fast-forwards to
/// version 1, so the base step never reruns and only the later steps are
/// needed.
pub proof fn lemma_legacy_fast_forward()
    ensures
        effective_start(0, true) == 1,
        steps_needed(effective_start(0, true)) == LATEST_VERSION as int - 1,
{
}

} // verus!
