//! The storage engine boundary: the connection's store model and the
//! trusted row-level operations on it.

use vstd::prelude::*;

use crate::models::{
    ActivityRow, ActivityRowData, PhotoRow, PhotoRowData, PlantRow, PlantRowData, activity_has_id,
    activity_keeps_id, activity_rows_distinct_ids, activity_rows_view, opt_view, photo_keeps_id,
    photo_not_of_plant, photo_rows_distinct_ids, photo_rows_view, plant_has_id, plant_keeps_id,
    plant_rows_distinct_ids, plant_rows_view,
};
use crate::order::{activities_sorted_by_name, photos_sorted_by_order, plants_sorted_by_name};
use crate::periods::PeriodMask;

verus! {

/// The storage engine's connection handle. Everything the library knows about
/// the store behind it is captured by the model functions below.
#[verifier::external_type_specification]
#[verifier::external_body]
pub struct ExConnection(rusqlite::Connection);

/// The recorded schema version of the store behind the connection:
/// the value of the version record, or 0 while no version record exists.
pub uninterp spec fn db_version(c: rusqlite::Connection) -> int;

/// Whether the plants table exists in the store behind the connection.
pub uninterp spec fn db_plants_exists(c: rusqlite::Connection) -> bool;

/// The plant rows of the store behind the connection, in rowid order, read
/// under the current schema's interpretation: a legacy textual sun requirement
/// counts as its flag bit (full sun 1, partial shade 2, full shade 4, other 0),
/// and a missing reorder column counts as false. No plants table counts as
/// no rows.
pub uninterp spec fn db_plants(c: rusqlite::Connection) -> Seq<PlantRowData>;

/// The activity rows of the store behind the connection, in rowid order;
/// no activities table counts as no rows.
pub uninterp spec fn db_activities(c: rusqlite::Connection) -> Seq<ActivityRowData>;

/// The photo rows of the store behind the connection, in rowid order;
/// no photos table counts as no rows.
pub uninterp spec fn db_photos(c: rusqlite::Connection) -> Seq<PhotoRowData>;

/// The three entity tables hold the same rows in both stores.
pub open spec fn db_data_unchanged(a: rusqlite::Connection, b: rusqlite::Connection) -> bool {
    &&& db_plants(b) == db_plants(a)
    &&& db_activities(b) == db_activities(a)
    &&& db_photos(b) == db_photos(a)
}

/// Relies on rusqlite's `Connection::prepare` and `Statement::query_map`:
/// reads all plant rows, ordered by name under the engine's binary collation
/// on UTF-8 text, their primary-key ids pairwise distinct.
#[verifier::external_body]
pub(crate) fn select_plants(conn: &rusqlite::Connection) -> (r: Result<Vec<PlantRow>, String>)
    ensures
        r matches Ok(rows) ==> {
            &&& plant_rows_view(rows@).to_multiset() == db_plants(*conn).to_multiset()
            &&& plants_sorted_by_name(plant_rows_view(rows@))
            &&& plant_rows_distinct_ids(plant_rows_view(rows@))
            &&& forall|x: PlantRowData|
                db_plants(*conn).contains(x) <==> plant_rows_view(rows@).contains(x)
        },
{
    let res = conn.prepare(
        "SELECT id, name, plant_type, sun_requirements, sow_periods, plant_periods, notes, needs_reorder, created_at, updated_at FROM plants ORDER BY name",
    ).and_then(|mut stmt| {
        stmt.query_map([], |row| Ok(PlantRow {
            id: row.get(0)?, name: row.get(1)?, plant_type: row.get(2)?,
            sun_requirements: row.get(3)?,
            sow_periods: PeriodMask { bits: row.get(4)? },
            plant_periods: PeriodMask { bits: row.get(5)? },
            notes: row.get(6)?, needs_reorder: row.get(7)?,
            created_at: row.get(8)?, updated_at: row.get(9)?,
        }))?.collect::<Result<Vec<PlantRow>, rusqlite::Error>>()
    });
    res.map_err(|e| e.to_string())
}

/// Relies on rusqlite's `Connection::query_row` running a single INSERT with
/// a RETURNING clause: the engine appends one row, assigns it a fresh
/// AUTOINCREMENT id above every id handed out before, and fills both
/// timestamp columns with the statement time, so they start out equal.
#[verifier::external_body]
pub(crate) fn insert_plant(
    conn: &mut rusqlite::Connection,
    name: &String,
    plant_type: &Option<String>,
    sun_requirements: u32,
    sow_bits: u32,
    plant_bits: u32,
    notes: &Option<String>,
    needs_reorder: bool,
) -> (r: Result<i64, String>)
    ensures
        db_activities(*final(conn)) == db_activities(*old(conn)),
        db_photos(*final(conn)) == db_photos(*old(conn)),
        db_version(*final(conn)) == db_version(*old(conn)),
        db_plants_exists(*final(conn)) == db_plants_exists(*old(conn)),
        r matches Err(_) ==> db_plants(*final(conn)) == db_plants(*old(conn)),
        r matches Ok(id) ==> {
            let rows0 = db_plants(*old(conn));
            let rows1 = db_plants(*final(conn));
            &&& rows1.len() == rows0.len() + 1
            &&& rows1.drop_last() == rows0
            &&& rows1.last().id == id as int
            &&& id >= 1
            &&& rows1.last().name == name@
            &&& rows1.last().plant_type == opt_view(*plant_type)
            &&& rows1.last().sun_requirements == sun_requirements
            &&& rows1.last().sow_periods == sow_bits
            &&& rows1.last().plant_periods == plant_bits
            &&& rows1.last().notes == opt_view(*notes)
            &&& rows1.last().needs_reorder == needs_reorder
            &&& rows1.last().created_at is Some
            &&& rows1.last().updated_at == rows1.last().created_at
            &&& forall|i: int| 0 <= i < rows0.len() ==> #[trigger] rows0[i].id < id as int
        },
{
    conn.query_row(
        "INSERT INTO plants (name, plant_type, sun_requirements, sow_periods, plant_periods, notes, needs_reorder) VALUES (?1, ?2, ?3, ?4, ?5, ?6, ?7) RETURNING id",
        (name, plant_type, sun_requirements, sow_bits, plant_bits, notes, needs_reorder),
        |row| row.get(0),
    ).map_err(|e| e.to_string())
}

/// Relies on rusqlite's `Connection::execute` running a single UPDATE:
/// every row whose id matches has its fields replaced and its update
/// timestamp refreshed; the engine reports how many rows matched. The update
/// stamp carries fractional seconds, so it orders strictly after the
/// second-granular creation stamp.
#[verifier::external_body]
pub(crate) fn update_plant_row(
    conn: &mut rusqlite::Connection,
    id: i64,
    name: &String,
    plant_type: &Option<String>,
    sun_requirements: u32,
    sow_bits: u32,
    plant_bits: u32,
    notes: &Option<String>,
    needs_reorder: bool,
) -> (r: Result<usize, String>)
    ensures
        db_activities(*final(conn)) == db_activities(*old(conn)),
        db_photos(*final(conn)) == db_photos(*old(conn)),
        db_version(*final(conn)) == db_version(*old(conn)),
        db_plants_exists(*final(conn)) == db_plants_exists(*old(conn)),
        r matches Err(_) ==> db_plants(*final(conn)) == db_plants(*old(conn)),
        r matches Ok(n) ==> {
            let rows0 = db_plants(*old(conn));
            let rows1 = db_plants(*final(conn));
            &&& rows1.len() == rows0.len()
            &&& forall|i: int|
                0 <= i < rows0.len() && rows0[i].id != id as int ==> rows1[i] == #[trigger] rows0[i]
            &&& forall|i: int|
                0 <= i < rows0.len() && #[trigger] rows0[i].id == id as int ==> {
                    &&& rows1[i].id == id as int
                    &&& rows1[i].name == name@
                    &&& rows1[i].plant_type == opt_view(*plant_type)
                    &&& rows1[i].sun_requirements == sun_requirements
                    &&& rows1[i].sow_periods == sow_bits
                    &&& rows1[i].plant_periods == plant_bits
                    &&& rows1[i].notes == opt_view(*notes)
                    &&& rows1[i].needs_reorder == needs_reorder
                    &&& rows1[i].created_at == rows0[i].created_at
                    &&& rows1[i].updated_at is Some
                }
            &&& n as int == rows0.filter(plant_has_id(id as int)).len()
        },
{
    conn.execute(
        "UPDATE plants SET name = ?1, plant_type = ?2, sun_requirements = ?3, sow_periods = ?4, plant_periods = ?5, notes = ?6, needs_reorder = ?7, updated_at = strftime('%Y-%m-%d %H:%M:%f', 'now') WHERE id = ?8",
        (name, plant_type, sun_requirements, sow_bits, plant_bits, notes, needs_reorder, id),
    ).map_err(|e| e.to_string())
}

/// Relies on rusqlite's `Connection::execute` running a single DELETE:
/// exactly the plant rows whose id matches disappear, the rest keep their
/// order. The engine enforces the schema's ON DELETE CASCADE, so the photos
/// owned by the removed plant may disappear with it: the contract leaves
/// both outcomes open, and the cascade never touches another plant's photos.
#[verifier::external_body]
pub(crate) fn delete_plant_row(conn: &mut rusqlite::Connection, id: i64) -> (r: Result<
    (),
    String,
>)
    ensures
        db_activities(*final(conn)) == db_activities(*old(conn)),
        db_version(*final(conn)) == db_version(*old(conn)),
        db_plants_exists(*final(conn)) == db_plants_exists(*old(conn)),
        r matches Err(_) ==> db_plants(*final(conn)) == db_plants(*old(conn)) && db_photos(
            *final(conn),
        ) == db_photos(*old(conn)),
        r matches Ok(_) ==> {
            &&& db_plants(*final(conn)) == db_plants(*old(conn)).filter(plant_keeps_id(id as int))
            &&& (db_photos(*final(conn)) == db_photos(*old(conn)) || db_photos(*final(conn))
                == db_photos(*old(conn)).filter(photo_not_of_plant(id as int)))
        },
{
    conn.execute("DELETE FROM plants WHERE id = ?1", [id]).map(|_| ()).map_err(|e| e.to_string())
}

/// Relies on rusqlite's `Connection::prepare` and `Statement::query_map`:
/// reads all activity rows, ordered by name under the engine's binary
/// collation on UTF-8 text, their primary-key ids pairwise distinct.
#[verifier::external_body]
pub(crate) fn select_activities(conn: &rusqlite::Connection) -> (r: Result<
    Vec<ActivityRow>,
    String,
>)
    ensures
        r matches Ok(rows) ==> {
            &&& activity_rows_view(rows@).to_multiset() == db_activities(*conn).to_multiset()
            &&& activities_sorted_by_name(activity_rows_view(rows@))
            &&& activity_rows_distinct_ids(activity_rows_view(rows@))
            &&& forall|x: ActivityRowData|
                db_activities(*conn).contains(x) <==> activity_rows_view(rows@).contains(x)
        },
{
    let res = conn.prepare(
        "SELECT id, name, description, active_periods, created_at, updated_at FROM activities ORDER BY name",
    ).and_then(|mut stmt| {
        stmt.query_map([], |row| Ok(ActivityRow {
            id: row.get(0)?, name: row.get(1)?, description: row.get(2)?,
            active_periods: PeriodMask { bits: row.get(3)? },
            created_at: row.get(4)?, updated_at: row.get(5)?,
        }))?.collect::<Result<Vec<ActivityRow>, rusqlite::Error>>()
    });
    res.map_err(|e| e.to_string())
}

/// Relies on rusqlite's `Connection::query_row` running a single INSERT with
/// a RETURNING clause, as for plants: fresh id, both stamps set to the
/// statement time.
#[verifier::external_body]
pub(crate) fn insert_activity(
    conn: &mut rusqlite::Connection,
    name: &String,
    description: &Option<String>,
    active_bits: u32,
) -> (r: Result<i64, String>)
    ensures
        db_plants(*final(conn)) == db_plants(*old(conn)),
        db_photos(*final(conn)) == db_photos(*old(conn)),
        db_version(*final(conn)) == db_version(*old(conn)),
        db_plants_exists(*final(conn)) == db_plants_exists(*old(conn)),
        r matches Err(_) ==> db_activities(*final(conn)) == db_activities(*old(conn)),
        r matches Ok(id) ==> {
            let rows0 = db_activities(*old(conn));
            let rows1 = db_activities(*final(conn));
            &&& rows1.len() == rows0.len() + 1
            &&& rows1.drop_last() == rows0
            &&& rows1.last().id == id as int
            &&& id >= 1
            &&& rows1.last().name == name@
            &&& rows1.last().description == opt_view(*description)
            &&& rows1.last().active_periods == active_bits
            &&& rows1.last().created_at is Some
            &&& rows1.last().updated_at == rows1.last().created_at
            &&& forall|i: int| 0 <= i < rows0.len() ==> #[trigger] rows0[i].id < id as int
        },
{
    conn.query_row(
        "INSERT INTO activities (name, description, active_periods) VALUES (?1, ?2, ?3) RETURNING id",
        (name, description, active_bits),
        |row| row.get(0),
    ).map_err(|e| e.to_string())
}

/// Relies on rusqlite's `Connection::execute` running a single UPDATE,
/// as for plants.
#[verifier::external_body]
pub(crate) fn update_activity_row(
    conn: &mut rusqlite::Connection,
    id: i64,
    name: &String,
    description: &Option<String>,
    active_bits: u32,
) -> (r: Result<usize, String>)
    ensures
        db_plants(*final(conn)) == db_plants(*old(conn)),
        db_photos(*final(conn)) == db_photos(*old(conn)),
        db_version(*final(conn)) == db_version(*old(conn)),
        db_plants_exists(*final(conn)) == db_plants_exists(*old(conn)),
        r matches Err(_) ==> db_activities(*final(conn)) == db_activities(*old(conn)),
        r matches Ok(n) ==> {
            let rows0 = db_activities(*old(conn));
            let rows1 = db_activities(*final(conn));
            &&& rows1.len() == rows0.len()
            &&& forall|i: int|
                0 <= i < rows0.len() && rows0[i].id != id as int ==> rows1[i] == #[trigger] rows0[i]
            &&& forall|i: int|
                0 <= i < rows0.len() && #[trigger] rows0[i].id == id as int ==> {
                    &&& rows1[i].id == id as int
                    &&& rows1[i].name == name@
                    &&& rows1[i].description == opt_view(*description)
                    &&& rows1[i].active_periods == active_bits
                    &&& rows1[i].created_at == rows0[i].created_at
                    &&& rows1[i].updated_at is Some
                }
            &&& n as int == rows0.filter(activity_has_id(id as int)).len()
        },
{
    conn.execute(
        "UPDATE activities SET name = ?1, description = ?2, active_periods = ?3, updated_at = strftime('%Y-%m-%d %H:%M:%f', 'now') WHERE id = ?4",
        (name, description, active_bits, id),
    ).map_err(|e| e.to_string())
}

/// Relies on rusqlite's `Connection::execute` running a single DELETE,
/// as for plants.
#[verifier::external_body]
pub(crate) fn delete_activity_row(conn: &mut rusqlite::Connection, id: i64) -> (r: Result<
    (),
    String,
>)
    ensures
        db_plants(*final(conn)) == db_plants(*old(conn)),
        db_photos(*final(conn)) == db_photos(*old(conn)),
        db_version(*final(conn)) == db_version(*old(conn)),
        db_plants_exists(*final(conn)) == db_plants_exists(*old(conn)),
        r matches Err(_) ==> db_activities(*final(conn)) == db_activities(*old(conn)),
        r matches Ok(_) ==> db_activities(*final(conn)) == db_activities(*old(conn)).filter(
            activity_keeps_id(id as int),
        ),
{
    conn.execute("DELETE FROM activities WHERE id = ?1", [id]).map(|_| ()).map_err(|e|
        e.to_string())
}

/// Relies on rusqlite's `Connection::prepare` and `Statement::query_map`:
/// reads all photo rows in ascending sort order, their primary-key ids
/// pairwise distinct; the engine leaves the order among equal sort orders
/// open, and the contract only claims sortedness.
#[verifier::external_body]
pub(crate) fn select_photos(conn: &rusqlite::Connection) -> (r: Result<Vec<PhotoRow>, String>)
    ensures
        r matches Ok(rows) ==> {
            &&& photo_rows_view(rows@).to_multiset() == db_photos(*conn).to_multiset()
            &&& photos_sorted_by_order(photo_rows_view(rows@))
            &&& photo_rows_distinct_ids(photo_rows_view(rows@))
            &&& forall|x: PhotoRowData|
                db_photos(*conn).contains(x) <==> photo_rows_view(rows@).contains(x)
        },
{
    let res = conn.prepare(
        "SELECT id, plant_id, sort_order, image_data, created_at FROM plant_photos ORDER BY sort_order",
    ).and_then(|mut stmt| {
        stmt.query_map([], |row| Ok(PhotoRow {
            id: row.get(0)?, plant_id: row.get(1)?, sort_order: row.get(2)?,
            image_data: row.get(3)?, created_at: row.get(4)?,
        }))?.collect::<Result<Vec<PhotoRow>, rusqlite::Error>>()
    });
    res.map_err(|e| e.to_string())
}

/// Relies on rusqlite's `Connection::query_row` running a single INSERT with
/// a RETURNING clause, as for plants.
#[verifier::external_body]
pub(crate) fn insert_photo(
    conn: &mut rusqlite::Connection,
    plant_id: i64,
    sort_order: i32,
    image: &Vec<u8>,
) -> (r: Result<i64, String>)
    ensures
        db_plants(*final(conn)) == db_plants(*old(conn)),
        db_activities(*final(conn)) == db_activities(*old(conn)),
        db_version(*final(conn)) == db_version(*old(conn)),
        db_plants_exists(*final(conn)) == db_plants_exists(*old(conn)),
        r matches Err(_) ==> db_photos(*final(conn)) == db_photos(*old(conn)),
        r matches Ok(id) ==> {
            let rows0 = db_photos(*old(conn));
            let rows1 = db_photos(*final(conn));
            &&& rows1.len() == rows0.len() + 1
            &&& rows1.drop_last() == rows0
            &&& rows1.last().id == id as int
            &&& id >= 1
            &&& rows1.last().plant_id == plant_id as int
            &&& rows1.last().sort_order == sort_order as int
            &&& rows1.last().image_data == Some(image@)
            &&& rows1.last().created_at is Some
            &&& forall|i: int| 0 <= i < rows0.len() ==> #[trigger] rows0[i].id < id as int
        },
{
    conn.query_row(
        "INSERT INTO plant_photos (plant_id, sort_order, image_data) VALUES (?1, ?2, ?3) RETURNING id",
        (plant_id, sort_order, image),
        |row| row.get(0),
    ).map_err(|e| e.to_string())
}

/// Relies on rusqlite's `Connection::execute` running a single DELETE,
/// as for plants.
#[verifier::external_body]
pub(crate) fn delete_photo_row(conn: &mut rusqlite::Connection, id: i64) -> (r: Result<
    (),
    String,
>)
    ensures
        db_plants(*final(conn)) == db_plants(*old(conn)),
        db_activities(*final(conn)) == db_activities(*old(conn)),
        db_version(*final(conn)) == db_version(*old(conn)),
        db_plants_exists(*final(conn)) == db_plants_exists(*old(conn)),
        r matches Err(_) ==> db_photos(*final(conn)) == db_photos(*old(conn)),
        r matches Ok(_) ==> db_photos(*final(conn)) == db_photos(*old(conn)).filter(
            photo_keeps_id(id as int),
        ),
{
    conn.execute("DELETE FROM plant_photos WHERE id = ?1", [id]).map(|_| ()).map_err(|e|
        e.to_string())
}

/// Relies on rusqlite's `Connection::execute` running a single DELETE:
/// exactly the rows whose owning plant id matches disappear.
#[verifier::external_body]
pub(crate) fn delete_photos_of_plant(conn: &mut rusqlite::Connection, plant_id: i64) -> (r: Result<
    (),
    String,
>)
    ensures
        db_plants(*final(conn)) == db_plants(*old(conn)),
        db_activities(*final(conn)) == db_activities(*old(conn)),
        db_version(*final(conn)) == db_version(*old(conn)),
        db_plants_exists(*final(conn)) == db_plants_exists(*old(conn)),
        r matches Err(_) ==> db_photos(*final(conn)) == db_photos(*old(conn)),
        r matches Ok(_) ==> db_photos(*final(conn)) == db_photos(*old(conn)).filter(
            photo_not_of_plant(plant_id as int),
        ),
{
    conn.execute("DELETE FROM plant_photos WHERE plant_id = ?1", [plant_id]).map(|_| ()).map_err(
        |e| e.to_string(),
    )
}

} // verus!
