use rusqlite::Connection;
use tuinapp::{LATEST_VERSION, forward_sql, get_all_plants, get_photos, reverse_sql, run_migrations};

fn recorded_version(conn: &Connection) -> i32 {
    conn.query_row("SELECT version FROM schema_version LIMIT 1", [], |row| row.get(0)).unwrap()
}

#[test]
fn fresh_store_runs_every_step() {
    let mut conn = Connection::open_in_memory().unwrap();
    let n = run_migrations(&mut conn).unwrap();
    assert_eq!(n, 3);
    assert_eq!(recorded_version(&conn), LATEST_VERSION as i32);
    // the full schema is in place: a select over every column works
    assert!(get_all_plants(&conn).unwrap().is_empty());
}

#[test]
fn second_run_is_idempotent() {
    let mut conn = Connection::open_in_memory().unwrap();
    run_migrations(&mut conn).unwrap();
    conn.execute(
        "INSERT INTO plants (name, sow_periods, plant_periods) VALUES ('Sla', 3, 0)",
        [],
    )
    .unwrap();
    let n = run_migrations(&mut conn).unwrap();
    assert_eq!(n, 0);
    assert_eq!(recorded_version(&conn), 3);
    let plants = get_all_plants(&conn).unwrap();
    assert_eq!(plants.len(), 1);
    assert_eq!(plants[0].name, "Sla");
    assert_eq!(plants[0].sow_periods.bits, 3);
}

#[test]
fn legacy_store_fast_forwards_without_data_loss() {
    let mut conn = Connection::open_in_memory().unwrap();
    // a pre-versioning store: only the base tables, no version record
    conn.execute_batch(forward_sql(1)).unwrap();
    conn.execute(
        "INSERT INTO plants (name, plant_type, sun_requirement, sow_periods, plant_periods) \
         VALUES ('Roos', 'flower', 'partial_shade', 5, 8)",
        [],
    )
    .unwrap();
    let n = run_migrations(&mut conn).unwrap();
    // the base step is already present, so only the two later steps run
    assert_eq!(n, 2);
    assert_eq!(recorded_version(&conn), 3);
    let plants = get_all_plants(&conn).unwrap();
    assert_eq!(plants.len(), 1);
    assert_eq!(plants[0].name, "Roos");
    assert_eq!(plants[0].plant_type.as_deref(), Some("flower"));
    // the textual sun requirement became its flag bit
    assert_eq!(plants[0].sun_requirements, 2);
    assert_eq!(plants[0].sow_periods.bits, 5);
    assert_eq!(plants[0].plant_periods.bits, 8);
    assert!(!plants[0].needs_reorder);
}

#[test]
fn legacy_detection_with_unrecognized_sun_text_yields_zero() {
    let mut conn = Connection::open_in_memory().unwrap();
    conn.execute_batch(forward_sql(1)).unwrap();
    conn.execute("INSERT INTO plants (name) VALUES ('Munt')", []).unwrap();
    run_migrations(&mut conn).unwrap();
    let plants = get_all_plants(&conn).unwrap();
    assert_eq!(plants[0].sun_requirements, 0);
}

#[test]
fn legacy_store_with_photos_keeps_them_through_the_rewrite() {
    let mut conn = Connection::open_in_memory().unwrap();
    // a pre-versioning store that already holds a plant and its photo
    conn.execute_batch(forward_sql(1)).unwrap();
    conn.execute(
        "INSERT INTO plants (name, sun_requirement, sow_periods) VALUES ('Tomaat', 'full_sun', 1)",
        [],
    )
    .unwrap();
    let plant_id = conn.last_insert_rowid();
    conn.execute(
        "INSERT INTO plant_photos (plant_id, sort_order, image_data) VALUES (?1, 3, x'010203')",
        [plant_id],
    )
    .unwrap();

    let n = run_migrations(&mut conn).unwrap();
    assert_eq!(n, 2);

    // the table rewrite of the sun-requirement step must not fire the photo
    // cascade: the photo is still there, still attached to its plant
    let photos = get_photos(&conn, plant_id).unwrap();
    assert_eq!(photos.len(), 1);
    assert_eq!(photos[0].plant_id, plant_id);
    assert_eq!(photos[0].sort_order, 3);
    assert_eq!(photos[0].image_data.as_deref(), Some("AQID"));

    let plants = get_all_plants(&conn).unwrap();
    assert_eq!(plants.len(), 1);
    assert_eq!(plants[0].name, "Tomaat");
    assert_eq!(plants[0].sun_requirements, 1);
    assert_eq!(plants[0].sow_periods.bits, 1);
}

#[test]
fn reverse_transformations_are_listed_where_they_exist() {
    assert!(reverse_sql(1).is_none());
    assert!(reverse_sql(2).is_some());
    assert!(reverse_sql(3).is_some());
    for v in 1..=3u32 {
        assert!(!forward_sql(v).is_empty());
    }
}

#[test]
fn reverse_of_reorder_step_drops_the_column() {
    let mut conn = Connection::open_in_memory().unwrap();
    run_migrations(&mut conn).unwrap();
    conn.execute_batch(reverse_sql(3).unwrap()).unwrap();
    // the column is gone: selecting it now fails
    let res: Result<i64, _> = conn.query_row("SELECT needs_reorder FROM plants LIMIT 1", [], |row| {
        row.get(0)
    });
    assert!(res.is_err());
}
