use rusqlite::Connection;
use tuinapp::{Activity, PeriodMask, Plant, StoreError};
use tuinapp::{
    add_photo, create_activity, create_plant, delete_activity, delete_photo, delete_plant,
    get_all_activities, get_all_plants, get_photos, run_migrations, update_activity, update_plant,
};

fn store() -> Connection {
    let mut conn = Connection::open_in_memory().unwrap();
    run_migrations(&mut conn).unwrap();
    conn
}

fn plant(name: &str) -> Plant {
    Plant {
        id: None,
        name: name.to_string(),
        plant_type: Some("herb".to_string()),
        sun_requirements: 3,
        sow_periods: PeriodMask::from_bits(0b101),
        plant_periods: PeriodMask::from_bits(0b010),
        notes: Some("zaaien in maart".to_string()),
        needs_reorder: true,
        created_at: None,
        updated_at: None,
    }
}

#[test]
fn create_assigns_identity_and_timestamps() {
    let mut conn = store();
    let created = create_plant(&mut conn, plant("Basilicum")).unwrap();
    assert!(created.id.is_some());
    let listed = get_all_plants(&conn).unwrap();
    assert_eq!(listed.len(), 1);
    let row = &listed[0];
    assert_eq!(row.id, created.id);
    assert_eq!(row.name, "Basilicum");
    assert_eq!(row.plant_type.as_deref(), Some("herb"));
    assert_eq!(row.sun_requirements, 3);
    assert_eq!(row.sow_periods.bits, 0b101);
    assert_eq!(row.plant_periods.bits, 0b010);
    assert_eq!(row.notes.as_deref(), Some("zaaien in maart"));
    assert!(row.needs_reorder);
    assert!(row.created_at.is_some());
    // both stamps come from the same insert statement
    assert_eq!(row.updated_at, row.created_at);
}

#[test]
fn create_rejects_empty_name() {
    let mut conn = store();
    let mut p = plant("x");
    p.name = String::new();
    assert!(matches!(create_plant(&mut conn, p), Err(StoreError::Validation)));
    assert!(get_all_plants(&conn).unwrap().is_empty());
}

#[test]
fn listing_is_ordered_by_name() {
    let mut conn = store();
    create_plant(&mut conn, plant("Courgette")).unwrap();
    create_plant(&mut conn, plant("Aubergine")).unwrap();
    create_plant(&mut conn, plant("Biet")).unwrap();
    let names: Vec<String> = get_all_plants(&conn).unwrap().into_iter().map(|p| p.name).collect();
    assert_eq!(names, vec!["Aubergine", "Biet", "Courgette"]);
}

#[test]
fn update_round_trip_replaces_fields_and_refreshes_stamp() {
    let mut conn = store();
    let created = create_plant(&mut conn, plant("Dille")).unwrap();
    let before = get_all_plants(&conn).unwrap();
    let created_at = before[0].created_at.clone().unwrap();

    let replacement = Plant {
        id: created.id,
        name: "Dille (nieuw)".to_string(),
        plant_type: None,
        sun_requirements: 4,
        sow_periods: PeriodMask::from_bits(0xFFFFFF),
        plant_periods: PeriodMask::from_bits(0),
        notes: None,
        needs_reorder: false,
        created_at: None,
        updated_at: None,
    };
    update_plant(&mut conn, &replacement).unwrap();

    let after = get_all_plants(&conn).unwrap();
    assert_eq!(after.len(), 1);
    let row = &after[0];
    assert_eq!(row.id, created.id);
    assert_eq!(row.name, "Dille (nieuw)");
    assert_eq!(row.plant_type, None);
    assert_eq!(row.sun_requirements, 4);
    assert_eq!(row.sow_periods.bits, 0xFFFFFF);
    assert_eq!(row.plant_periods.bits, 0);
    assert_eq!(row.notes, None);
    assert!(!row.needs_reorder);
    assert_eq!(row.created_at.as_deref(), Some(created_at.as_str()));
    assert!(row.updated_at.as_deref().unwrap() > created_at.as_str());
}

#[test]
fn update_of_unknown_identity_is_not_found() {
    let mut conn = store();
    let mut p = plant("Erwt");
    p.id = Some(4711);
    assert!(matches!(update_plant(&mut conn, &p), Err(StoreError::NotFound)));
    let mut q = plant("Erwt");
    q.id = None;
    assert!(matches!(update_plant(&mut conn, &q), Err(StoreError::NotFound)));
}

#[test]
fn delete_is_idempotent() {
    let mut conn = store();
    let created = create_plant(&mut conn, plant("Framboos")).unwrap();
    delete_plant(&mut conn, created.id.unwrap()).unwrap();
    assert!(get_all_plants(&conn).unwrap().is_empty());
    delete_plant(&mut conn, created.id.unwrap()).unwrap();
    delete_plant(&mut conn, 99999).unwrap();
}

#[test]
fn activity_round_trip() {
    let mut conn = store();
    let act = Activity {
        id: None,
        name: "Snoeien".to_string(),
        description: Some("fruitbomen".to_string()),
        active_periods: PeriodMask::from_bits(0b11),
        created_at: None,
        updated_at: None,
    };
    let created = create_activity(&mut conn, act).unwrap();
    assert!(created.id.is_some());
    let listed = get_all_activities(&conn).unwrap();
    assert_eq!(listed.len(), 1);
    assert_eq!(listed[0].name, "Snoeien");
    assert_eq!(listed[0].description.as_deref(), Some("fruitbomen"));
    assert_eq!(listed[0].active_periods.bits, 0b11);
    let created_at = listed[0].created_at.clone().unwrap();

    let replacement = Activity {
        id: created.id,
        name: "Snoeien (laat)".to_string(),
        description: None,
        active_periods: PeriodMask::from_bits(0b100),
        created_at: None,
        updated_at: None,
    };
    update_activity(&mut conn, &replacement).unwrap();
    let after = get_all_activities(&conn).unwrap();
    assert_eq!(after[0].name, "Snoeien (laat)");
    assert_eq!(after[0].description, None);
    assert_eq!(after[0].active_periods.bits, 0b100);
    assert!(after[0].updated_at.as_deref().unwrap() > created_at.as_str());

    delete_activity(&mut conn, created.id.unwrap()).unwrap();
    assert!(get_all_activities(&conn).unwrap().is_empty());
}

#[test]
fn activity_validation_and_not_found() {
    let mut conn = store();
    let empty = Activity {
        id: None,
        name: String::new(),
        description: None,
        active_periods: PeriodMask::empty(),
        created_at: None,
        updated_at: None,
    };
    assert!(matches!(create_activity(&mut conn, empty.clone()), Err(StoreError::Validation)));
    let mut named = empty;
    named.name = "Wieden".to_string();
    named.id = Some(123);
    assert!(matches!(update_activity(&mut conn, &named), Err(StoreError::NotFound)));
}

#[test]
fn photo_payload_round_trips_as_base64() {
    let mut conn = store();
    let p = create_plant(&mut conn, plant("Gerbera")).unwrap();
    let pid = p.id.unwrap();
    // "AQID" is the standard base64 of the bytes 1, 2, 3
    let photo = add_photo(&mut conn, pid, "AQID".to_string(), 7).unwrap();
    assert!(photo.id.is_some());
    assert_eq!(photo.plant_id, pid);
    assert_eq!(photo.sort_order, 7);

    let listed = get_photos(&conn, pid).unwrap();
    assert_eq!(listed.len(), 1);
    assert_eq!(listed[0].image_data.as_deref(), Some("AQID"));
    assert_eq!(listed[0].sort_order, 7);
    assert!(listed[0].created_at.is_some());

    // the stored payload really is the decoded bytes, not the text
    let raw: Vec<u8> = conn
        .query_row("SELECT image_data FROM plant_photos WHERE id = ?1", [photo.id.unwrap()], |row| {
            row.get(0)
        })
        .unwrap();
    assert_eq!(raw, vec![1u8, 2, 3]);
}

#[test]
fn photos_are_listed_by_sort_order_and_per_plant() {
    let mut conn = store();
    let a = create_plant(&mut conn, plant("Hosta")).unwrap().id.unwrap();
    let b = create_plant(&mut conn, plant("Iris")).unwrap().id.unwrap();
    add_photo(&mut conn, a, "AQID".to_string(), 5).unwrap();
    add_photo(&mut conn, a, "BQY=".to_string(), 1).unwrap();
    add_photo(&mut conn, b, "Bw==".to_string(), 0).unwrap();
    let photos = get_photos(&conn, a).unwrap();
    assert_eq!(photos.len(), 2);
    assert_eq!(photos[0].sort_order, 1);
    assert_eq!(photos[1].sort_order, 5);
    assert!(photos.iter().all(|ph| ph.plant_id == a));
}

#[test]
fn malformed_base64_is_rejected() {
    let mut conn = store();
    let pid = create_plant(&mut conn, plant("Jasmijn")).unwrap().id.unwrap();
    assert!(matches!(
        add_photo(&mut conn, pid, "niet geldig!".to_string(), 0),
        Err(StoreError::Decode(_))
    ));
    assert!(get_photos(&conn, pid).unwrap().is_empty());
}

#[test]
fn deleting_a_plant_cascades_to_its_photos() {
    let mut conn = store();
    let a = create_plant(&mut conn, plant("Kers")).unwrap().id.unwrap();
    let b = create_plant(&mut conn, plant("Linde")).unwrap().id.unwrap();
    add_photo(&mut conn, a, "AQID".to_string(), 0).unwrap();
    add_photo(&mut conn, a, "BQY=".to_string(), 1).unwrap();
    let kept = add_photo(&mut conn, b, "Bw==".to_string(), 0).unwrap();

    delete_plant(&mut conn, a).unwrap();
    assert!(get_photos(&conn, a).unwrap().is_empty());
    let others = get_photos(&conn, b).unwrap();
    assert_eq!(others.len(), 1);
    assert_eq!(others[0].id, kept.id);

    delete_photo(&mut conn, kept.id.unwrap()).unwrap();
    assert!(get_photos(&conn, b).unwrap().is_empty());
}

#[test]
fn photos_with_equal_sort_order_are_all_listed() {
    let mut conn = store();
    let a = create_plant(&mut conn, plant("Munt")).unwrap().id.unwrap();
    let first = add_photo(&mut conn, a, "AQID".to_string(), 2).unwrap();
    let second = add_photo(&mut conn, a, "BQY=".to_string(), 2).unwrap();
    let photos = get_photos(&conn, a).unwrap();
    assert_eq!(photos.len(), 2);
    assert!(photos.iter().all(|ph| ph.sort_order == 2));
    let ids: Vec<Option<i64>> = photos.iter().map(|ph| ph.id).collect();
    assert!(ids.contains(&first.id) && ids.contains(&second.id));
}
