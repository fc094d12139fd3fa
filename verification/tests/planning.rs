use rusqlite::Connection;
use tuinapp::{Activity, Half, PeriodMask, Plant, StoreError};
use tuinapp::{
    create_activity, create_plant, get_month_data, import_plants_tsv, get_all_plants, month_slot,
    parse_import_rows, project_month, run_migrations,
};

fn store() -> Connection {
    let mut conn = Connection::open_in_memory().unwrap();
    run_migrations(&mut conn).unwrap();
    conn
}

fn plant_with_masks(name: &str, sow: u32, plantp: u32) -> Plant {
    Plant {
        id: None,
        name: name.to_string(),
        plant_type: None,
        sun_requirements: 0,
        sow_periods: PeriodMask::from_bits(sow),
        plant_periods: PeriodMask::from_bits(plantp),
        notes: None,
        needs_reorder: false,
        created_at: None,
        updated_at: None,
    }
}

#[test]
fn month_view_includes_exactly_the_marked_plants() {
    let mut conn = store();
    let early3 = 1u32 << month_slot(3, Half::Early).unwrap();
    let late3 = 1u32 << month_slot(3, Half::Late).unwrap();
    create_plant(&mut conn, plant_with_masks("Alles", 0xFFFFFF, 0xFFFFFF)).unwrap();
    create_plant(&mut conn, plant_with_masks("Niets", 0, 0)).unwrap();
    create_plant(&mut conn, plant_with_masks("VroegZaai", early3, 0)).unwrap();
    create_plant(&mut conn, plant_with_masks("LaatPlant", 0, late3)).unwrap();

    let md = get_month_data(&conn, 3).unwrap();
    let names = |ps: &Vec<Plant>| ps.iter().map(|p| p.name.clone()).collect::<Vec<_>>();
    assert_eq!(names(&md.sow_early), vec!["Alles", "VroegZaai"]);
    assert_eq!(names(&md.sow_late), vec!["Alles"]);
    assert_eq!(names(&md.plant_early), vec!["Alles"]);
    assert_eq!(names(&md.plant_late), vec!["Alles", "LaatPlant"]);
    assert!(md.activities.is_empty());
}

#[test]
fn month_view_includes_activities_active_in_either_half() {
    let mut conn = store();
    let early5 = 1u32 << month_slot(5, Half::Early).unwrap();
    let late5 = 1u32 << month_slot(5, Half::Late).unwrap();
    let mk = |name: &str, bits: u32| Activity {
        id: None,
        name: name.to_string(),
        description: None,
        active_periods: PeriodMask::from_bits(bits),
        created_at: None,
        updated_at: None,
    };
    create_activity(&mut conn, mk("VroegeKlus", early5)).unwrap();
    create_activity(&mut conn, mk("LateKlus", late5)).unwrap();
    create_activity(&mut conn, mk("AndereMaand", 1)).unwrap();
    create_activity(&mut conn, mk("Nooit", 0)).unwrap();

    let md = get_month_data(&conn, 5).unwrap();
    let names: Vec<String> = md.activities.iter().map(|a| a.name.clone()).collect();
    assert_eq!(names, vec!["LateKlus", "VroegeKlus"]);
}

#[test]
fn month_view_rejects_out_of_range_months() {
    let conn = store();
    assert!(matches!(get_month_data(&conn, 0), Err(StoreError::Domain)));
    assert!(matches!(get_month_data(&conn, 13), Err(StoreError::Domain)));
    assert!(matches!(project_month(&vec![], &vec![], 0), Err(StoreError::Domain)));
}

#[test]
fn projection_is_a_pure_filter() {
    let plants = vec![
        plant_with_masks("A", 0b01, 0b10),
        plant_with_masks("B", 0b10, 0b01),
    ];
    let md = project_month(&plants, &vec![], 1).unwrap();
    assert_eq!(md.sow_early.len(), 1);
    assert_eq!(md.sow_early[0].name, "A");
    assert_eq!(md.sow_late.len(), 1);
    assert_eq!(md.sow_late[0].name, "B");
    assert_eq!(md.plant_early.len(), 1);
    assert_eq!(md.plant_early[0].name, "B");
    assert_eq!(md.plant_late.len(), 1);
    assert_eq!(md.plant_late[0].name, "A");
}

#[test]
fn import_creates_one_plant_per_valid_row() {
    let mut conn = store();
    // header, then one row: name in column 0, a sow marker in the column for
    // the early half of month 3 (column 1 + slot 4)
    let text = "naam\tjan1\tjan2\tfeb1\tfeb2\tmrt1\nCarrot\t\t\t\t\tZ\n";
    let n = import_plants_tsv(&mut conn, text).unwrap();
    assert_eq!(n, 1);
    let plants = get_all_plants(&conn).unwrap();
    assert_eq!(plants.len(), 1);
    assert_eq!(plants[0].name, "Carrot");
    let expected = 1u32 << month_slot(3, Half::Early).unwrap();
    assert_eq!(plants[0].sow_periods.bits, expected);
    assert_eq!(plants[0].plant_periods.bits, 0);
}

#[test]
fn import_skips_rows_with_empty_names_and_tolerates_short_rows() {
    let mut conn = store();
    let text = "kop\nBoon\tZP\n   \t\tZ\n\nUi";
    let n = import_plants_tsv(&mut conn, text).unwrap();
    assert_eq!(n, 2);
    let plants = get_all_plants(&conn).unwrap();
    assert_eq!(plants.len(), 2);
    assert_eq!(plants[0].name, "Boon");
    assert_eq!(plants[0].sow_periods.bits, 1);
    assert_eq!(plants[0].plant_periods.bits, 1);
    assert_eq!(plants[1].name, "Ui");
    assert_eq!(plants[1].sow_periods.bits, 0);
}

#[test]
fn import_trims_names_and_handles_crlf() {
    let mut conn = store();
    let text = "kop\r\n  Prei  \tP\r\n";
    let n = import_plants_tsv(&mut conn, text).unwrap();
    assert_eq!(n, 1);
    let plants = get_all_plants(&conn).unwrap();
    assert_eq!(plants[0].name, "Prei");
    assert_eq!(plants[0].plant_periods.bits, 1);
}

#[test]
fn import_trims_unicode_whitespace_from_names() {
    let mut conn = store();
    // non-breaking spaces around the name, and a name that is nothing but one
    let text = "kop\n\u{a0}Sering\u{a0} \tZ\n\u{a0}\tZ\n";
    let n = import_plants_tsv(&mut conn, text).unwrap();
    assert_eq!(n, 1);
    let plants = get_all_plants(&conn).unwrap();
    assert_eq!(plants.len(), 1);
    assert_eq!(plants[0].name, "Sering");
    assert_eq!(plants[0].sow_periods.bits, 1);
}

#[test]
fn import_of_header_only_or_empty_text_creates_nothing() {
    let mut conn = store();
    assert_eq!(import_plants_tsv(&mut conn, "").unwrap(), 0);
    assert_eq!(import_plants_tsv(&mut conn, "alleen een kop").unwrap(), 0);
    assert!(get_all_plants(&conn).unwrap().is_empty());
}

#[test]
fn parse_rows_maps_all_twenty_four_columns() {
    let mut cells: Vec<&str> = vec!["Mix"];
    let marks = ["Z", "P", "ZP", ""];
    for i in 0..24 {
        cells.push(marks[i % 4]);
    }
    let text = format!("kop\n{}", cells.join("\t"));
    let rows = parse_import_rows(&text);
    assert_eq!(rows.len(), 1);
    let mut sow = 0u32;
    let mut plant = 0u32;
    for (i, m) in marks.iter().cycle().take(24).enumerate() {
        if m.contains('Z') {
            sow |= 1 << i;
        }
        if m.contains('P') {
            plant |= 1 << i;
        }
    }
    assert_eq!(rows[0].sow_periods.bits, sow);
    assert_eq!(rows[0].plant_periods.bits, plant);
    // a column beyond the 24 slots is ignored
    let text2 = "kop\nExtra\tZ\t\t\t\t\t\t\t\t\t\t\t\t\t\t\t\t\t\t\t\t\t\t\t\tZZZ";
    let rows2 = parse_import_rows(text2);
    assert_eq!(rows2[0].sow_periods.bits, 1);
}
