use tuinapp::{Half, PeriodMask, StoreError, SunRequirement};
use tuinapp::{combine_sun_requirements, decode_import_cell, is_active, month_slot};

#[test]
fn month_slots_cover_all_bits_once() {
    let mut seen = [false; 24];
    for month in 1..=12u32 {
        let early = month_slot(month, Half::Early).unwrap();
        let late = month_slot(month, Half::Late).unwrap();
        assert_eq!(late, early + 1);
        assert!((early as usize) < 24 && (late as usize) < 24);
        assert!(!seen[early as usize] && !seen[late as usize]);
        seen[early as usize] = true;
        seen[late as usize] = true;
    }
    assert!(seen.iter().all(|&b| b));
}

#[test]
fn month_slot_formula() {
    assert_eq!(month_slot(1, Half::Early).unwrap(), 0);
    assert_eq!(month_slot(1, Half::Late).unwrap(), 1);
    assert_eq!(month_slot(3, Half::Early).unwrap(), 4);
    assert_eq!(month_slot(12, Half::Late).unwrap(), 23);
}

#[test]
fn month_slot_rejects_out_of_range() {
    assert!(matches!(month_slot(0, Half::Early), Err(StoreError::Domain)));
    assert!(matches!(month_slot(13, Half::Late), Err(StoreError::Domain)));
}

#[test]
fn is_active_reads_the_right_bit() {
    let mask = PeriodMask::empty().with_slot(4);
    assert!(is_active(mask, 3, Half::Early).unwrap());
    assert!(!is_active(mask, 3, Half::Late).unwrap());
    assert!(!is_active(mask, 2, Half::Early).unwrap());
    assert!(matches!(is_active(mask, 0, Half::Early), Err(StoreError::Domain)));

    let full = PeriodMask::full();
    for month in 1..=12u32 {
        assert!(is_active(full, month, Half::Early).unwrap());
        assert!(is_active(full, month, Half::Late).unwrap());
    }
    let none = PeriodMask::empty();
    for month in 1..=12u32 {
        assert!(!is_active(none, month, Half::Early).unwrap());
        assert!(!is_active(none, month, Half::Late).unwrap());
    }
}

#[test]
fn decode_import_cell_markers() {
    assert_eq!(decode_import_cell("Z"), (true, false));
    assert_eq!(decode_import_cell("P"), (false, true));
    assert_eq!(decode_import_cell("ZP"), (true, true));
    assert_eq!(decode_import_cell(""), (false, false));
}

#[test]
fn decode_import_cell_is_case_sensitive_containment() {
    assert_eq!(decode_import_cell("z p"), (false, false));
    assert_eq!(decode_import_cell(" some Z note "), (true, false));
    assert_eq!(decode_import_cell("xPy"), (false, true));
}

#[test]
fn combine_sun_requirements_ors_flags() {
    assert_eq!(combine_sun_requirements(&vec![]), 0);
    assert_eq!(combine_sun_requirements(&vec![SunRequirement::FullSun]), 1);
    assert_eq!(combine_sun_requirements(&vec![SunRequirement::PartialShade]), 2);
    assert_eq!(combine_sun_requirements(&vec![SunRequirement::FullShade]), 4);
    assert_eq!(
        combine_sun_requirements(&vec![SunRequirement::FullSun, SunRequirement::FullShade]),
        5
    );
    assert_eq!(
        combine_sun_requirements(&vec![
            SunRequirement::FullSun,
            SunRequirement::PartialShade,
            SunRequirement::FullShade,
            SunRequirement::FullSun,
        ]),
        7
    );
}

#[test]
fn period_mask_set_and_test() {
    let mut mask = PeriodMask::empty();
    mask = mask.with_slot(0).with_slot(23);
    assert!(mask.is_set(0));
    assert!(mask.is_set(23));
    assert!(!mask.is_set(1));
    assert_eq!(mask.bits, 1 | (1 << 23));
}

#[test]
fn error_messages_describe_the_failure() {
    assert!(!StoreError::Domain.message().is_empty());
    assert!(!StoreError::Validation.message().is_empty());
    assert!(StoreError::Unavailable(String::from("x")).message().contains("x"));
}
