//! A verified gardening-planner core: plants, recurring activities and
//! plant photos in a SQLite store behind a schema-versioned migration
//! engine, with a 24-slot half-month period encoding shared by storage,
//! month planning and import.

mod activities;
mod encoding;
mod error;
mod import;
mod migrations;
mod models;
mod order;
mod periods;
mod photos;
mod plants;
mod projection;
mod storage;

pub use encoding::{base64_decoding, base64_encoding};
pub use error::StoreError;
pub use import::{ImportRow, ImportRowData, decode_import_cell, import_plants_tsv, parse_import_rows};
pub use import::{cell_marked, find_char, import_rows_view, is_space, line_cols, line_name, line_valid, line_valid_fn, lines_of, mask_from_cols, parsed_rows, row_of_line, row_of_line_fn, split_char, strip_cr, trim_of};
pub use plants::{create_plant, delete_plant, get_all_plants, update_plant};
pub use plants::{lemma_create_then_list, lemma_update_then_list};
pub use activities::{create_activity, delete_activity, get_all_activities, update_activity};
pub use photos::{add_photo, delete_photo, get_photos, lemma_cascade_empties_listing, photo_of_row, rows_as_photos};
pub use projection::{MonthData, get_month_data, project_month};
pub use projection::{active_in_month, plant_in_slot, sow_in_slot};
pub use migrations::{LATEST_VERSION, run_migrations};
pub use migrations::{effective_start, forward_sql, forward_sql_spec, reverse_sql, steps_needed};
pub use migrations::{lemma_legacy_fast_forward, lemma_migrations_idempotent};
pub use models::{Activity, ActivityRow, AppConfig, Plant, PlantPhoto, PlantRow, PhotoRow};
pub use models::{ActivityData, ActivityRowData, PhotoData, PhotoRowData, PlantData, PlantRowData};
pub use models::{activity_of_row, activity_rows_view, opt_view, photo_rows_view, plant_of_row, plant_rows_view};
pub use models::{activities_view, activity_fields_match, photos_view, plant_fields_match, plants_view, rows_as_activities, rows_as_plants};
pub use models::{activity_has_id, activity_keeps_id, photo_keeps_id, photo_not_of_plant, photo_of_plant, plant_has_id, plant_keeps_id};
pub use models::{activity_rows_distinct_ids, photo_rows_distinct_ids, plant_rows_distinct_ids};
pub use order::{activities_sorted_by_name, photos_sorted_by_order, plants_sorted_by_name, str_le};
pub use order::{activity_data_sorted_by_name, photo_data_sorted_by_order, plant_data_sorted_by_name};
pub use order::{lemma_filter_contained, lemma_filter_idempotent, lemma_filter_membership, lemma_filter_push};
pub use storage::{db_activities, db_data_unchanged, db_photos, db_plants, db_plants_exists, db_version};
pub use periods::{Half, PeriodMask, SunRequirement};
pub use periods::{combine_sun_requirements, is_active, month_slot};
pub use periods::{combined_sun, lemma_combined_sun_membership, lemma_month_slots_partition};
pub use periods::{slot_index, slot_set, sun_flag_bit};
