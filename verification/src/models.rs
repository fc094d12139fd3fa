//! The entity types, their persisted row types, and the mathematical views
//! the contracts speak of.

use vstd::prelude::*;

use crate::periods::PeriodMask;

verus! {

/// A plant as callers see it: `id` and the timestamps are `None` until the
/// store has persisted the plant and assigned them.
#[derive(Debug, Clone)]
pub struct Plant {
    pub id: Option<i64>,
    pub name: String,
    pub plant_type: Option<String>,
    pub sun_requirements: u32,
    pub sow_periods: PeriodMask,
    pub plant_periods: PeriodMask,
    pub notes: Option<String>,
    pub needs_reorder: bool,
    pub created_at: Option<String>,
    pub updated_at: Option<String>,
}

/// A recurring activity; its active periods use the same 24-bit encoding.
#[derive(Debug, Clone)]
pub struct Activity {
    pub id: Option<i64>,
    pub name: String,
    pub description: Option<String>,
    pub active_periods: PeriodMask,
    pub created_at: Option<String>,
    pub updated_at: Option<String>,
}

/// A photo attached to a plant. Across the store boundary the payload is
/// base64 text; internally the store holds raw bytes.
#[derive(Debug, Clone)]
pub struct PlantPhoto {
    pub id: Option<i64>,
    pub plant_id: i64,
    pub sort_order: i32,
    pub image_data: Option<String>,
    pub created_at: Option<String>,
}

/// The small persisted configuration record: where the store file lives.
/// `None` means the default location.
#[derive(Debug, Clone)]
pub struct AppConfig {
    pub database_path: Option<String>,
}

impl Default for AppConfig {
    /// The default configuration names no custom store path.
    fn default() -> (r: AppConfig)
        ensures
            r.database_path is None,
    {
        AppConfig { database_path: None }
    }
}

/// A persisted plant row: the identity is always present.
#[derive(Debug, Clone)]
pub struct PlantRow {
    pub id: i64,
    pub name: String,
    pub plant_type: Option<String>,
    pub sun_requirements: u32,
    pub sow_periods: PeriodMask,
    pub plant_periods: PeriodMask,
    pub notes: Option<String>,
    pub needs_reorder: bool,
    pub created_at: Option<String>,
    pub updated_at: Option<String>,
}

/// A persisted activity row.
#[derive(Debug, Clone)]
pub struct ActivityRow {
    pub id: i64,
    pub name: String,
    pub description: Option<String>,
    pub active_periods: PeriodMask,
    pub created_at: Option<String>,
    pub updated_at: Option<String>,
}

/// A persisted photo row, payload as raw bytes.
#[derive(Debug, Clone)]
pub struct PhotoRow {
    pub id: i64,
    pub plant_id: i64,
    pub sort_order: i32,
    pub image_data: Option<Vec<u8>>,
    pub created_at: Option<String>,
}

/// The mathematical content of a plant: strings as character sequences,
/// period masks as their raw bits.
pub struct PlantData {
    pub id: Option<int>,
    pub name: Seq<char>,
    pub plant_type: Option<Seq<char>>,
    pub sun_requirements: u32,
    pub sow_periods: u32,
    pub plant_periods: u32,
    pub notes: Option<Seq<char>>,
    pub needs_reorder: bool,
    pub created_at: Option<Seq<char>>,
    pub updated_at: Option<Seq<char>>,
}

/// The mathematical content of a persisted plant row.
pub struct PlantRowData {
    pub id: int,
    pub name: Seq<char>,
    pub plant_type: Option<Seq<char>>,
    pub sun_requirements: u32,
    pub sow_periods: u32,
    pub plant_periods: u32,
    pub notes: Option<Seq<char>>,
    pub needs_reorder: bool,
    pub created_at: Option<Seq<char>>,
    pub updated_at: Option<Seq<char>>,
}

/// The mathematical content of an activity.
pub struct ActivityData {
    pub id: Option<int>,
    pub name: Seq<char>,
    pub description: Option<Seq<char>>,
    pub active_periods: u32,
    pub created_at: Option<Seq<char>>,
    pub updated_at: Option<Seq<char>>,
}

/// The mathematical content of a persisted activity row.
pub struct ActivityRowData {
    pub id: int,
    pub name: Seq<char>,
    pub description: Option<Seq<char>>,
    pub active_periods: u32,
    pub created_at: Option<Seq<char>>,
    pub updated_at: Option<Seq<char>>,
}

/// The mathematical content of a photo as callers see it: payload as base64 text.
pub struct PhotoData {
    pub id: Option<int>,
    pub plant_id: int,
    pub sort_order: int,
    pub image_data: Option<Seq<char>>,
    pub created_at: Option<Seq<char>>,
}

/// The mathematical content of a persisted photo row: payload as raw bytes.
pub struct PhotoRowData {
    pub id: int,
    pub plant_id: int,
    pub sort_order: int,
    pub image_data: Option<Seq<u8>>,
    pub created_at: Option<Seq<char>>,
}

/// The view of an optional string: the characters, if present.
pub open spec fn opt_view(s: Option<String>) -> Option<Seq<char>> {
    match s {
        Some(t) => Some(t@),
        None => None,
    }
}

impl View for Plant {
    type V = PlantData;

    open spec fn view(&self) -> PlantData {
        PlantData {
            id: match self.id {
                Some(i) => Some(i as int),
                None => None,
            },
            name: self.name@,
            plant_type: opt_view(self.plant_type),
            sun_requirements: self.sun_requirements,
            sow_periods: self.sow_periods.bits,
            plant_periods: self.plant_periods.bits,
            notes: opt_view(self.notes),
            needs_reorder: self.needs_reorder,
            created_at: opt_view(self.created_at),
            updated_at: opt_view(self.updated_at),
        }
    }
}

impl View for PlantRow {
    type V = PlantRowData;

    open spec fn view(&self) -> PlantRowData {
        PlantRowData {
            id: self.id as int,
            name: self.name@,
            plant_type: opt_view(self.plant_type),
            sun_requirements: self.sun_requirements,
            sow_periods: self.sow_periods.bits,
            plant_periods: self.plant_periods.bits,
            notes: opt_view(self.notes),
            needs_reorder: self.needs_reorder,
            created_at: opt_view(self.created_at),
            updated_at: opt_view(self.updated_at),
        }
    }
}

impl View for Activity {
    type V = ActivityData;

    open spec fn view(&self) -> ActivityData {
        ActivityData {
            id: match self.id {
                Some(i) => Some(i as int),
                None => None,
            },
            name: self.name@,
            description: opt_view(self.description),
            active_periods: self.active_periods.bits,
            created_at: opt_view(self.created_at),
            updated_at: opt_view(self.updated_at),
        }
    }
}

impl View for ActivityRow {
    type V = ActivityRowData;

    open spec fn view(&self) -> ActivityRowData {
        ActivityRowData {
            id: self.id as int,
            name: self.name@,
            description: opt_view(self.description),
            active_periods: self.active_periods.bits,
            created_at: opt_view(self.created_at),
            updated_at: opt_view(self.updated_at),
        }
    }
}

impl View for PlantPhoto {
    type V = PhotoData;

    open spec fn view(&self) -> PhotoData {
        PhotoData {
            id: match self.id {
                Some(i) => Some(i as int),
                None => None,
            },
            plant_id: self.plant_id as int,
            sort_order: self.sort_order as int,
            image_data: opt_view(self.image_data),
            created_at: opt_view(self.created_at),
        }
    }
}

impl View for PhotoRow {
    type V = PhotoRowData;

    open spec fn view(&self) -> PhotoRowData {
        PhotoRowData {
            id: self.id as int,
            plant_id: self.plant_id as int,
            sort_order: self.sort_order as int,
            image_data: match self.image_data {
                Some(b) => Some(b@),
                None => None,
            },
            created_at: opt_view(self.created_at),
        }
    }
}

/// The plant a persisted row stands for: the same content, identity present.
pub open spec fn plant_of_row(r: PlantRowData) -> PlantData {
    PlantData {
        id: Some(r.id),
        name: r.name,
        plant_type: r.plant_type,
        sun_requirements: r.sun_requirements,
        sow_periods: r.sow_periods,
        plant_periods: r.plant_periods,
        notes: r.notes,
        needs_reorder: r.needs_reorder,
        created_at: r.created_at,
        updated_at: r.updated_at,
    }
}

/// The activity a persisted row stands for.
pub open spec fn activity_of_row(r: ActivityRowData) -> ActivityData {
    ActivityData {
        id: Some(r.id),
        name: r.name,
        description: r.description,
        active_periods: r.active_periods,
        created_at: r.created_at,
        updated_at: r.updated_at,
    }
}

/// The views of a sequence of plant rows.
pub open spec fn plant_rows_view(s: Seq<PlantRow>) -> Seq<PlantRowData> {
    s.map_values(|r: PlantRow| r@)
}

/// The views of a sequence of activity rows.
pub open spec fn activity_rows_view(s: Seq<ActivityRow>) -> Seq<ActivityRowData> {
    s.map_values(|r: ActivityRow| r@)
}

/// The views of a sequence of photo rows.
pub open spec fn photo_rows_view(s: Seq<PhotoRow>) -> Seq<PhotoRowData> {
    s.map_values(|r: PhotoRow| r@)
}

/// The views of a sequence of plants.
pub open spec fn plants_view(s: Seq<Plant>) -> Seq<PlantData> {
    s.map_values(|p: Plant| p@)
}

/// The views of a sequence of activities.
pub open spec fn activities_view(s: Seq<Activity>) -> Seq<ActivityData> {
    s.map_values(|a: Activity| a@)
}

/// The views of a sequence of photos.
pub open spec fn photos_view(s: Seq<PlantPhoto>) -> Seq<PhotoData> {
    s.map_values(|p: PlantPhoto| p@)
}

/// The plants a sequence of persisted rows stands for.
pub open spec fn rows_as_plants(rows: Seq<PlantRowData>) -> Seq<PlantData> {
    rows.map_values(|r: PlantRowData| plant_of_row(r))
}

/// The activities a sequence of persisted rows stands for.
pub open spec fn rows_as_activities(rows: Seq<ActivityRowData>) -> Seq<ActivityData> {
    rows.map_values(|r: ActivityRowData| activity_of_row(r))
}

/// A persisted plant row carries exactly the plant's caller-supplied fields:
/// everything but identity and timestamps.
pub open spec fn plant_fields_match(r: PlantRowData, p: PlantData) -> bool {
    &&& r.name == p.name
    &&& r.plant_type == p.plant_type
    &&& r.sun_requirements == p.sun_requirements
    &&& r.sow_periods == p.sow_periods
    &&& r.plant_periods == p.plant_periods
    &&& r.notes == p.notes
    &&& r.needs_reorder == p.needs_reorder
}

/// A persisted activity row carries exactly the activity's caller-supplied
/// fields: everything but identity and timestamps.
pub open spec fn activity_fields_match(r: ActivityRowData, a: ActivityData) -> bool {
    &&& r.name == a.name
    &&& r.description == a.description
    &&& r.active_periods == a.active_periods
}

/// The plant rows carrying the given identity.
pub open spec fn plant_has_id(id: int) -> spec_fn(PlantRowData) -> bool {
    |x: PlantRowData| x.id == id
}

/// The plant rows not carrying the given identity.
pub open spec fn plant_keeps_id(id: int) -> spec_fn(PlantRowData) -> bool {
    |x: PlantRowData| x.id != id
}

/// The activity rows carrying the given identity.
pub open spec fn activity_has_id(id: int) -> spec_fn(ActivityRowData) -> bool {
    |x: ActivityRowData| x.id == id
}

/// The activity rows not carrying the given identity.
pub open spec fn activity_keeps_id(id: int) -> spec_fn(ActivityRowData) -> bool {
    |x: ActivityRowData| x.id != id
}

/// No two plant rows carry the same identity.
pub open spec fn plant_rows_distinct_ids(s: Seq<PlantRowData>) -> bool {
    forall|i: int, j: int| 0 <= i < j < s.len() ==> (#[trigger] s[i]).id != (#[trigger] s[j]).id
}

/// No two activity rows carry the same identity.
pub open spec fn activity_rows_distinct_ids(s: Seq<ActivityRowData>) -> bool {
    forall|i: int, j: int| 0 <= i < j < s.len() ==> (#[trigger] s[i]).id != (#[trigger] s[j]).id
}

/// No two photo rows carry the same identity.
pub open spec fn photo_rows_distinct_ids(s: Seq<PhotoRowData>) -> bool {
    forall|i: int, j: int| 0 <= i < j < s.len() ==> (#[trigger] s[i]).id != (#[trigger] s[j]).id
}

/// The photo rows not carrying the given identity.
pub open spec fn photo_keeps_id(id: int) -> spec_fn(PhotoRowData) -> bool {
    |x: PhotoRowData| x.id != id
}

/// The photo rows owned by the plant with the given identity.
pub open spec fn photo_of_plant(plant_id: int) -> spec_fn(PhotoRowData) -> bool {
    |x: PhotoRowData| x.plant_id == plant_id
}

/// The photo rows not owned by the plant with the given identity.
pub open spec fn photo_not_of_plant(plant_id: int) -> spec_fn(PhotoRowData) -> bool {
    |x: PhotoRowData| x.plant_id != plant_id
}

/// Copy an optional string, keeping its characters.
fn clone_opt_string(o: &Option<String>) -> (r: Option<String>)
    ensures
        opt_view(r) == opt_view(*o),
{
    match o {
        Some(s) => Some(s.clone()),
        None => None,
    }
}

impl Plant {
    /// A copy with the same content.
    pub fn duplicate(&self) -> (r: Plant)
        ensures
            r@ == self@,
    {
        Plant {
            id: self.id,
            name: self.name.clone(),
            plant_type: clone_opt_string(&self.plant_type),
            sun_requirements: self.sun_requirements,
            sow_periods: self.sow_periods,
            plant_periods: self.plant_periods,
            notes: clone_opt_string(&self.notes),
            needs_reorder: self.needs_reorder,
            created_at: clone_opt_string(&self.created_at),
            updated_at: clone_opt_string(&self.updated_at),
        }
    }
}

impl Activity {
    /// A copy with the same content.
    pub fn duplicate(&self) -> (r: Activity)
        ensures
            r@ == self@,
    {
        Activity {
            id: self.id,
            name: self.name.clone(),
            description: clone_opt_string(&self.description),
            active_periods: self.active_periods,
            created_at: clone_opt_string(&self.created_at),
            updated_at: clone_opt_string(&self.updated_at),
        }
    }
}

impl PlantRow {
    /// Turn a persisted row into the boundary-facing plant.
    pub fn into_plant(self) -> (r: Plant)
        ensures
            r@ == plant_of_row(self@),
    {
        Plant {
            id: Some(self.id),
            name: self.name,
            plant_type: self.plant_type,
            sun_requirements: self.sun_requirements,
            sow_periods: self.sow_periods,
            plant_periods: self.plant_periods,
            notes: self.notes,
            needs_reorder: self.needs_reorder,
            created_at: self.created_at,
            updated_at: self.updated_at,
        }
    }
}

impl ActivityRow {
    /// Turn a persisted row into the boundary-facing activity.
    pub fn into_activity(self) -> (r: Activity)
        ensures
            r@ == activity_of_row(self@),
    {
        Activity {
            id: Some(self.id),
            name: self.name,
            description: self.description,
            active_periods: self.active_periods,
            created_at: self.created_at,
            updated_at: self.updated_at,
        }
    }
}

} // verus!
