//! The month projection: one month's planning view as a pure filter over
//! the stored plants and activities.

use vstd::prelude::*;

use crate::error::StoreError;
use crate::models::{
    Activity, ActivityData, ActivityRowData, Plant, PlantData, PlantRowData, activities_view,
    activity_rows_distinct_ids, activity_rows_view, plant_of_row, plant_rows_distinct_ids,
    plant_rows_view, plants_view, rows_as_activities, rows_as_plants,
};
use crate::order::{
    activities_sorted_by_name, activity_data_sorted_by_name, lemma_filter_keeps_activity_data_order,
    lemma_filter_keeps_plant_data_order, lemma_filter_membership, lemma_filter_push,
    lemma_rows_as_activities_keeps_order, lemma_rows_as_plants_keeps_order,
    plant_data_sorted_by_name, plants_sorted_by_name,
};
use crate::periods::{Half, month_slot, slot_index, slot_set};
use crate::storage::{db_activities, db_plants, select_activities, select_plants};

verus! {

/// The plants whose sow mask marks the given slot.
pub open spec fn sow_in_slot(slot: u32) -> spec_fn(PlantData) -> bool {
    |p: PlantData| slot_set(p.sow_periods, slot)
}

/// The plants whose plant mask marks the given slot.
pub open spec fn plant_in_slot(slot: u32) -> spec_fn(PlantData) -> bool {
    |p: PlantData| slot_set(p.plant_periods, slot)
}

/// The activities active in either half of a month, by the month's two slots.
pub open spec fn active_in_month(early: u32, late: u32) -> spec_fn(ActivityData) -> bool {
    |a: ActivityData| slot_set(a.active_periods, early) || slot_set(a.active_periods, late)
}

/// One month's planning view: who to sow and plant in each half of the month,
/// and which activities are on. Each collection keeps the name order of the
/// list it was filtered from.
pub struct MonthData {
    pub sow_early: Vec<Plant>,
    pub sow_late: Vec<Plant>,
    pub plant_early: Vec<Plant>,
    pub plant_late: Vec<Plant>,
    pub activities: Vec<Activity>,
}

/// The plants whose sow or plant mask (as chosen) marks the given slot, in
/// their given order.
fn filter_plants(plants: &Vec<Plant>, sow: bool, slot: u32) -> (r: Vec<Plant>)
    requires
        slot < 24,
    ensures
        plants_view(r@) == plants_view(plants@).filter(
            if sow {
                sow_in_slot(slot)
            } else {
                plant_in_slot(slot)
            },
        ),
{
    let ghost pred = if sow {
        sow_in_slot(slot)
    } else {
        plant_in_slot(slot)
    };
    let ghost all = plants_view(plants@);
    let mut out: Vec<Plant> = Vec::new();
    let mut i: usize = 0;
    while i < plants.len()
        invariant
            slot < 24,
            i <= plants@.len(),
            all == plants_view(plants@),
            pred == if sow {
                sow_in_slot(slot)
            } else {
                plant_in_slot(slot)
            },
            plants_view(out@) =~= all.subrange(0, i as int).filter(pred),
        decreases plants@.len() - i,
    {
        proof {
            assert(all.subrange(0, i + 1) =~= all.subrange(0, i as int).push(all[i as int]));
            lemma_filter_push(all.subrange(0, i as int), pred, all[i as int]);
            assert(all[i as int] == plants@[i as int]@);
        }
        let p = &plants[i];
        let marked = if sow {
            p.sow_periods.is_set(slot)
        } else {
            p.plant_periods.is_set(slot)
        };
        if marked {
            proof {
                assert(pred(all[i as int]));
            }
            out.push(p.duplicate());
            proof {
                let f0 = all.subrange(0, i as int).filter(pred);
                assert(plants_view(out@) =~= f0.push(all[i as int]));
            }
        } else {
            proof {
                assert(!pred(all[i as int]));
            }
        }
        i = i + 1;
    }
    proof {
        assert(all.subrange(0, all.len() as int) =~= all);
    }
    out
}

/// The activities whose active mask marks either of the two given slots, in
/// their given order.
fn filter_activities(activities: &Vec<Activity>, early: u32, late: u32) -> (r: Vec<Activity>)
    requires
        early < 24,
        late < 24,
    ensures
        activities_view(r@) == activities_view(activities@).filter(active_in_month(early, late)),
{
    let ghost pred = active_in_month(early, late);
    let ghost all = activities_view(activities@);
    let mut out: Vec<Activity> = Vec::new();
    let mut i: usize = 0;
    while i < activities.len()
        invariant
            early < 24,
            late < 24,
            i <= activities@.len(),
            all == activities_view(activities@),
            pred == active_in_month(early, late),
            activities_view(out@) =~= all.subrange(0, i as int).filter(pred),
        decreases activities@.len() - i,
    {
        proof {
            assert(all.subrange(0, i + 1) =~= all.subrange(0, i as int).push(all[i as int]));
            lemma_filter_push(all.subrange(0, i as int), pred, all[i as int]);
            assert(all[i as int] == activities@[i as int]@);
        }
        let a = &activities[i];
        let marked = a.active_periods.is_set(early) || a.active_periods.is_set(late);
        if marked {
            proof {
                assert(pred(all[i as int]));
            }
            out.push(a.duplicate());
            proof {
                let f0 = all.subrange(0, i as int).filter(pred);
                assert(activities_view(out@) =~= f0.push(all[i as int]));
            }
        } else {
            proof {
                assert(!pred(all[i as int]));
            }
        }
        i = i + 1;
    }
    proof {
        assert(all.subrange(0, all.len() as int) =~= all);
    }
    out
}

/// Project one month's view out of the given plants and activities: a plant
/// stands in a collection exactly when the month's slot is marked in the
/// relevant mask, an activity exactly when either of the month's slots is
/// marked; each collection keeps the input order. Fails with `DomainError`
/// exactly when the month lies outside 1..=12.
pub fn project_month(plants: &Vec<Plant>, activities: &Vec<Activity>, month: u32) -> (r: Result<
    MonthData,
    StoreError,
>)
    ensures
        r matches Err(e) ==> e is Domain && !(1 <= month <= 12),
        !(1 <= month <= 12) ==> r is Err,
        r matches Ok(md) ==> {
            let early = slot_index(month as int, Half::Early) as u32;
            let late = slot_index(month as int, Half::Late) as u32;
            &&& 1 <= month <= 12
            &&& plants_view(md.sow_early@) == plants_view(plants@).filter(sow_in_slot(early))
            &&& plants_view(md.sow_late@) == plants_view(plants@).filter(sow_in_slot(late))
            &&& plants_view(md.plant_early@) == plants_view(plants@).filter(plant_in_slot(early))
            &&& plants_view(md.plant_late@) == plants_view(plants@).filter(plant_in_slot(late))
            &&& activities_view(md.activities@) == activities_view(activities@).filter(
                active_in_month(early, late),
            )
            &&& plant_data_sorted_by_name(plants_view(plants@)) ==> {
                &&& plant_data_sorted_by_name(plants_view(md.sow_early@))
                &&& plant_data_sorted_by_name(plants_view(md.sow_late@))
                &&& plant_data_sorted_by_name(plants_view(md.plant_early@))
                &&& plant_data_sorted_by_name(plants_view(md.plant_late@))
            }
            &&& activity_data_sorted_by_name(activities_view(activities@))
                ==> activity_data_sorted_by_name(activities_view(md.activities@))
        },
{
    let early = month_slot(month, Half::Early)?;
    let late = match month_slot(month, Half::Late) {
        Ok(s) => s,
        Err(_) => {
            return Err(StoreError::Domain);
        },
    };
    let md = MonthData {
        sow_early: filter_plants(plants, true, early),
        sow_late: filter_plants(plants, true, late),
        plant_early: filter_plants(plants, false, early),
        plant_late: filter_plants(plants, false, late),
        activities: filter_activities(activities, early, late),
    };
    proof {
        if plant_data_sorted_by_name(plants_view(plants@)) {
            lemma_filter_keeps_plant_data_order(plants_view(plants@), sow_in_slot(early));
            lemma_filter_keeps_plant_data_order(plants_view(plants@), sow_in_slot(late));
            lemma_filter_keeps_plant_data_order(plants_view(plants@), plant_in_slot(early));
            lemma_filter_keeps_plant_data_order(plants_view(plants@), plant_in_slot(late));
        }
        if activity_data_sorted_by_name(activities_view(activities@)) {
            lemma_filter_keeps_activity_data_order(
                activities_view(activities@),
                active_in_month(early, late),
            );
        }
    }
    Ok(md)
}

/// One month's view straight from the store: the plants and activities are
/// read ordered by name, then filtered as `project_month` says; so every
/// collection is ordered by name, and a stored row stands in a collection
/// exactly when its mask marks the month's slot.
pub fn get_month_data(conn: &rusqlite::Connection, month: u32) -> (r: Result<
    MonthData,
    StoreError,
>)
    ensures
        r matches Err(e) ==> (e is Domain || e is Unavailable) && (e is Domain <==> !(1 <= month
            <= 12)),
        !(1 <= month <= 12) ==> r is Err,
        r matches Ok(md) ==> {
            let early = slot_index(month as int, Half::Early) as u32;
            let late = slot_index(month as int, Half::Late) as u32;
            &&& 1 <= month <= 12
            &&& exists|rows: Seq<PlantRowData>|
                {
                    &&& #[trigger] rows.to_multiset() == db_plants(*conn).to_multiset()
                    &&& plants_sorted_by_name(rows)
                    &&& plant_rows_distinct_ids(rows)
                    &&& plants_view(md.sow_early@) == rows_as_plants(rows).filter(
                        sow_in_slot(early),
                    )
                    &&& plants_view(md.sow_late@) == rows_as_plants(rows).filter(sow_in_slot(late))
                    &&& plants_view(md.plant_early@) == rows_as_plants(rows).filter(
                        plant_in_slot(early),
                    )
                    &&& plants_view(md.plant_late@) == rows_as_plants(rows).filter(
                        plant_in_slot(late),
                    )
                }
            &&& exists|arows: Seq<ActivityRowData>|
                {
                    &&& #[trigger] arows.to_multiset() == db_activities(*conn).to_multiset()
                    &&& activities_sorted_by_name(arows)
                    &&& activity_rows_distinct_ids(arows)
                    &&& activities_view(md.activities@) == rows_as_activities(arows).filter(
                        active_in_month(early, late),
                    )
                }
            &&& plant_data_sorted_by_name(plants_view(md.sow_early@))
            &&& plant_data_sorted_by_name(plants_view(md.sow_late@))
            &&& plant_data_sorted_by_name(plants_view(md.plant_early@))
            &&& plant_data_sorted_by_name(plants_view(md.plant_late@))
            &&& activity_data_sorted_by_name(activities_view(md.activities@))
            &&& forall|x: PlantRowData| #[trigger]
                db_plants(*conn).contains(x) ==> {
                    &&& (plants_view(md.sow_early@).contains(plant_of_row(x)) <==> slot_set(
                        x.sow_periods,
                        early,
                    ))
                    &&& (plants_view(md.sow_late@).contains(plant_of_row(x)) <==> slot_set(
                        x.sow_periods,
                        late,
                    ))
                    &&& (plants_view(md.plant_early@).contains(plant_of_row(x)) <==> slot_set(
                        x.plant_periods,
                        early,
                    ))
                    &&& (plants_view(md.plant_late@).contains(plant_of_row(x)) <==> slot_set(
                        x.plant_periods,
                        late,
                    ))
                }
        },
{
    if month < 1 || month > 12 {
        return Err(StoreError::Domain);
    }
    let plants = match crate::plants::get_all_plants(conn) {
        Ok(ps) => ps,
        Err(e) => {
            return Err(e);
        },
    };
    let activities = match crate::activities::get_all_activities(conn) {
        Ok(acts) => acts,
        Err(e) => {
            return Err(e);
        },
    };
    let md = match project_month(&plants, &activities, month) {
        Ok(md) => md,
        Err(e) => {
            return Err(e);
        },
    };
    proof {
        broadcast use vstd::seq_lib::group_to_multiset_ensures;

        let early = slot_index(month as int, Half::Early) as u32;
        let late = slot_index(month as int, Half::Late) as u32;
        let rows = choose|rows: Seq<PlantRowData>|
            {
                &&& #[trigger] rows.to_multiset() == db_plants(*conn).to_multiset()
                &&& plants_sorted_by_name(rows)
                &&& plant_rows_distinct_ids(rows)
                &&& plants_view(plants@) == rows_as_plants(rows)
            };
        assert forall|x: PlantRowData| #[trigger] db_plants(*conn).contains(x) implies {
            &&& (plants_view(md.sow_early@).contains(plant_of_row(x)) <==> slot_set(
                x.sow_periods,
                early,
            ))
            &&& (plants_view(md.sow_late@).contains(plant_of_row(x)) <==> slot_set(
                x.sow_periods,
                late,
            ))
            &&& (plants_view(md.plant_early@).contains(plant_of_row(x)) <==> slot_set(
                x.plant_periods,
                early,
            ))
            &&& (plants_view(md.plant_late@).contains(plant_of_row(x)) <==> slot_set(
                x.plant_periods,
                late,
            ))
        } by {
            assert(db_plants(*conn).to_multiset().count(x) > 0);
            assert(rows.to_multiset().count(x) > 0);
            assert(rows.contains(x));
            let k = choose|k: int| 0 <= k < rows.len() && rows[k] == x;
            assert(rows_as_plants(rows)[k] == plant_of_row(x));
            assert(rows_as_plants(rows).contains(plant_of_row(x)));
            lemma_filter_membership(rows_as_plants(rows), sow_in_slot(early), plant_of_row(x));
            lemma_filter_membership(rows_as_plants(rows), sow_in_slot(late), plant_of_row(x));
            lemma_filter_membership(rows_as_plants(rows), plant_in_slot(early), plant_of_row(x));
            lemma_filter_membership(rows_as_plants(rows), plant_in_slot(late), plant_of_row(x));
        }
    }
    Ok(md)
}

} // verus!
