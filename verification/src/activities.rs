//! Activity storage operations.

use vstd::prelude::*;

use crate::error::StoreError;
use crate::models::{
    Activity, ActivityData, ActivityRowData, activity_fields_match, activity_has_id,
    activity_keeps_id, activity_of_row, activity_rows_distinct_ids, activity_rows_view,
    activities_view, rows_as_activities,
};
use crate::order::{
    activities_sorted_by_name, activity_data_sorted_by_name, lemma_filter_contained,
    lemma_rows_as_activities_keeps_order,
};
use crate::storage::{
    db_activities, db_photos, db_plants, db_version, delete_activity_row, insert_activity,
    select_activities, update_activity_row,
};

verus! {

/// All activities, ordered by name ascending. A pure read.
pub fn get_all_activities(conn: &rusqlite::Connection) -> (r: Result<Vec<Activity>, StoreError>)
    ensures
        r matches Ok(acts) ==> exists|rows: Seq<ActivityRowData>|
            {
                &&& #[trigger] rows.to_multiset() == db_activities(*conn).to_multiset()
                &&& activities_sorted_by_name(rows)
                &&& activity_rows_distinct_ids(rows)
                &&& activities_view(acts@) == rows_as_activities(rows)
            },
        r matches Ok(acts) ==> activity_data_sorted_by_name(activities_view(acts@)),
        r matches Err(e) ==> e is Unavailable,
{
    let mut rows = match select_activities(conn) {
        Ok(rs) => rs,
        Err(m) => {
            return Err(StoreError::Unavailable(m));
        },
    };
    let ghost all = activity_rows_view(rows@);
    let mut out: Vec<Activity> = Vec::new();
    while rows.len() > 0
        invariant
            all.to_multiset() == db_activities(*conn).to_multiset(),
            activities_sorted_by_name(all),
            activity_rows_distinct_ids(all),
            out@.len() + rows@.len() == all.len(),
            activity_rows_view(rows@) =~= all.subrange(out@.len() as int, all.len() as int),
            forall|j: int| 0 <= j < out@.len() ==> #[trigger] out@[j]@ == activity_of_row(all[j]),
        decreases rows@.len(),
    {
        let ghost done = out@.len() as int;
        let ghost pre = rows@;
        let row = rows.remove(0);
        proof {
            assert(activity_rows_view(pre)[0] == pre[0]@);
            assert(row@ == all[done]);
            assert forall|j: int| 0 <= j < rows@.len() implies #[trigger] activity_rows_view(
                rows@,
            )[j] == all[done + 1 + j] by {
                assert(activity_rows_view(rows@)[j] == rows@[j]@);
                assert(rows@[j] == pre[j + 1]);
                assert(pre[j + 1]@ == activity_rows_view(pre)[j + 1]);
            }
            assert(activity_rows_view(rows@) =~= all.subrange(done + 1, all.len() as int));
        }
        out.push(row.into_activity());
    }
    proof {
        assert(activities_view(out@) =~= rows_as_activities(all));
        lemma_rows_as_activities_keeps_order(all);
    }
    Ok(out)
}

/// Persist a new activity: the store assigns a fresh identity and the
/// timestamps, and the returned activity is the argument with that identity
/// filled in. An empty name is rejected with `ValidationError` before
/// anything is written.
pub fn create_activity(conn: &mut rusqlite::Connection, activity: Activity) -> (r: Result<
    Activity,
    StoreError,
>)
    ensures
        db_plants(*final(conn)) == db_plants(*old(conn)),
        db_photos(*final(conn)) == db_photos(*old(conn)),
        db_version(*final(conn)) == db_version(*old(conn)),
        r matches Err(_) ==> db_activities(*final(conn)) == db_activities(*old(conn)),
        r matches Err(e) ==> (e is Validation <==> activity.name@.len() == 0) && (e is Validation
            || e is Unavailable),
        activity.name@.len() == 0 ==> r is Err,
        r matches Ok(a) ==> {
            let rows0 = db_activities(*old(conn));
            let rows1 = db_activities(*final(conn));
            &&& activity.name@.len() > 0
            &&& rows1.len() == rows0.len() + 1
            &&& rows1.drop_last() == rows0
            &&& activity_fields_match(rows1.last(), activity@)
            &&& rows1.last().created_at is Some
            &&& rows1.last().updated_at == rows1.last().created_at
            &&& rows1.last().id >= 1
            &&& forall|i: int| 0 <= i < rows0.len() ==> #[trigger] rows0[i].id < rows1.last().id
            &&& a@ == (ActivityData { id: Some(rows1.last().id), ..activity@ })
        },
{
    if activity.name.as_str().is_empty() {
        return Err(StoreError::Validation);
    }
    let id = match insert_activity(
        conn,
        &activity.name,
        &activity.description,
        activity.active_periods.bits,
    ) {
        Ok(id) => id,
        Err(m) => {
            return Err(StoreError::Unavailable(m));
        },
    };
    Ok(Activity { id: Some(id), ..activity })
}

/// Replace every caller-supplied field of the activity with the given
/// identity; the store refreshes the update timestamp and keeps the creation
/// timestamp. An empty name is rejected with `ValidationError`; a missing or
/// unknown identity is rejected with `NotFoundError`, and the store is
/// unchanged.
pub fn update_activity(conn: &mut rusqlite::Connection, activity: &Activity) -> (r: Result<
    (),
    StoreError,
>)
    ensures
        db_plants(*final(conn)) == db_plants(*old(conn)),
        db_photos(*final(conn)) == db_photos(*old(conn)),
        db_version(*final(conn)) == db_version(*old(conn)),
        r matches Err(e) ==> {
            &&& e is Validation || e is NotFound || e is Unavailable
            &&& (e is Validation <==> activity.name@.len() == 0)
            &&& (e is NotFound && activity@.id is Some ==> !exists|i: int|
                0 <= i < db_activities(*old(conn)).len() && #[trigger] db_activities(
                    *old(conn),
                )[i].id == activity@.id->0)
            &&& (e is NotFound || e is Validation ==> db_activities(*final(conn))
                == db_activities(*old(conn)))
        },
        activity.name@.len() == 0 ==> r is Err,
        activity.id is None && activity.name@.len() > 0 ==> (r matches Err(e) && e is NotFound),
        r matches Ok(_) ==> {
            let rows0 = db_activities(*old(conn));
            let rows1 = db_activities(*final(conn));
            &&& activity.name@.len() > 0
            &&& activity@.id is Some
            &&& exists|i: int| 0 <= i < rows0.len() && #[trigger] rows0[i].id == activity@.id->0
            &&& forall|i: int|
                0 <= i < rows0.len() && #[trigger] rows0[i].id == activity@.id->0 ==> {
                    &&& activity_fields_match(rows1[i], activity@)
                    &&& rows1[i].id == activity@.id->0
                    &&& rows1[i].created_at == rows0[i].created_at
                    &&& rows1[i].updated_at is Some
                }
            &&& forall|i: int|
                0 <= i < rows0.len() && rows0[i].id != activity@.id->0 ==> rows1[i]
                    == #[trigger] rows0[i]
            &&& rows1.len() == rows0.len()
        },
{
    if activity.name.as_str().is_empty() {
        return Err(StoreError::Validation);
    }
    let id = match activity.id {
        Some(id) => id,
        None => {
            return Err(StoreError::NotFound);
        },
    };
    let n = match update_activity_row(
        conn,
        id,
        &activity.name,
        &activity.description,
        activity.active_periods.bits,
    ) {
        Ok(n) => n,
        Err(m) => {
            return Err(StoreError::Unavailable(m));
        },
    };
    if n == 0 {
        proof {
            let rows0 = db_activities(*old(conn));
            let rows1 = db_activities(*final(conn));
            let pred = activity_has_id(id as int);
            assert forall|i: int| 0 <= i < rows0.len() implies #[trigger] rows0[i].id
                != id as int by {
                if rows0[i].id == id as int {
                    rows0.lemma_filter_contains(pred, i);
                }
            }
            assert(rows1 =~= rows0);
        }
        return Err(StoreError::NotFound);
    }
    proof {
        let rows0 = db_activities(*old(conn));
        let pred = activity_has_id(id as int);
        rows0.lemma_filter_pred(pred, 0);
        lemma_filter_contained(rows0, pred, rows0.filter(pred)[0]);
        let k = choose|k: int| 0 <= k < rows0.len() && rows0[k] == rows0.filter(pred)[0];
        assert(rows0[k].id == id as int);
    }
    Ok(())
}

/// Remove the activity with the given identity. Removing an unknown identity
/// is not an error: nothing changes.
pub fn delete_activity(conn: &mut rusqlite::Connection, id: i64) -> (r: Result<(), StoreError>)
    ensures
        db_plants(*final(conn)) == db_plants(*old(conn)),
        db_photos(*final(conn)) == db_photos(*old(conn)),
        db_version(*final(conn)) == db_version(*old(conn)),
        r matches Ok(_) ==> db_activities(*final(conn)) == db_activities(*old(conn)).filter(
            activity_keeps_id(id as int),
        ),
        r matches Err(e) ==> e is Unavailable && db_activities(*final(conn)) == db_activities(
            *old(conn),
        ),
{
    match delete_activity_row(conn, id) {
        Ok(_) => {},
        Err(m) => {
            return Err(StoreError::Unavailable(m));
        },
    }
    Ok(())
}

} // verus!
