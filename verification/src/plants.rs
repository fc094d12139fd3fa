//! Plant storage operations.

use vstd::prelude::*;

use crate::error::StoreError;
use crate::models::{
    PhotoRowData, Plant, PlantData, PlantRowData, photo_not_of_plant, plant_fields_match,
    plant_has_id, plant_keeps_id, plant_of_row, plant_rows_distinct_ids, plant_rows_view,
    plants_view, rows_as_plants,
};
use crate::order::{
    lemma_filter_contained, lemma_filter_idempotent, lemma_rows_as_plants_keeps_order,
    plant_data_sorted_by_name, plants_sorted_by_name,
};
use crate::storage::{
    db_activities, db_photos, db_plants, db_version, delete_photos_of_plant, delete_plant_row,
    insert_plant, select_plants, update_plant_row,
};

verus! {

/// All plants, ordered by name ascending. A pure read.
pub fn get_all_plants(conn: &rusqlite::Connection) -> (r: Result<Vec<Plant>, StoreError>)
    ensures
        r matches Ok(ps) ==> exists|rows: Seq<PlantRowData>|
            {
                &&& #[trigger] rows.to_multiset() == db_plants(*conn).to_multiset()
                &&& plants_sorted_by_name(rows)
                &&& plant_rows_distinct_ids(rows)
                &&& plants_view(ps@) == rows_as_plants(rows)
            },
        r matches Ok(ps) ==> plant_data_sorted_by_name(plants_view(ps@)),
        r matches Err(e) ==> e is Unavailable,
{
    let mut rows = match select_plants(conn) {
        Ok(rs) => rs,
        Err(m) => {
            return Err(StoreError::Unavailable(m));
        },
    };
    let ghost all = plant_rows_view(rows@);
    let mut out: Vec<Plant> = Vec::new();
    while rows.len() > 0
        invariant
            all.to_multiset() == db_plants(*conn).to_multiset(),
            plants_sorted_by_name(all),
            plant_rows_distinct_ids(all),
            out@.len() + rows@.len() == all.len(),
            plant_rows_view(rows@) =~= all.subrange(out@.len() as int, all.len() as int),
            forall|j: int| 0 <= j < out@.len() ==> #[trigger] out@[j]@ == plant_of_row(all[j]),
        decreases rows@.len(),
    {
        let ghost done = out@.len() as int;
        let ghost pre = rows@;
        let row = rows.remove(0);
        proof {
            assert(plant_rows_view(pre)[0] == pre[0]@);
            assert(row@ == all[done]);
            assert forall|j: int| 0 <= j < rows@.len() implies #[trigger] plant_rows_view(rows@)[j]
                == all[done + 1 + j] by {
                assert(plant_rows_view(rows@)[j] == rows@[j]@);
                assert(rows@[j] == pre[j + 1]);
                assert(pre[j + 1]@ == plant_rows_view(pre)[j + 1]);
            }
            assert(plant_rows_view(rows@) =~= all.subrange(done + 1, all.len() as int));
        }
        out.push(row.into_plant());
    }
    proof {
        assert(plants_view(out@) =~= rows_as_plants(all));
        assert(all.to_multiset() == db_plants(*conn).to_multiset());
        lemma_rows_as_plants_keeps_order(all);
    }
    Ok(out)
}

/// Persist a new plant: the store assigns a fresh identity and the timestamps,
/// every caller-supplied field is written as given, and the returned plant is
/// the argument with that identity filled in. An empty name is rejected with
/// `ValidationError` before anything is written.
pub fn create_plant(conn: &mut rusqlite::Connection, plant: Plant) -> (r: Result<
    Plant,
    StoreError,
>)
    ensures
        db_activities(*final(conn)) == db_activities(*old(conn)),
        db_photos(*final(conn)) == db_photos(*old(conn)),
        db_version(*final(conn)) == db_version(*old(conn)),
        r matches Err(_) ==> db_plants(*final(conn)) == db_plants(*old(conn)),
        r matches Err(e) ==> (e is Validation <==> plant.name@.len() == 0) && (e is Validation
            || e is Unavailable),
        plant.name@.len() == 0 ==> r is Err,
        r matches Ok(p) ==> {
            let rows0 = db_plants(*old(conn));
            let rows1 = db_plants(*final(conn));
            &&& plant.name@.len() > 0
            &&& rows1.len() == rows0.len() + 1
            &&& rows1.drop_last() == rows0
            &&& plant_fields_match(rows1.last(), plant@)
            &&& rows1.last().created_at is Some
            &&& rows1.last().updated_at == rows1.last().created_at
            &&& rows1.last().id >= 1
            &&& forall|i: int| 0 <= i < rows0.len() ==> #[trigger] rows0[i].id < rows1.last().id
            &&& p@ == (PlantData { id: Some(rows1.last().id), ..plant@ })
        },
{
    if plant.name.as_str().is_empty() {
        return Err(StoreError::Validation);
    }
    let id = match insert_plant(
        conn,
        &plant.name,
        &plant.plant_type,
        plant.sun_requirements,
        plant.sow_periods.bits,
        plant.plant_periods.bits,
        &plant.notes,
        plant.needs_reorder,
    ) {
        Ok(id) => id,
        Err(m) => {
            return Err(StoreError::Unavailable(m));
        },
    };
    Ok(Plant { id: Some(id), ..plant })
}

/// Replace every caller-supplied field of the plant with the given identity;
/// the store refreshes the update timestamp and keeps the creation timestamp.
/// An empty name is rejected with `ValidationError`; a missing or unknown
/// identity is rejected with `NotFoundError`, and the store is unchanged.
pub fn update_plant(conn: &mut rusqlite::Connection, plant: &Plant) -> (r: Result<(), StoreError>)
    ensures
        db_activities(*final(conn)) == db_activities(*old(conn)),
        db_photos(*final(conn)) == db_photos(*old(conn)),
        db_version(*final(conn)) == db_version(*old(conn)),
        r matches Err(e) ==> {
            &&& e is Validation || e is NotFound || e is Unavailable
            &&& (e is Validation <==> plant.name@.len() == 0)
            &&& (e is NotFound && plant@.id is Some ==> !exists|i: int|
                0 <= i < db_plants(*old(conn)).len() && #[trigger] db_plants(*old(conn))[i].id
                    == plant@.id->0)
            &&& (e is NotFound || e is Validation ==> db_plants(*final(conn)) == db_plants(
                *old(conn),
            ))
        },
        plant.name@.len() == 0 ==> r is Err,
        plant.id is None && plant.name@.len() > 0 ==> (r matches Err(e) && e is NotFound),
        r matches Ok(_) ==> {
            let rows0 = db_plants(*old(conn));
            let rows1 = db_plants(*final(conn));
            &&& plant.name@.len() > 0
            &&& plant@.id is Some
            &&& exists|i: int| 0 <= i < rows0.len() && #[trigger] rows0[i].id == plant@.id->0
            &&& forall|i: int|
                0 <= i < rows0.len() && #[trigger] rows0[i].id == plant@.id->0 ==> {
                    &&& plant_fields_match(rows1[i], plant@)
                    &&& rows1[i].id == plant@.id->0
                    &&& rows1[i].created_at == rows0[i].created_at
                    &&& rows1[i].updated_at is Some
                }
            &&& forall|i: int|
                0 <= i < rows0.len() && rows0[i].id != plant@.id->0 ==> rows1[i]
                    == #[trigger] rows0[i]
            &&& rows1.len() == rows0.len()
        },
{
    if plant.name.as_str().is_empty() {
        return Err(StoreError::Validation);
    }
    let id = match plant.id {
        Some(id) => id,
        None => {
            return Err(StoreError::NotFound);
        },
    };
    let n = match update_plant_row(
        conn,
        id,
        &plant.name,
        &plant.plant_type,
        plant.sun_requirements,
        plant.sow_periods.bits,
        plant.plant_periods.bits,
        &plant.notes,
        plant.needs_reorder,
    ) {
        Ok(n) => n,
        Err(m) => {
            return Err(StoreError::Unavailable(m));
        },
    };
    if n == 0 {
        proof {
            let rows0 = db_plants(*old(conn));
            let rows1 = db_plants(*final(conn));
            let pred = plant_has_id(id as int);
            assert forall|i: int| 0 <= i < rows0.len() implies #[trigger] rows0[i].id
                != id as int by {
                if rows0[i].id == id as int {
                    rows0.lemma_filter_contains(pred, i);
                }
            }
            assert(rows1 =~= rows0);
        }
        return Err(StoreError::NotFound);
    }
    proof {
        let rows0 = db_plants(*old(conn));
        let pred = plant_has_id(id as int);
        rows0.lemma_filter_pred(pred, 0);
        lemma_filter_contained(rows0, pred, rows0.filter(pred)[0]);
        let k = choose|k: int| 0 <= k < rows0.len() && rows0[k] == rows0.filter(pred)[0];
        assert(rows0[k].id == id as int);
    }
    Ok(())
}

/// Remove the plant with the given identity, and with it every photo owned by
/// it. Removing an unknown identity is not an error: nothing changes.
pub fn delete_plant(conn: &mut rusqlite::Connection, id: i64) -> (r: Result<(), StoreError>)
    ensures
        db_activities(*final(conn)) == db_activities(*old(conn)),
        db_version(*final(conn)) == db_version(*old(conn)),
        r matches Ok(_) ==> {
            &&& db_plants(*final(conn)) == db_plants(*old(conn)).filter(plant_keeps_id(id as int))
            &&& db_photos(*final(conn)) == db_photos(*old(conn)).filter(
                photo_not_of_plant(id as int),
            )
        },
        r matches Err(e) ==> {
            &&& e is Unavailable
            &&& db_plants(*final(conn)) == db_plants(*old(conn))
            &&& (db_photos(*final(conn)) == db_photos(*old(conn)) || db_photos(*final(conn))
                == db_photos(*old(conn)).filter(photo_not_of_plant(id as int)))
        },
{
    match delete_photos_of_plant(conn, id) {
        Ok(_) => {},
        Err(m) => {
            return Err(StoreError::Unavailable(m));
        },
    }
    match delete_plant_row(conn, id) {
        Ok(_) => {},
        Err(m) => {
            return Err(StoreError::Unavailable(m));
        },
    }
    proof {
        // the engine's own cascade can only re-remove what the explicit
        // photo delete already removed
        lemma_filter_idempotent(db_photos(*old(conn)), photo_not_of_plant(id as int));
    }
    Ok(())
}

/// A created plant shows up in the next listing: the row the store appended
/// is among the rows any listing hands back.
pub proof fn lemma_create_then_list(rows1: Seq<PlantRowData>, listed: Seq<PlantRowData>)
    requires
        rows1.len() > 0,
        listed.to_multiset() == rows1.to_multiset(),
    ensures
        listed.contains(rows1.last()),
{
    broadcast use vstd::seq_lib::group_to_multiset_ensures;

    assert(rows1.contains(rows1.last()));
    assert(rows1.to_multiset().count(rows1.last()) > 0);
    assert(listed.to_multiset().count(rows1.last()) > 0);
}

/// An updated plant shows up updated in the next listing: after an update of
/// the row with the given identity, every listed row carrying that identity
/// carries exactly the caller-supplied fields, and such a row is listed.
pub proof fn lemma_update_then_list(
    rows0: Seq<PlantRowData>,
    rows1: Seq<PlantRowData>,
    listed: Seq<PlantRowData>,
    p: PlantData,
    id: int,
)
    requires
        rows1.len() == rows0.len(),
        exists|i: int| 0 <= i < rows0.len() && #[trigger] rows0[i].id == id,
        forall|i: int|
            0 <= i < rows0.len() && #[trigger] rows0[i].id == id ==> plant_fields_match(
                rows1[i],
                p,
            ) && rows1[i].id == id,
        forall|i: int|
            0 <= i < rows0.len() && rows0[i].id != id ==> rows1[i] == #[trigger] rows0[i],
        listed.to_multiset() == rows1.to_multiset(),
    ensures
        forall|j: int|
            0 <= j < listed.len() && (#[trigger] listed[j]).id == id ==> plant_fields_match(
                listed[j],
                p,
            ),
        exists|j: int| 0 <= j < listed.len() && (#[trigger] listed[j]).id == id,
{
    broadcast use vstd::seq_lib::group_to_multiset_ensures;

    assert forall|j: int|
        0 <= j < listed.len() && (#[trigger] listed[j]).id == id implies plant_fields_match(
        listed[j],
        p,
    ) by {
        let x = listed[j];
        assert(listed.contains(x));
        assert(listed.to_multiset().count(x) > 0);
        assert(rows1.to_multiset().count(x) > 0);
        assert(rows1.contains(x));
        let i = choose|i: int| 0 <= i < rows1.len() && rows1[i] == x;
        if rows0[i].id == id {
        } else {
            assert(rows1[i] == rows0[i]);
        }
    }
    let i = choose|i: int| 0 <= i < rows0.len() && #[trigger] rows0[i].id == id;
    assert(rows1.contains(rows1[i]));
    assert(rows1.to_multiset().count(rows1[i]) > 0);
    assert(listed.to_multiset().count(rows1[i]) > 0);
    assert(listed.contains(rows1[i]));
    let j = choose|j: int| 0 <= j < listed.len() && listed[j] == rows1[i];
    assert(listed[j].id == id);
}

} // verus!
