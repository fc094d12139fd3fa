//! Plant photo storage operations: payloads cross the boundary as base64
//! text and are stored as raw bytes.

use vstd::prelude::*;

use crate::encoding::{base64_decoding, base64_encoding, decode_base64, encode_base64};
use crate::error::StoreError;
use crate::models::{
    PhotoData, PhotoRowData, PlantPhoto, photo_keeps_id, photo_not_of_plant, photo_of_plant,
    photo_rows_distinct_ids, photo_rows_view, photos_view,
};
use crate::order::{
    lemma_filter_keeps_photo_order, lemma_filter_membership, lemma_filter_push,
    photo_data_sorted_by_order, photos_sorted_by_order,
};
use crate::storage::{
    db_activities, db_photos, db_plants, db_version, delete_photo_row, insert_photo, select_photos,
};

verus! {

/// The boundary-facing photo a persisted row stands for: the payload leaves
/// the store as base64 text.
pub open spec fn photo_of_row(r: PhotoRowData) -> PhotoData {
    PhotoData {
        id: Some(r.id),
        plant_id: r.plant_id,
        sort_order: r.sort_order,
        image_data: match r.image_data {
            Some(b) => Some(base64_encoding(b)),
            None => None,
        },
        created_at: r.created_at,
    }
}

/// The boundary-facing photos a sequence of persisted rows stands for.
pub open spec fn rows_as_photos(rows: Seq<PhotoRowData>) -> Seq<PhotoData> {
    rows.map_values(|r: PhotoRowData| photo_of_row(r))
}

/// The photos owned by the given plant, in ascending sort order, payloads
/// encoded as base64 text. A pure read.
pub fn get_photos(conn: &rusqlite::Connection, plant_id: i64) -> (r: Result<
    Vec<PlantPhoto>,
    StoreError,
>)
    ensures
        r matches Ok(ps) ==> exists|rows: Seq<PhotoRowData>|
            {
                &&& #[trigger] rows.to_multiset() == db_photos(*conn).to_multiset()
                &&& photos_sorted_by_order(rows)
                &&& photo_rows_distinct_ids(rows)
                &&& photos_view(ps@) == rows_as_photos(
                    rows.filter(photo_of_plant(plant_id as int)),
                )
            },
        r matches Ok(ps) ==> photo_data_sorted_by_order(photos_view(ps@)),
        r matches Ok(ps) ==> forall|j: int|
            0 <= j < ps@.len() ==> (#[trigger] ps@[j]@).plant_id == plant_id as int,
        r matches Err(e) ==> e is Unavailable,
{
    let mut rows = match select_photos(conn) {
        Ok(rs) => rs,
        Err(m) => {
            return Err(StoreError::Unavailable(m));
        },
    };
    let ghost all = photo_rows_view(rows@);
    let ghost pred = photo_of_plant(plant_id as int);
    let mut out: Vec<PlantPhoto> = Vec::new();
    let ghost k: int = 0;
    while rows.len() > 0
        invariant
            all.to_multiset() == db_photos(*conn).to_multiset(),
            photos_sorted_by_order(all),
            photo_rows_distinct_ids(all),
            0 <= k <= all.len(),
            k + rows@.len() == all.len(),
            pred == photo_of_plant(plant_id as int),
            photo_rows_view(rows@) =~= all.subrange(k, all.len() as int),
            photos_view(out@) =~= rows_as_photos(all.subrange(0, k).filter(pred)),
            forall|j: int|
                0 <= j < out@.len() ==> (#[trigger] out@[j]@).plant_id == plant_id as int,
        decreases rows@.len(),
    {
        let ghost pre = rows@;
        let row = rows.remove(0);
        proof {
            assert(photo_rows_view(pre)[0] == pre[0]@);
            assert(row@ == all[k]);
            assert forall|j: int| 0 <= j < rows@.len() implies #[trigger] photo_rows_view(rows@)[j]
                == all[k + 1 + j] by {
                assert(photo_rows_view(rows@)[j] == rows@[j]@);
                assert(rows@[j] == pre[j + 1]);
                assert(pre[j + 1]@ == photo_rows_view(pre)[j + 1]);
            }
            assert(photo_rows_view(rows@) =~= all.subrange(k + 1, all.len() as int));
            assert(all.subrange(0, k + 1) =~= all.subrange(0, k).push(all[k]));
            lemma_filter_push(all.subrange(0, k), pred, all[k]);
        }
        if row.plant_id == plant_id {
            let image_data = match row.image_data {
                Some(b) => Some(encode_base64(&b)),
                None => None,
            };
            let photo = PlantPhoto {
                id: Some(row.id),
                plant_id: row.plant_id,
                sort_order: row.sort_order,
                image_data,
                created_at: row.created_at,
            };
            proof {
                assert(photo@ == photo_of_row(all[k]));
            }
            out.push(photo);
            proof {
                assert(pred(all[k]));
                let f0 = all.subrange(0, k).filter(pred);
                assert(all.subrange(0, k + 1).filter(pred) == f0.push(all[k]));
                assert(rows_as_photos(f0.push(all[k])) =~= rows_as_photos(f0).push(
                    photo_of_row(all[k]),
                ));
                assert(photos_view(out@) =~= rows_as_photos(f0).push(photo_of_row(all[k])));
                assert(photos_view(out@) =~= rows_as_photos(all.subrange(0, k + 1).filter(pred)));
            }
        } else {
            proof {
                assert(all.subrange(0, k + 1).filter(pred) == all.subrange(0, k).filter(pred));
            }
        }
        proof {
            k = k + 1;
        }
    }
    proof {
        assert(all.subrange(0, all.len() as int) =~= all);
        assert(photos_view(out@) =~= rows_as_photos(all.filter(pred)));
        lemma_filter_keeps_photo_order(all, pred);
        let fr = all.filter(pred);
        let m = rows_as_photos(fr);
        assert forall|i: int, j: int| 0 <= i < j < m.len() implies #[trigger] m[i].sort_order
            <= #[trigger] m[j].sort_order by {
            assert(m[i].sort_order == fr[i].sort_order && m[j].sort_order == fr[j].sort_order);
            assert(fr[i].sort_order <= fr[j].sort_order);
        }
    }
    Ok(out)
}

/// Attach a photo to a plant: the base64 payload is decoded at the store's
/// edge and persisted as raw bytes; the store assigns a fresh identity and
/// the creation timestamp. Malformed base64 is rejected with `DecodeError`
/// before anything is written.
pub fn add_photo(
    conn: &mut rusqlite::Connection,
    plant_id: i64,
    image_data: String,
    sort_order: i32,
) -> (r: Result<PlantPhoto, StoreError>)
    ensures
        db_plants(*final(conn)) == db_plants(*old(conn)),
        db_activities(*final(conn)) == db_activities(*old(conn)),
        db_version(*final(conn)) == db_version(*old(conn)),
        r matches Err(_) ==> db_photos(*final(conn)) == db_photos(*old(conn)),
        r matches Err(e) ==> (e is Decode <==> base64_decoding(image_data@) is None) && (
        e is Decode || e is Unavailable),
        base64_decoding(image_data@) is None ==> r is Err,
        r matches Ok(p) ==> {
            let rows0 = db_photos(*old(conn));
            let rows1 = db_photos(*final(conn));
            &&& rows1.len() == rows0.len() + 1
            &&& rows1.drop_last() == rows0
            &&& rows1.last().plant_id == plant_id as int
            &&& rows1.last().sort_order == sort_order as int
            &&& base64_decoding(image_data@) is Some
            &&& rows1.last().image_data == base64_decoding(image_data@)
            &&& rows1.last().created_at is Some
            &&& rows1.last().id >= 1
            &&& forall|i: int| 0 <= i < rows0.len() ==> #[trigger] rows0[i].id < rows1.last().id
            &&& p@ == (PhotoData {
                id: Some(rows1.last().id),
                plant_id: plant_id as int,
                sort_order: sort_order as int,
                image_data: Some(image_data@),
                created_at: None,
            })
        },
{
    let bytes = match decode_base64(image_data.as_str()) {
        Ok(b) => b,
        Err(m) => {
            return Err(StoreError::Decode(m));
        },
    };
    let id = match insert_photo(conn, plant_id, sort_order, &bytes) {
        Ok(id) => id,
        Err(m) => {
            return Err(StoreError::Unavailable(m));
        },
    };
    Ok(
        PlantPhoto {
            id: Some(id),
            plant_id,
            sort_order,
            image_data: Some(image_data),
            created_at: None,
        },
    )
}

/// Remove the photo with the given identity. Removing an unknown identity is
/// not an error: nothing changes.
pub fn delete_photo(conn: &mut rusqlite::Connection, id: i64) -> (r: Result<(), StoreError>)
    ensures
        db_plants(*final(conn)) == db_plants(*old(conn)),
        db_activities(*final(conn)) == db_activities(*old(conn)),
        db_version(*final(conn)) == db_version(*old(conn)),
        r matches Ok(_) ==> db_photos(*final(conn)) == db_photos(*old(conn)).filter(
            photo_keeps_id(id as int),
        ),
        r matches Err(e) ==> e is Unavailable && db_photos(*final(conn)) == db_photos(*old(conn)),
{
    match delete_photo_row(conn, id) {
        Ok(_) => {},
        Err(m) => {
            return Err(StoreError::Unavailable(m));
        },
    }
    Ok(())
}

/// Removing a plant's photos empties its listing: once the store holds only
/// the photos of other plants, any reordering of them shows none for the
/// removed plant.
pub proof fn lemma_cascade_empties_listing(pre: Seq<PhotoRowData>, rows: Seq<PhotoRowData>, id: int)
    requires
        rows.to_multiset() == pre.filter(photo_not_of_plant(id)).to_multiset(),
    ensures
        rows.filter(photo_of_plant(id)) =~= Seq::<PhotoRowData>::empty(),
{
    broadcast use vstd::seq_lib::group_to_multiset_ensures;

    let post = pre.filter(photo_not_of_plant(id));
    let kept = rows.filter(photo_of_plant(id));
    if kept.len() > 0 {
        let x = kept[0];
        assert(kept.contains(x));
        lemma_filter_membership(rows, photo_of_plant(id), x);
        assert(rows.to_multiset().count(x) > 0);
        assert(post.to_multiset().count(x) > 0);
        assert(post.contains(x));
        lemma_filter_membership(pre, photo_not_of_plant(id), x);
        assert(false);
    }
}

} // verus!
