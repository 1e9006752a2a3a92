use vstd::prelude::*;

use crate::error::Error;
use crate::manager::{
    change_status_post, clash, conflicts, created, delete_post, get_post, has_id, index_of, insert_pos,
    is_insert_pos, overlaps, reserve_post, rows_wf, update_post,
};
use crate::query::{filtered, start_of, ReservationQuery};
use crate::status::RsvpStatus;
use crate::types::{ts_le, ts_lt, valid_candidate, Reservation, Timestamp};

verus! {

/// A valid candidate that overlaps no live reservation of its resource is
/// created, and the store gives it a positive identity.
pub proof fn lemma_valid_reserve_succeeds(
    rows: Seq<Reservation>,
    next: i64,
    c: Reservation,
    r: Result<Reservation, Error>,
    rows2: Seq<Reservation>,
    next2: i64,
)
    requires
        rows_wf(rows, next),
        valid_candidate(c),
        !conflicts(rows, c),
        next < i64::MAX,
        reserve_post(rows, next, c, r, rows2, next2),
    ensures
        r matches Ok(v) && v.id > 0 && v.status == RsvpStatus::Pending,
{
}

/// A candidate whose window is missing a bound or has `start >= end` is
/// rejected with `InvalidReservation` once identity, user and resource pass.
pub proof fn lemma_empty_window_rejected(
    rows: Seq<Reservation>,
    next: i64,
    c: Reservation,
    r: Result<Reservation, Error>,
    rows2: Seq<Reservation>,
    next2: i64,
)
    requires
        rows_wf(rows, next),
        c.id == 0,
        c.user_id@.len() > 0,
        c.resource_id@.len() > 0,
        c.start is None || c.end is None || !ts_lt(c.start.unwrap(), c.end.unwrap()),
        reserve_post(rows, next, c, r, rows2, next2),
    ensures
        r == Err::<Reservation, Error>(Error::InvalidReservation),
        rows2 == rows,
{
}

/// A candidate with an empty resource is rejected with `InvalidResourceId`
/// once identity and user pass.
pub proof fn lemma_empty_resource_rejected(
    rows: Seq<Reservation>,
    next: i64,
    c: Reservation,
    r: Result<Reservation, Error>,
    rows2: Seq<Reservation>,
    next2: i64,
)
    requires
        rows_wf(rows, next),
        c.id == 0,
        c.user_id@.len() > 0,
        c.resource_id@.len() == 0,
        reserve_post(rows, next, c, r, rows2, next2),
    ensures
        r matches Err(Error::InvalidResourceId(s)) && s@.len() == 0,
        rows2 == rows,
{
}

/// Of two requests for overlapping windows of one resource, at most one is
/// created: once the first succeeds, the second fails with `Conflict`.
pub proof fn lemma_no_double_booking(
    rows0: Seq<Reservation>,
    next0: i64,
    c1: Reservation,
    r1: Result<Reservation, Error>,
    rows1: Seq<Reservation>,
    next1: i64,
    c2: Reservation,
    r2: Result<Reservation, Error>,
    rows2: Seq<Reservation>,
    next2: i64,
)
    requires
        rows_wf(rows0, next0),
        reserve_post(rows0, next0, c1, r1, rows1, next1),
        reserve_post(rows1, next1, c2, r2, rows2, next2),
        c1.resource_id@ == c2.resource_id@,
        valid_candidate(c1),
        valid_candidate(c2),
        overlaps(c1, c2),
    ensures
        !(r1 is Ok && r2 is Ok),
        r1 is Ok ==> r2 == Err::<Reservation, Error>(Error::Conflict),
{
    if r1 is Ok {
        let p = insert_pos(rows0, start_of(c1));
        let row = created(c1, next0);
        let w = lemma_insert_pos_exists(rows0, start_of(c1));
        assert(is_insert_pos(rows0, start_of(c1), w));
        rows0.insert_ensures(p, row);
        assert(rows1[p] == row);
        assert(conflicts(rows1, c2));
    }
}

/// In rows ordered by start, every instant has a place to go.
proof fn lemma_insert_pos_exists(rows: Seq<Reservation>, t: Timestamp) -> (p: int)
    requires
        forall|i: int, j: int| 0 <= i < j < rows.len() ==> ts_le(start_of(#[trigger] rows[i]), start_of(#[trigger] rows[j])),
    ensures
        is_insert_pos(rows, t, p),
    decreases rows.len(),
{
    if rows.len() == 0 {
        0
    } else {
        let rest = rows.drop_last();
        assert forall|i: int, j: int| 0 <= i < j < rest.len() implies ts_le(start_of(#[trigger] rest[i]), start_of(#[trigger] rest[j])) by {
            assert(rest[i] == rows[i] && rest[j] == rows[j]);
        }
        let q = lemma_insert_pos_exists(rest, t);
        let last = rows.len() - 1;
        if ts_le(start_of(rows[last]), t) {
            assert forall|i: int| 0 <= i < rows.len() implies ts_le(start_of(#[trigger] rows[i]), t) by {
                if i < last {
                    assert(ts_le(start_of(rows[i]), start_of(rows[last])));
                }
            }
            rows.len() as int
        } else {
            assert forall|i: int| 0 <= i < q implies ts_le(start_of(#[trigger] rows[i]), t) by {
                assert(rest[i] == rows[i]);
            }
            assert forall|i: int| q <= i < rows.len() implies ts_lt(t, start_of(#[trigger] rows[i])) by {
                if i < last {
                    assert(rest[i] == rows[i]);
                }
            }
            q
        }
    }
}

/// The store never holds two live reservations of one resource with
/// overlapping windows.
pub proof fn lemma_no_overlap(rows: Seq<Reservation>, next: i64, i: int, j: int)
    requires
        rows_wf(rows, next),
        0 <= i < rows.len(),
        0 <= j < rows.len(),
        i != j,
        rows[i].resource_id@ == rows[j].resource_id@,
        rows[i].status.is_live(),
        rows[j].status.is_live(),
    ensures
        !overlaps(rows[i], rows[j]),
{
    assert(!clash(rows[i], rows[j]));
}

/// After a successful delete, fetching the same identity gives `NotFound`.
pub proof fn lemma_get_after_delete(
    rows0: Seq<Reservation>,
    next0: i64,
    id: i64,
    rows1: Seq<Reservation>,
    next1: i64,
    r: Result<Reservation, Error>,
)
    requires
        rows_wf(rows0, next0),
        delete_post(rows0, next0, id, Ok(()), rows1, next1),
        get_post(rows1, id, r),
    ensures
        r == Err::<Reservation, Error>(Error::NotFound),
{
    let k = index_of(rows0, id);
    rows0.remove_ensures(k);
    if has_id(rows1, id) {
        let j = choose|j: int| 0 <= j < rows1.len() && (#[trigger] rows1[j]).id == id;
        let m = if j < k { j } else { j + 1 };
        assert(rows1[j] == rows0[m]);
        assert(rows0[k].id == id);
    }
}

/// Confirming a `Pending` reservation makes it `Confirmed`; confirming it
/// again succeeds, keeps it `Confirmed` and changes nothing.
pub proof fn lemma_change_status_idempotent(
    rows0: Seq<Reservation>,
    next0: i64,
    id: i64,
    r1: Result<Reservation, Error>,
    rows1: Seq<Reservation>,
    next1: i64,
    r2: Result<Reservation, Error>,
    rows2: Seq<Reservation>,
    next2: i64,
)
    requires
        rows_wf(rows0, next0),
        has_id(rows0, id),
        rows0[index_of(rows0, id)].status == RsvpStatus::Pending,
        change_status_post(rows0, next0, id, r1, rows1, next1),
        change_status_post(rows1, next1, id, r2, rows2, next2),
    ensures
        r1 matches Ok(v) && v.status == RsvpStatus::Confirmed && v.id == id,
        r2 == r1,
        rows2 == rows1,
{
    let k = index_of(rows0, id);
    assert(rows1[k].id == id);
    assert(has_id(rows1, id));
    let k1 = index_of(rows1, id);
    assert(rows1[k1].id == id);
    assert(k1 == k);
    assert(rows1.update(k, rows1[k]) =~= rows1);
}

/// `update` changes the note alone, and fetching the row afterwards gives
/// back exactly the note that was written.
pub proof fn lemma_update_note_round_trip(
    rows0: Seq<Reservation>,
    next0: i64,
    id: i64,
    note: String,
    r1: Result<Reservation, Error>,
    rows1: Seq<Reservation>,
    next1: i64,
    r2: Result<Reservation, Error>,
)
    requires
        rows_wf(rows0, next0),
        has_id(rows0, id),
        update_post(rows0, next0, id, note, r1, rows1, next1),
        get_post(rows1, id, r2),
    ensures
        r1 matches Ok(v) && {
            let before = rows0[index_of(rows0, id)];
            &&& v.note == note
            &&& v.id == before.id
            &&& v.user_id == before.user_id
            &&& v.resource_id == before.resource_id
            &&& v.start == before.start
            &&& v.end == before.end
            &&& v.status == before.status
        },
        r2 == r1,
{
    let k = index_of(rows0, id);
    assert(rows1[k].id == id);
    assert(has_id(rows1, id));
    let k1 = index_of(rows1, id);
    assert(rows1[k1].id == id);
    assert(k1 == k);
}

/// What a query returns is ordered by start.
pub proof fn lemma_query_ordered(rows: Seq<Reservation>, next: i64, q: ReservationQuery)
    requires
        rows_wf(rows, next),
    ensures
        forall|i: int, j: int|
            0 <= i < j < filtered(rows, q).len() ==> ts_le(
                start_of(#[trigger] filtered(rows, q)[i]),
                start_of(#[trigger] filtered(rows, q)[j]),
            ),
{
    lemma_filtered_sorted(rows, q);
}

/// Every row that the filter keeps comes from `rows`, at a position no later than its own.
proof fn lemma_filtered_from(rows: Seq<Reservation>, q: ReservationQuery)
    ensures
        filtered(rows, q).len() <= rows.len(),
        forall|i: int|
            0 <= i < filtered(rows, q).len() ==> exists|k: int|
                0 <= k < rows.len() && rows[k] == #[trigger] filtered(rows, q)[i],
    decreases rows.len(),
{
    if rows.len() > 0 {
        let rest = rows.drop_last();
        lemma_filtered_from(rest, q);
        let f = filtered(rows, q);
        assert forall|i: int| 0 <= i < f.len() implies exists|k: int| 0 <= k < rows.len() && rows[k] == #[trigger] f[i] by {
            if i < filtered(rest, q).len() {
                let k = choose|k: int| 0 <= k < rest.len() && rest[k] == filtered(rest, q)[i];
                assert(rows[k] == f[i]);
            } else {
                assert(rows[rows.len() - 1] == f[i]);
            }
        }
    }
}

proof fn lemma_filtered_sorted(rows: Seq<Reservation>, q: ReservationQuery)
    requires
        forall|i: int, j: int| 0 <= i < j < rows.len() ==> ts_le(start_of(#[trigger] rows[i]), start_of(#[trigger] rows[j])),
    ensures
        forall|i: int, j: int|
            0 <= i < j < filtered(rows, q).len() ==> ts_le(
                start_of(#[trigger] filtered(rows, q)[i]),
                start_of(#[trigger] filtered(rows, q)[j]),
            ),
    decreases rows.len(),
{
    if rows.len() > 0 {
        let rest = rows.drop_last();
        lemma_filtered_sorted(rest, q);
        lemma_filtered_from(rest, q);
        let f = filtered(rows, q);
        let fr = filtered(rest, q);
        assert forall|i: int, j: int| 0 <= i < j < f.len() implies ts_le(start_of(#[trigger] f[i]), start_of(#[trigger] f[j])) by {
            if j < fr.len() {
                assert(f[i] == fr[i] && f[j] == fr[j]);
            } else {
                assert(f[i] == fr[i]);
                let k = choose|k: int| 0 <= k < rest.len() && rest[k] == fr[i];
                assert(rows[k] == f[i]);
                assert(f[j] == rows[rows.len() - 1]);
            }
        }
    }
}

} // verus!
