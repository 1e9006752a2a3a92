use vstd::prelude::*;

use crate::error::Error;
use crate::query::{end_of, filtered, start_of, ReservationQuery};
use crate::status::RsvpStatus;
use crate::types::{
    status_changed, ts_le, ts_lt, valid_candidate, validation_error, window_ok, Reservation, Timestamp,
};

verus! {

/// The windows of `a` and `b` share an instant: `[s1, e1)` and `[s2, e2)`
/// overlap exactly when `s1 < e2` and `s2 < e1`.
pub open spec fn overlaps(a: Reservation, b: Reservation) -> bool {
    ts_lt(start_of(a), end_of(b)) && ts_lt(start_of(b), end_of(a))
}

/// `a` and `b` are live reservations of one resource whose windows overlap.
pub open spec fn clash(a: Reservation, b: Reservation) -> bool {
    &&& a.resource_id@ == b.resource_id@
    &&& a.status.is_live()
    &&& b.status.is_live()
    &&& overlaps(a, b)
}

/// Some live stored row of the candidate's resource overlaps its window.
pub open spec fn conflicts(rows: Seq<Reservation>, c: Reservation) -> bool {
    exists|i: int|
        0 <= i < rows.len() && (#[trigger] rows[i]).status.is_live()
            && rows[i].resource_id@ == c.resource_id@ && overlaps(rows[i], c)
}

/// A row as the store keeps it: an identity, a user, a resource and a window.
pub open spec fn stored_row(r: Reservation) -> bool {
    &&& r.id > 0
    &&& r.user_id@.len() > 0
    &&& r.resource_id@.len() > 0
    &&& window_ok(r)
}

/// The store's invariant: every row is well formed with an identity below
/// `next_id`, identities are distinct, rows are ordered by start, and no two
/// rows clash.
pub open spec fn rows_wf(rows: Seq<Reservation>, next_id: i64) -> bool {
    &&& next_id >= 1
    &&& forall|i: int| 0 <= i < rows.len() ==> stored_row(#[trigger] rows[i]) && rows[i].id < next_id
    &&& forall|i: int, j: int|
        0 <= i < rows.len() && 0 <= j < rows.len() && i != j ==> (#[trigger] rows[i]).id != (#[trigger] rows[j]).id
    &&& forall|i: int, j: int|
        0 <= i < j < rows.len() ==> ts_le(start_of(#[trigger] rows[i]), start_of(#[trigger] rows[j]))
    &&& forall|i: int, j: int|
        0 <= i < rows.len() && 0 <= j < rows.len() && i != j ==> !clash(#[trigger] rows[i], #[trigger] rows[j])
}

/// Some row has identity `id`.
pub open spec fn has_id(rows: Seq<Reservation>, id: i64) -> bool {
    exists|i: int| 0 <= i < rows.len() && (#[trigger] rows[i]).id == id
}

/// The position of the row with identity `id`.
pub open spec fn index_of(rows: Seq<Reservation>, id: i64) -> int {
    choose|i: int| 0 <= i < rows.len() && (#[trigger] rows[i]).id == id
}

/// Position `p` keeps rows ordered by start when a row starting at `t` goes there,
/// after every row that starts no later.
pub open spec fn is_insert_pos(rows: Seq<Reservation>, t: Timestamp, p: int) -> bool {
    &&& 0 <= p <= rows.len()
    &&& forall|i: int| 0 <= i < p ==> ts_le(start_of(#[trigger] rows[i]), t)
    &&& forall|i: int| p <= i < rows.len() ==> ts_lt(t, start_of(#[trigger] rows[i]))
}

/// Where a new row starting at `t` is placed.
pub open spec fn insert_pos(rows: Seq<Reservation>, t: Timestamp) -> int {
    choose|p: int| is_insert_pos(rows, t, p)
}

/// The row that creating the candidate `c` with identity `id` stores.
pub open spec fn created(c: Reservation, id: i64) -> Reservation {
    Reservation {
        id: id,
        user_id: c.user_id,
        resource_id: c.resource_id,
        start: c.start,
        end: c.end,
        note: c.note,
        status: RsvpStatus::Pending,
    }
}

/// `r` with its note replaced.
pub open spec fn with_note(r: Reservation, note: String) -> Reservation {
    Reservation { note: note, ..r }
}

/// What `reserve` does on a store with rows `rows` and next identity `next`,
/// giving `r` and leaving `rows2` and `next2`.
pub open spec fn reserve_post(
    rows: Seq<Reservation>,
    next: i64,
    c: Reservation,
    r: Result<Reservation, Error>,
    rows2: Seq<Reservation>,
    next2: i64,
) -> bool {
    &&& rows_wf(rows2, next2)
    &&& !valid_candidate(c) ==> (r matches Err(e) && validation_error(c, e))
    &&& valid_candidate(c) && conflicts(rows, c) ==> r == Err::<Reservation, Error>(Error::Conflict)
    &&& valid_candidate(c) && !conflicts(rows, c) && next == i64::MAX ==> r == Err::<Reservation, Error>(Error::Unknown)
    &&& r is Err ==> rows2 == rows && next2 == next
    &&& valid_candidate(c) && !conflicts(rows, c) && next < i64::MAX ==> {
        &&& r == Ok::<Reservation, Error>(created(c, next))
        &&& rows2 == rows.insert(insert_pos(rows, start_of(c)), created(c, next))
        &&& next2 == next + 1
    }
}

/// What `change_status` does to the row with identity `id`.
pub open spec fn change_status_post(
    rows: Seq<Reservation>,
    next: i64,
    id: i64,
    r: Result<Reservation, Error>,
    rows2: Seq<Reservation>,
    next2: i64,
) -> bool {
    &&& rows_wf(rows2, next2)
    &&& next2 == next
    &&& !has_id(rows, id) ==> r == Err::<Reservation, Error>(Error::NotFound) && rows2 == rows
    &&& has_id(rows, id) ==> {
        let i = index_of(rows, id);
        &&& r == Ok::<Reservation, Error>(status_changed(rows[i]))
        &&& rows2 == rows.update(i, status_changed(rows[i]))
    }
}

/// What `update` does to the row with identity `id`.
pub open spec fn update_post(
    rows: Seq<Reservation>,
    next: i64,
    id: i64,
    note: String,
    r: Result<Reservation, Error>,
    rows2: Seq<Reservation>,
    next2: i64,
) -> bool {
    &&& rows_wf(rows2, next2)
    &&& next2 == next
    &&& !has_id(rows, id) ==> r == Err::<Reservation, Error>(Error::NotFound) && rows2 == rows
    &&& has_id(rows, id) ==> {
        let i = index_of(rows, id);
        &&& r == Ok::<Reservation, Error>(with_note(rows[i], note))
        &&& rows2 == rows.update(i, with_note(rows[i], note))
    }
}

/// What `delete` does to the row with identity `id`.
pub open spec fn delete_post(
    rows: Seq<Reservation>,
    next: i64,
    id: i64,
    r: Result<(), Error>,
    rows2: Seq<Reservation>,
    next2: i64,
) -> bool {
    &&& rows_wf(rows2, next2)
    &&& next2 == next
    &&& !has_id(rows, id) ==> r == Err::<(), Error>(Error::NotFound) && rows2 == rows
    &&& has_id(rows, id) ==> r == Ok::<(), Error>(()) && rows2 == rows.remove(index_of(rows, id))
}

/// What `get` returns for identity `id`.
pub open spec fn get_post(rows: Seq<Reservation>, id: i64, r: Result<Reservation, Error>) -> bool {
    &&& !has_id(rows, id) ==> r == Err::<Reservation, Error>(Error::NotFound)
    &&& has_id(rows, id) ==> r == Ok::<Reservation, Error>(rows[index_of(rows, id)])
}

/// The operations on reservations, over a store whose rows are `rows()`
/// and which gives the identity `next_id()` to the next row it creates.
/// Each operation takes the store by reference, so operations on one store
/// never interleave: an insert's overlap check and the insert itself form one step.
pub trait Rsvp: Sized {
    spec fn rows(&self) -> Seq<Reservation>;

    spec fn next_id(&self) -> i64;

    /// Creates a reservation in `Pending` state, whatever status the candidate carries.
    /// Fails with the candidate's validation error, with `Conflict` when a live
    /// reservation of the same resource overlaps its window, and with `Unknown`
    /// when the store has no identity left to give.
    fn reserve(&mut self, rsvp: Reservation) -> (r: Result<Reservation, Error>)
        requires
            rows_wf(old(self).rows(), old(self).next_id()),
        ensures
            reserve_post(old(self).rows(), old(self).next_id(), rsvp, r, final(self).rows(), final(self).next_id()),
    ;

    /// Confirms a `Pending` reservation; a reservation in any other status is returned as it is.
    fn change_status(&mut self, id: i64) -> (r: Result<Reservation, Error>)
        requires
            rows_wf(old(self).rows(), old(self).next_id()),
        ensures
            change_status_post(old(self).rows(), old(self).next_id(), id, r, final(self).rows(), final(self).next_id()),
    ;

    /// Replaces the note of a reservation and nothing else.
    fn update(&mut self, id: i64, note: String) -> (r: Result<Reservation, Error>)
        requires
            rows_wf(old(self).rows(), old(self).next_id()),
        ensures
            update_post(old(self).rows(), old(self).next_id(), id, note, r, final(self).rows(), final(self).next_id()),
    ;

    /// Removes a reservation.
    fn delete(&mut self, id: i64) -> (r: Result<(), Error>)
        requires
            rows_wf(old(self).rows(), old(self).next_id()),
        ensures
            delete_post(old(self).rows(), old(self).next_id(), id, r, final(self).rows(), final(self).next_id()),
    ;

    /// The reservation with identity `id`.
    fn get(&self, id: i64) -> (r: Result<Reservation, Error>)
        requires
            rows_wf(self.rows(), self.next_id()),
        ensures
            get_post(self.rows(), id, r),
    ;

    /// The reservations that the filter keeps, ordered by start.
    fn query(&self, query: ReservationQuery) -> (r: Result<Vec<Reservation>, Error>)
        requires
            rows_wf(self.rows(), self.next_id()),
        ensures
            r matches Ok(v) && v@ == filtered(self.rows(), query),
    ;
}

/// An in-memory store of reservations that enforces the no-overlap rule on
/// every insert. Rows are kept ordered by start.
#[derive(Debug)]
pub struct ReservationManager {
    rows: Vec<Reservation>,
    next_id: i64,
}

/// With distinct identities, the row at `i` is the one `index_of` finds.
proof fn lemma_index_of(rows: Seq<Reservation>, next_id: i64, i: int)
    requires
        rows_wf(rows, next_id),
        0 <= i < rows.len(),
    ensures
        has_id(rows, rows[i].id),
        index_of(rows, rows[i].id) == i,
{
    let id = rows[i].id;
    assert(has_id(rows, id));
    let k = index_of(rows, id);
    assert(rows[k].id == rows[i].id);
}

impl ReservationManager {
    /// An empty store; its first reservation gets identity 1.
    pub fn new() -> (r: ReservationManager)
        ensures
            r.rows() == Seq::<Reservation>::empty(),
            r.next_id() == 1,
            rows_wf(r.rows(), r.next_id()),
    {
        ReservationManager { rows: Vec::new(), next_id: 1 }
    }

    fn find(&self, id: i64) -> (r: Option<usize>)
        requires
            rows_wf(self.rows@, self.next_id),
        ensures
            r is None ==> !has_id(self.rows@, id),
            r matches Some(i) ==> has_id(self.rows@, id) && i == index_of(self.rows@, id) && i < self.rows@.len(),
    {
        let mut i: usize = 0;
        while i < self.rows.len()
            invariant
                i <= self.rows@.len(),
                rows_wf(self.rows@, self.next_id),
                forall|k: int| 0 <= k < i ==> (#[trigger] self.rows@[k]).id != id,
            decreases self.rows@.len() - i,
        {
            if self.rows[i].id == id {
                proof {
                    lemma_index_of(self.rows@, self.next_id, i as int);
                }
                return Some(i);
            }
            i += 1;
        }
        None
    }

    fn has_conflict(&self, c: &Reservation) -> (b: bool)
        requires
            rows_wf(self.rows@, self.next_id),
            c.start is Some,
            c.end is Some,
        ensures
            b == conflicts(self.rows@, *c),
    {
        let cs = c.start.unwrap();
        let ce = c.end.unwrap();
        let mut i: usize = 0;
        while i < self.rows.len()
            invariant
                i <= self.rows@.len(),
                rows_wf(self.rows@, self.next_id),
                c.start == Some(cs),
                c.end == Some(ce),
                forall|k: int|
                    0 <= k < i ==> !((#[trigger] self.rows@[k]).status.is_live()
                        && self.rows@[k].resource_id@ == c.resource_id@ && overlaps(self.rows@[k], *c)),
            decreases self.rows@.len() - i,
        {
            let row = &self.rows[i];
            let rs = row.start.unwrap();
            let re = row.end.unwrap();
            if row.status != RsvpStatus::Unknown && row.resource_id == c.resource_id && rs.before(&ce)
                && cs.before(&re) {
                return true;
            }
            i += 1;
        }
        false
    }

    fn position(&self, t: &Timestamp) -> (p: usize)
        requires
            rows_wf(self.rows@, self.next_id),
        ensures
            is_insert_pos(self.rows@, *t, p as int),
            p as int == insert_pos(self.rows@, *t),
    {
        let mut i: usize = 0;
        while i < self.rows.len()
            invariant
                i <= self.rows@.len(),
                rows_wf(self.rows@, self.next_id),
                forall|k: int| 0 <= k < i ==> ts_le(start_of(#[trigger] self.rows@[k]), *t),
            ensures
                i <= self.rows@.len(),
                forall|k: int| 0 <= k < i ==> ts_le(start_of(#[trigger] self.rows@[k]), *t),
                i < self.rows@.len() ==> ts_lt(*t, start_of(self.rows@[i as int])),
            decreases self.rows@.len() - i,
        {
            let rs = self.rows[i].start.unwrap();
            if t.before(&rs) {
                break;
            }
            i += 1;
        }
        proof {
            let rows = self.rows@;
            assert forall|k: int| i <= k < rows.len() implies ts_lt(*t, start_of(#[trigger] rows[k])) by {
                if k > i {
                    assert(ts_le(start_of(rows[i as int]), start_of(rows[k])));
                }
            }
            assert(is_insert_pos(rows, *t, i as int));
            let p = insert_pos(rows, *t);
            assert(is_insert_pos(rows, *t, p));
            if p < i {
                assert(ts_lt(*t, start_of(rows[p])));
            } else if p > i {
                assert(ts_le(start_of(rows[i as int]), *t));
            }
        }
        i
    }
}

impl Rsvp for ReservationManager {
    closed spec fn rows(&self) -> Seq<Reservation> {
        self.rows@
    }

    closed spec fn next_id(&self) -> i64 {
        self.next_id
    }

    fn reserve(&mut self, rsvp: Reservation) -> (r: Result<Reservation, Error>) {
        match rsvp.validate() {
            Err(e) => return Err(e),
            Ok(()) => {},
        }
        if self.has_conflict(&rsvp) {
            return Err(Error::Conflict);
        }
        if self.next_id == i64::MAX {
            return Err(Error::Unknown);
        }
        let start = rsvp.start.unwrap();
        let p = self.position(&start);
        let id = self.next_id;
        let row = Reservation {
            id,
            user_id: rsvp.user_id,
            resource_id: rsvp.resource_id,
            start: rsvp.start,
            end: rsvp.end,
            note: rsvp.note,
            status: RsvpStatus::Pending,
        };
        let out = row.duplicate();
        let ghost before = self.rows@;
        self.rows.insert(p, row);
        self.next_id = id + 1;
        proof {
            before.insert_ensures(p as int, out);
            let rows = self.rows@;
            assert forall|i: int, j: int|
                0 <= i < rows.len() && 0 <= j < rows.len() && i != j implies !clash(#[trigger] rows[i], #[trigger] rows[j]) by {
                if i == p as int {
                    let k = if j < p { j } else { j - 1 };
                    assert(rows[j] == before[k]);
                } else if j == p as int {
                    let k = if i < p { i } else { i - 1 };
                    assert(rows[i] == before[k]);
                } else {
                    let ki = if i < p { i } else { i - 1 };
                    let kj = if j < p { j } else { j - 1 };
                    assert(rows[i] == before[ki]);
                    assert(rows[j] == before[kj]);
                }
            }
            assert forall|i: int, j: int|
                0 <= i < j < rows.len() implies ts_le(start_of(#[trigger] rows[i]), start_of(#[trigger] rows[j])) by {
                if i == p as int {
                    assert(rows[j] == before[j - 1]);
                } else if j == p as int {
                    assert(rows[i] == before[i]);
                } else {
                    let ki = if i < p { i } else { i - 1 };
                    let kj = if j < p { j } else { j - 1 };
                    assert(rows[i] == before[ki]);
                    assert(rows[j] == before[kj]);
                }
            }
            assert forall|i: int, j: int|
                0 <= i < rows.len() && 0 <= j < rows.len() && i != j implies (#[trigger] rows[i]).id != (#[trigger] rows[j]).id by {
                if i != p as int {
                    let ki = if i < p { i } else { i - 1 };
                    assert(rows[i] == before[ki]);
                }
                if j != p as int {
                    let kj = if j < p { j } else { j - 1 };
                    assert(rows[j] == before[kj]);
                }
            }
            assert forall|i: int| 0 <= i < rows.len() implies stored_row(#[trigger] rows[i]) && rows[i].id < self.next_id by {
                if i != p as int {
                    let ki = if i < p { i } else { i - 1 };
                    assert(rows[i] == before[ki]);
                }
            }
        }
        Ok(out)
    }

    fn change_status(&mut self, id: i64) -> (r: Result<Reservation, Error>) {
        match self.find(id) {
            None => Err(Error::NotFound),
            Some(i) => {
                let ghost before = self.rows@;
                let row = self.rows[i].confirmed();
                let out = row.duplicate();
                self.rows.set(i, row);
                proof {
                    let rows = self.rows@;
                    assert forall|a: int, b: int|
                        0 <= a < rows.len() && 0 <= b < rows.len() && a != b implies !clash(#[trigger] rows[a], #[trigger] rows[b]) by {
                        assert(!clash(before[a], before[b]));
                    }
                }
                Ok(out)
            },
        }
    }

    fn update(&mut self, id: i64, note: String) -> (r: Result<Reservation, Error>) {
        match self.find(id) {
            None => Err(Error::NotFound),
            Some(i) => {
                let ghost before = self.rows@;
                let mut row = self.rows[i].duplicate();
                row.note = note;
                let out = row.duplicate();
                self.rows.set(i, row);
                proof {
                    let rows = self.rows@;
                    assert forall|a: int, b: int|
                        0 <= a < rows.len() && 0 <= b < rows.len() && a != b implies !clash(#[trigger] rows[a], #[trigger] rows[b]) by {
                        assert(!clash(before[a], before[b]));
                    }
                }
                Ok(out)
            },
        }
    }

    fn delete(&mut self, id: i64) -> (r: Result<(), Error>) {
        match self.find(id) {
            None => Err(Error::NotFound),
            Some(i) => {
                let ghost before = self.rows@;
                self.rows.remove(i);
                proof {
                    before.remove_ensures(i as int);
                    let rows = self.rows@;
                    assert forall|a: int, b: int|
                        0 <= a < rows.len() && 0 <= b < rows.len() && a != b implies !clash(#[trigger] rows[a], #[trigger] rows[b]) && rows[a].id != rows[b].id by {
                        let ka = if a < i { a } else { a + 1 };
                        let kb = if b < i { b } else { b + 1 };
                        assert(rows[a] == before[ka]);
                        assert(rows[b] == before[kb]);
                    }
                    assert forall|a: int, b: int|
                        0 <= a < b < rows.len() implies ts_le(start_of(#[trigger] rows[a]), start_of(#[trigger] rows[b])) by {
                        let ka = if a < i { a } else { a + 1 };
                        let kb = if b < i { b } else { b + 1 };
                        assert(rows[a] == before[ka]);
                        assert(rows[b] == before[kb]);
                    }
                    assert forall|a: int| 0 <= a < rows.len() implies stored_row(#[trigger] rows[a]) && rows[a].id < self.next_id by {
                        let ka = if a < i { a } else { a + 1 };
                        assert(rows[a] == before[ka]);
                    }
                }
                Ok(())
            },
        }
    }

    fn get(&self, id: i64) -> (r: Result<Reservation, Error>) {
        match self.find(id) {
            None => Err(Error::NotFound),
            Some(i) => Ok(self.rows[i].duplicate()),
        }
    }

    fn query(&self, query: ReservationQuery) -> (r: Result<Vec<Reservation>, Error>) {
        let mut out: Vec<Reservation> = Vec::new();
        let mut i: usize = 0;
        while i < self.rows.len()
            invariant
                i <= self.rows@.len(),
                rows_wf(self.rows@, self.next_id),
                out@ == filtered(self.rows@.take(i as int), query),
            decreases self.rows@.len() - i,
        {
            proof {
                assert(self.rows@.take(i + 1).drop_last() =~= self.rows@.take(i as int));
            }
            let row = &self.rows[i];
            if query.accepts(row) {
                out.push(row.duplicate());
            }
            i += 1;
        }
        proof {
            assert(self.rows@.take(i as int) =~= self.rows@);
        }
        Ok(out)
    }
}

} // verus!
