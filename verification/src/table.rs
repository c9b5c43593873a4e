//! The generic entity repository: one relation of records of one entity
//! kind, with the uniform operation set and the sync-state machine
//! enforced on every mutation.
//!
//! Every operation's contract is stated against a sequence model of the
//! relation: mutations are sequence-to-sequence spec functions, reads are
//! spec functions from the sequence to the returned value.

use vstd::prelude::*;

use crate::errors::DbError;
use crate::order::{
    bytes_le, bytes_le_exec, lemma_bytes_le_antisym, lemma_bytes_le_total, lemma_bytes_le_trans,
};
use crate::record::{Patch, Record};
use crate::sync::{SyncMeta, SyncStatus};
use vstd::utf8::encode_utf8;

verus! {

// ---------------------------------------------------------------------------
// Specification model
// ---------------------------------------------------------------------------

/// Ids are pairwise distinct and entity-specific uniqueness keys are
/// pairwise distinct where present: the relation's integrity constraints.
pub open spec fn rows_wf<R: Record>(rows: Seq<R>) -> bool {
    forall|i: int, j: int|
        0 <= i < j < rows.len() ==> !#[trigger] row_conflict(rows[i], rows[j])
}

/// Would the two records collide on the id or on the uniqueness key?
pub open spec fn row_conflict<R: Record>(x: R, r: R) -> bool {
    x.sid() == r.sid() || (x.suniq() is Some && x.suniq() == r.suniq())
}

/// Does some stored record collide with `r`?
pub open spec fn conflicts_with<R: Record>(rows: Seq<R>, r: R) -> bool {
    exists|i: int| 0 <= i < rows.len() && #[trigger] row_conflict(rows[i], r)
}

/// Does some stored record carry this id?
pub open spec fn has_id<R: Record>(rows: Seq<R>, id: Seq<char>) -> bool {
    exists|i: int| 0 <= i < rows.len() && #[trigger] rows[i].sid() == id
}

/// The first stored record with this id, if any.
pub open spec fn spec_find<R: Record>(rows: Seq<R>, id: Seq<char>) -> Option<R>
    decreases rows.len(),
{
    if rows.len() == 0 {
        None
    } else if rows[0].sid() == id {
        Some(rows[0])
    } else {
        spec_find(rows.drop_first(), id)
    }
}

/// The first stored record with this listing key, if any.
pub open spec fn spec_find_owned<R: Record>(rows: Seq<R>, owner: Seq<char>) -> Option<R>
    decreases rows.len(),
{
    if rows.len() == 0 {
        None
    } else if rows[0].sowner() == owner {
        Some(rows[0])
    } else {
        spec_find_owned(rows.drop_first(), owner)
    }
}

/// The relation after a soft delete of `id` at time `now`: the matching
/// record becomes a tombstone, every other record is untouched.
pub open spec fn spec_soft_delete<R: Record>(rows: Seq<R>, id: Seq<char>, now: u64) -> Seq<R> {
    rows.map_values(
        |r: R|
            if r.sid() == id {
                r.with_meta(r.smeta().tombstoned(now))
            } else {
                r
            },
    )
}

/// The relation after the remote authority acknowledges `id` with its own
/// update time `server_updated_at`, at local time `now`.
pub open spec fn spec_mark_synced<R: Record>(
    rows: Seq<R>,
    id: Seq<char>,
    server_updated_at: u64,
    now: u64,
) -> Seq<R> {
    rows.map_values(
        |r: R|
            if r.sid() == id {
                r.with_meta(r.smeta().acknowledged(server_updated_at, now))
            } else {
                r
            },
    )
}

/// The record `cur` after a partial update at time `now`: the patch's
/// fields applied, the status back to `Pending`, the local-update stamp
/// refreshed.
pub open spec fn spec_patched<R: Record, U: Patch<R>>(cur: R, u: U, now: u64) -> R {
    u.sapply(cur).with_meta(cur.smeta().edited(now))
}

/// The relation after a partial update of `id` at time `now`.
pub open spec fn spec_update_rows<R: Record, U: Patch<R>>(
    rows: Seq<R>,
    id: Seq<char>,
    u: U,
    now: u64,
) -> Seq<R> {
    rows.map_values(
        |r: R|
            if r.sid() == id {
                spec_patched(r, u, now)
            } else {
                r
            },
    )
}

/// The relation after a physical delete of `id`.
pub open spec fn spec_hard_delete<R: Record>(rows: Seq<R>, id: Seq<char>) -> Seq<R> {
    rows.filter(|x: R| x.sid() != id)
}

/// The relation after removing every record whose parent is `pid`.
pub open spec fn spec_prune_children<R: Record>(rows: Seq<R>, pid: Seq<char>) -> Seq<R> {
    rows.filter(|x: R| x.sparent() != Some(pid))
}

/// The relation after an upsert of `r`: every record colliding with `r`
/// (on id or on uniqueness key) leaves, then `r` is appended.
pub open spec fn spec_replace_insert<R: Record>(rows: Seq<R>, r: R) -> Seq<R> {
    rows.filter(|x: R| !row_conflict(x, r)).push(r)
}

/// Is the record visible in the normal listing for `owner`: listed under
/// that key and not tombstoned?
pub open spec fn row_listed<R: Record>(x: R, owner: Seq<char>) -> bool {
    x.sowner() == owner && x.smeta().sync_status != SyncStatus::Deleted
}

/// Is the record visible in the listing of `pid`'s children: a child of
/// that record and not tombstoned?
pub open spec fn row_child<R: Record>(x: R, pid: Seq<char>) -> bool {
    x.sparent() == Some(pid) && x.smeta().sync_status != SyncStatus::Deleted
}

/// The records of the normal listing for `owner`, in storage order.
pub open spec fn spec_listed<R: Record>(rows: Seq<R>, owner: Seq<char>) -> Seq<R> {
    rows.filter(|x: R| row_listed(x, owner))
}

/// The records whose status is `st`, in storage order.
pub open spec fn spec_with_status<R: Record>(rows: Seq<R>, st: SyncStatus) -> Seq<R> {
    rows.filter(|x: R| x.smeta().sync_status == st)
}

// ---------------------------------------------------------------------------
// Lemmas about the specification model
// ---------------------------------------------------------------------------

/// If nothing before index `i` carries `id` and the record at `i` does,
/// the first match is the record at `i`.
pub proof fn lemma_find_at<R: Record>(rows: Seq<R>, id: Seq<char>, i: int)
    requires
        0 <= i < rows.len(),
        forall|k: int| 0 <= k < i ==> #[trigger] rows[k].sid() != id,
        rows[i].sid() == id,
    ensures
        spec_find(rows, id) == Some(rows[i]),
    decreases i,
{
    if i > 0 {
        assert(rows[0].sid() != id);
        lemma_find_at(rows.drop_first(), id, i - 1);
    }
}

/// If no record carries `id`, there is no first match.
pub proof fn lemma_find_none<R: Record>(rows: Seq<R>, id: Seq<char>)
    requires
        forall|k: int| 0 <= k < rows.len() ==> #[trigger] rows[k].sid() != id,
    ensures
        spec_find(rows, id) is None,
    decreases rows.len(),
{
    if rows.len() > 0 {
        lemma_find_none(rows.drop_first(), id);
    }
}

/// A record exists under `id` exactly when the first match exists, and
/// the first match carries `id`.
pub proof fn lemma_find_some<R: Record>(rows: Seq<R>, id: Seq<char>)
    ensures
        has_id(rows, id) <==> spec_find(rows, id) is Some,
        spec_find(rows, id) is Some ==> spec_find(rows, id).unwrap().sid() == id && rows.contains(
            spec_find(rows, id).unwrap(),
        ),
    decreases rows.len(),
{
    if rows.len() > 0 {
        lemma_find_some(rows.drop_first(), id);
        if rows[0].sid() != id {
            if has_id(rows, id) {
                let i = choose|i: int| 0 <= i < rows.len() && #[trigger] rows[i].sid() == id;
                assert(rows.drop_first()[i - 1].sid() == id);
            }
            if has_id(rows.drop_first(), id) {
                let i = choose|i: int|
                    0 <= i < rows.drop_first().len() && #[trigger] rows.drop_first()[i].sid()
                        == id;
                assert(rows[i + 1].sid() == id);
            }
            if spec_find(rows.drop_first(), id) is Some {
                let x = spec_find(rows.drop_first(), id).unwrap();
                let i = choose|i: int|
                    0 <= i < rows.drop_first().len() && rows.drop_first()[i] == x;
                assert(rows[i + 1] == x);
            }
        }
    }
}

/// Appending a fresh record makes it findable under its id.
pub proof fn lemma_find_after_push<R: Record>(rows: Seq<R>, r: R)
    requires
        !has_id(rows, r.sid()),
    ensures
        spec_find(rows.push(r), r.sid()) == Some(r),
{
    assert forall|k: int| 0 <= k < rows.len() implies #[trigger] rows.push(r)[k].sid()
        != r.sid() by {
        assert(rows.push(r)[k] == rows[k]);
    }
    lemma_find_at(rows.push(r), r.sid(), rows.len() as int);
}

/// Every element of a filtered sequence is among the unfiltered ones.
pub proof fn lemma_filter_sub<R>(s: Seq<R>, pred: spec_fn(R) -> bool)
    ensures
        forall|i: int|
            0 <= i < s.filter(pred).len() ==> s.contains(#[trigger] s.filter(pred)[i]),
    decreases s.len(),
{
    reveal(Seq::filter);
    if s.len() > 0 {
        lemma_filter_sub(s.drop_last(), pred);
        assert forall|i: int| 0 <= i < s.filter(pred).len() implies s.contains(
            #[trigger] s.filter(pred)[i],
        ) by {
            let f = s.filter(pred);
            let fd = s.drop_last().filter(pred);
            if i < fd.len() {
                assert(fd[i] == f[i]);
                let j = choose|j: int| 0 <= j < s.drop_last().len() && s.drop_last()[j] == fd[i];
                assert(s[j] == f[i]);
            } else {
                assert(f[i] == s.last());
                assert(s[s.len() - 1] == s.last());
            }
        }
    }
}

/// Filtering preserves the relation's integrity constraints.
pub proof fn lemma_wf_filter<R: Record>(s: Seq<R>, pred: spec_fn(R) -> bool)
    requires
        rows_wf(s),
    ensures
        rows_wf(s.filter(pred)),
    decreases s.len(),
{
    reveal(Seq::filter);
    if s.len() > 0 {
        assert(rows_wf(s.drop_last()));
        lemma_wf_filter(s.drop_last(), pred);
        let f = s.filter(pred);
        let fd = s.drop_last().filter(pred);
        if pred(s.last()) {
            assert(f == fd.push(s.last()));
            lemma_filter_sub(s.drop_last(), pred);
            assert forall|i: int, j: int| 0 <= i < j < f.len() implies !#[trigger] row_conflict(
                f[i],
                f[j],
            ) by {
                if j < fd.len() {
                    assert(fd[i] == f[i] && fd[j] == f[j]);
                } else {
                    assert(f[j] == s.last());
                    assert(fd[i] == f[i]);
                    assert(s.drop_last().contains(fd[i]));
                    let k = choose|k: int|
                        0 <= k < s.drop_last().len() && s.drop_last()[k] == fd[i];
                    assert(s[k] == f[i]);
                    assert(!row_conflict(s[k], s[s.len() - 1]));
                }
            }
        }
    }
}

// ---------------------------------------------------------------------------
// The repository
// ---------------------------------------------------------------------------

/// One relation of records of one entity kind.
pub struct Table<R> {
    rows: Vec<R>,
}

impl<R> View for Table<R> {
    type V = Seq<R>;

    closed spec fn view(&self) -> Seq<R> {
        self.rows@
    }
}

impl<R: Record> Table<R> {
    /// The relation's integrity constraints hold.
    pub open spec fn wf(&self) -> bool {
        rows_wf(self@)
    }

    /// An empty relation.
    pub fn new() -> (t: Table<R>)
        ensures
            t@ == Seq::<R>::empty(),
            t.wf(),
    {
        let t = Table { rows: Vec::new() };
        proof {
            assert(t@ =~= Seq::<R>::empty());
        }
        t
    }

    /// A read-only view of the stored records, in storage order.
    pub fn rows(&self) -> (r: &Vec<R>)
        ensures
            r@ == self@,
    {
        &self.rows
    }

    /// A copy of every stored record, tombstones included, in storage
    /// order; the raw material for persisting the relation.
    pub fn all(&self) -> (r: Vec<R>)
        ensures
            r@ == self@,
    {
        let n = self.rows.len();
        let mut out: Vec<R> = Vec::new();
        let mut i: usize = 0;
        while i < n
            invariant
                i <= n,
                n == self@.len(),
                out@ == self@.subrange(0, i as int),
            decreases n - i,
        {
            out.push(self.rows[i].dup());
            proof {
                assert(out@ =~= self@.subrange(0, i + 1 as int));
            }
            i = i + 1;
        }
        proof {
            assert(self@.subrange(0, n as int) =~= self@);
        }
        out
    }

    /// How many records the relation holds, tombstones included.
    pub fn len(&self) -> (n: usize)
        ensures
            n == self@.len(),
    {
        self.rows.len()
    }

    /// The single record with this id, regardless of sync status:
    /// tombstoned records remain fetchable so that callers can inspect
    /// them before physical deletion.
    pub fn get(&self, id: &String) -> (r: Option<R>)
        ensures
            r == spec_find(self@, id@),
    {
        let n = self.rows.len();
        let mut i: usize = 0;
        while i < n
            invariant
                i <= n,
                n == self@.len(),
                forall|k: int| 0 <= k < i ==> #[trigger] self@[k].sid() != id@,
            decreases n - i,
        {
            if *self.rows[i].id() == *id {
                proof {
                    lemma_find_at(self@, id@, i as int);
                }
                return Some(self.rows[i].dup());
            }
            i = i + 1;
        }
        proof {
            lemma_find_none(self@, id@);
        }
        None
    }

    /// The single record with this listing key, regardless of sync
    /// status; meant for kinds whose listing key is unique, such as
    /// per-user settings.
    pub fn get_owned(&self, owner: &String) -> (r: Option<R>)
        ensures
            r == spec_find_owned(self@, owner@),
    {
        let n = self.rows.len();
        let mut i: usize = 0;
        while i < n
            invariant
                i <= n,
                n == self@.len(),
                forall|k: int| 0 <= k < i ==> #[trigger] self@[k].sowner() != owner@,
            decreases n - i,
        {
            if *self.rows[i].owner() == *owner {
                proof {
                    lemma_find_owned_at(self@, owner@, i as int);
                }
                return Some(self.rows[i].dup());
            }
            i = i + 1;
        }
        proof {
            lemma_find_owned_none(self@, owner@);
        }
        None
    }

    /// Inserts a new record.  The caller supplies the id, the timestamps
    /// and the sync status (a new local record is created `Pending`, one
    /// hydrated from a remote payload `Synced`); the repository defaults
    /// nothing.  Fails with `ValidationError` if the record violates the
    /// entity kind's own field constraints, and with `Conflict` if the id
    /// or the uniqueness key is already taken — tombstones included.
    pub fn create(&mut self, r: R) -> (res: Result<(), DbError>)
        requires
            old(self).wf(),
        ensures
            final(self).wf(),
            match res {
                Ok(()) => r.svalid() && !conflicts_with(old(self)@, r) && final(self)@ == old(
                    self,
                )@.push(r),
                Err(e) => final(self)@ == old(self)@ && (e == DbError::ValidationError || e
                    == DbError::Conflict) && (e == DbError::ValidationError <==> !r.svalid()) && (e
                    == DbError::Conflict ==> conflicts_with(old(self)@, r)),
            },
    {
        if !r.validate() {
            return Err(DbError::ValidationError);
        }
        if self.conflicts(&r) {
            return Err(DbError::Conflict);
        }
        proof {
            assert forall|i2: int, j2: int|
                0 <= i2 < j2 < old(self)@.push(r).len() implies !#[trigger] row_conflict(
                old(self)@.push(r)[i2],
                old(self)@.push(r)[j2],
            ) by {
                if j2 < old(self)@.len() {
                    assert(old(self)@.push(r)[i2] == old(self)@[i2]);
                    assert(old(self)@.push(r)[j2] == old(self)@[j2]);
                } else {
                    assert(old(self)@.push(r)[i2] == old(self)@[i2]);
                    assert(old(self)@.push(r)[j2] == r);
                    assert(!row_conflict(old(self)@[i2], r));
                }
            }
        }
        self.rows.push(r);
        Ok(())
    }

    /// Soft delete: sets the record's status to `Deleted` and refreshes
    /// its local-update stamp, retaining all field data as a tombstone.
    /// Returns whether a record with this id existed.
    pub fn soft_delete(&mut self, id: &String, now: u64) -> (r: bool)
        requires
            old(self).wf(),
        ensures
            final(self).wf(),
            r == has_id(old(self)@, id@),
            final(self)@ == spec_soft_delete(old(self)@, id@, now),
            forall|p: Seq<char>| #[trigger] has_id(final(self)@, p) == has_id(old(self)@, p),
    {
        let ghost target = spec_soft_delete(old(self)@, id@, now);
        let n = self.rows.len();
        let mut out: Vec<R> = Vec::new();
        let mut found = false;
        let mut i: usize = 0;
        while i < n
            invariant
                i <= n,
                self@ == old(self)@,
                n == self@.len(),
                found == has_id(self@.subrange(0, i as int), id@),
                out@ == spec_soft_delete(self@.subrange(0, i as int), id@, now),
            decreases n - i,
        {
            let ghost prefix = self@.subrange(0, i as int);
            let ghost prefix2 = self@.subrange(0, i + 1 as int);
            proof {
                assert(prefix2 =~= prefix.push(self@[i as int]));
            }
            let row = &self.rows[i];
            if *row.id() == *id {
                let mut x = row.dup();
                let m = x.meta();
                x.set_meta(
                    SyncMeta {
                        sync_status: SyncStatus::Deleted,
                        local_updated_at: if now > m.local_updated_at {
                            now
                        } else {
                            m.local_updated_at
                        },
                        ..m
                    },
                );
                proof {
                    assert(x == self@[i as int].with_meta(self@[i as int].smeta().tombstoned(now)));
                }
                out.push(x);
                found = true;
                proof {
                    lemma_has_id_push(prefix, self@[i as int], id@);
                    assert(out@ =~= spec_soft_delete(prefix2, id@, now));
                }
            } else {
                out.push(row.dup());
                proof {
                    lemma_has_id_push(prefix, self@[i as int], id@);
                    assert(out@ =~= spec_soft_delete(prefix2, id@, now));
                }
            }
            i = i + 1;
        }
        proof {
            assert(self@.subrange(0, n as int) =~= self@);
            lemma_wf_soft_delete(old(self)@, id@, now);
            lemma_soft_delete_ids(old(self)@, id@, now);
        }
        self.rows = out;
        found
    }

    /// Sync acknowledgement: transitions the record to `Synced`, stamps
    /// the reconciliation time with `now` and records the server's own
    /// update time.  No other field is touched, so acknowledging twice
    /// with the same server time leaves the same agreement.  Fails with
    /// `NotFound`, changing nothing, if the id does not exist.
    pub fn mark_synced(&mut self, id: &String, server_updated_at: u64, now: u64) -> (res: Result<
        (),
        DbError,
    >)
        requires
            old(self).wf(),
        ensures
            final(self).wf(),
            final(self)@ == spec_mark_synced(old(self)@, id@, server_updated_at, now),
            forall|p: Seq<char>| #[trigger] has_id(final(self)@, p) == has_id(old(self)@, p),
            match res {
                Ok(()) => has_id(old(self)@, id@),
                Err(e) => e == DbError::NotFound && !has_id(old(self)@, id@),
            },
    {
        let ghost target = spec_mark_synced(old(self)@, id@, server_updated_at, now);
        let n = self.rows.len();
        let mut out: Vec<R> = Vec::new();
        let mut found = false;
        let mut i: usize = 0;
        while i < n
            invariant
                i <= n,
                self@ == old(self)@,
                n == self@.len(),
                found == has_id(self@.subrange(0, i as int), id@),
                out@ == spec_mark_synced(
                    self@.subrange(0, i as int),
                    id@,
                    server_updated_at,
                    now,
                ),
            decreases n - i,
        {
            let ghost prefix = self@.subrange(0, i as int);
            let ghost prefix2 = self@.subrange(0, i + 1 as int);
            proof {
                assert(prefix2 =~= prefix.push(self@[i as int]));
            }
            let row = &self.rows[i];
            if *row.id() == *id {
                let mut x = row.dup();
                let m = x.meta();
                x.set_meta(
                    SyncMeta {
                        sync_status: SyncStatus::Synced,
                        synced_at: Some(now),
                        server_updated_at: Some(server_updated_at),
                        ..m
                    },
                );
                proof {
                    assert(x == self@[i as int].with_meta(
                        self@[i as int].smeta().acknowledged(server_updated_at, now),
                    ));
                }
                out.push(x);
                found = true;
            } else {
                out.push(row.dup());
            }
            proof {
                lemma_has_id_push(prefix, self@[i as int], id@);
                assert(out@ =~= spec_mark_synced(prefix2, id@, server_updated_at, now));
            }
            i = i + 1;
        }
        proof {
            assert(self@.subrange(0, n as int) =~= self@);
            lemma_wf_mark_synced(old(self)@, id@, server_updated_at, now);
            lemma_mark_synced_ids(old(self)@, id@, server_updated_at, now);
        }
        self.rows = out;
        if found {
            Ok(())
        } else {
            Err(DbError::NotFound)
        }
    }

    /// Partial update: applies only the fields present in the patch over
    /// the current record, unconditionally returns the status to
    /// `Pending` and refreshes the local-update stamp, because any local
    /// field mutation invalidates the prior sync agreement — including an
    /// update to a tombstoned record, which this store deliberately
    /// resurrects to `Pending`.  Returns the updated record, `None` (not
    /// an error) if the id does not exist, and `ValidationError`,
    /// changing nothing, if the patched record would violate the entity
    /// kind's own constraints.
    pub fn update<U: Patch<R>>(&mut self, id: &String, u: &U, now: u64) -> (res: Result<
        Option<R>,
        DbError,
    >)
        requires
            old(self).wf(),
        ensures
            final(self).wf(),
            forall|p: Seq<char>| #[trigger] has_id(final(self)@, p) == has_id(old(self)@, p),
            match res {
                Ok(r_opt) => match r_opt {
                    None => !has_id(old(self)@, id@) && final(self)@ == old(self)@,
                    Some(x) => has_id(old(self)@, id@) && spec_find(old(self)@, id@) is Some && x
                        == spec_patched(spec_find(old(self)@, id@).unwrap(), *u, now) && x.svalid()
                        && final(self)@ == spec_update_rows(old(self)@, id@, *u, now),
                },
                Err(e) => e == DbError::ValidationError && final(self)@ == old(self)@ && spec_find(
                    old(self)@,
                    id@,
                ) is Some && !spec_patched(spec_find(old(self)@, id@).unwrap(), *u, now).svalid(),
            },
    {
        let cur = match self.get(id) {
            None => {
                proof {
                    lemma_find_some(self@, id@);
                }
                return Ok(None);
            },
            Some(c) => c,
        };
        proof {
            lemma_find_some(self@, id@);
        }
        let m = cur.meta();
        let mut patched = u.apply(cur);
        patched.set_meta(
            SyncMeta {
                sync_status: SyncStatus::Pending,
                local_updated_at: if now > m.local_updated_at {
                    now
                } else {
                    m.local_updated_at
                },
                ..m
            },
        );
        let ghost cur0 = spec_find(old(self)@, id@).unwrap();
        proof {
            assert(patched == spec_patched(cur0, *u, now));
        }
        if !patched.validate() {
            return Err(DbError::ValidationError);
        }
        let ghost target = spec_update_rows(old(self)@, id@, *u, now);
        let n = self.rows.len();
        let mut out: Vec<R> = Vec::new();
        let mut i: usize = 0;
        while i < n
            invariant
                i <= n,
                self@ == old(self)@,
                old(self).wf(),
                n == self@.len(),
                cur0 == spec_find(old(self)@, id@).unwrap(),
                spec_find(old(self)@, id@) is Some,
                cur0.sid() == id@,
                self@.contains(cur0),
                patched == spec_patched(cur0, *u, now),
                out@ == spec_update_rows(self@.subrange(0, i as int), id@, *u, now),
            decreases n - i,
        {
            let ghost prefix = self@.subrange(0, i as int);
            let ghost prefix2 = self@.subrange(0, i + 1 as int);
            proof {
                assert(prefix2 =~= prefix.push(self@[i as int]));
            }
            let row = &self.rows[i];
            if *row.id() == *id {
                proof {
                    let k = choose|k: int| 0 <= k < self@.len() && self@[k] == cur0;
                    assert(self@[i as int].sid() == id@ && self@[k].sid() == id@);
                    if k != i as int {
                        assert(row_conflict(self@[if k < i as int {
                            k
                        } else {
                            i as int
                        }], self@[if k < i as int {
                            i as int
                        } else {
                            k
                        }]));
                        assert(false);
                    }
                    assert(self@[i as int] == cur0);
                }
                out.push(patched.dup());
            } else {
                out.push(row.dup());
            }
            proof {
                assert(out@ =~= spec_update_rows(prefix2, id@, *u, now));
            }
            i = i + 1;
        }
        proof {
            assert(self@.subrange(0, n as int) =~= self@);
            lemma_wf_update_rows(old(self)@, id@, *u, now);
            lemma_update_rows_ids(old(self)@, id@, *u, now);
        }
        self.rows = out;
        Ok(Some(patched))
    }

    /// Physical delete: unconditionally removes the record, tombstone or
    /// not.  Dependent records in other relations are the business of the
    /// store that owns both relations.
    pub fn hard_delete(&mut self, id: &String)
        requires
            old(self).wf(),
        ensures
            final(self).wf(),
            final(self)@ == spec_hard_delete(old(self)@, id@),
            forall|p: Seq<char>| #[trigger] has_id(final(self)@, p) == (has_id(old(self)@, p) && p
                != id@),
            forall|k: int|
                0 <= k < final(self)@.len() ==> old(self)@.contains(#[trigger] final(self)@[k])
                    && final(self)@[k].sid() != id@,
    {
        let n = self.rows.len();
        let mut out: Vec<R> = Vec::new();
        proof {
            reveal(Seq::filter);
            assert(out@ =~= self@.subrange(0, 0).filter((|x: R| x.sid() != id@)));
        }
        let mut i: usize = 0;
        while i < n
            invariant
                i <= n,
                self@ == old(self)@,
                n == self@.len(),
                out@ == self@.subrange(0, i as int).filter((|x: R| x.sid() != id@)),
            decreases n - i,
        {
            let ghost prefix = self@.subrange(0, i as int);
            let ghost prefix2 = self@.subrange(0, i + 1 as int);
            let row = &self.rows[i];
            if !(*row.id() == *id) {
                out.push(row.dup());
            }
            proof {
                reveal(Seq::filter);
                assert(prefix2 =~= prefix.push(self@[i as int]));
                assert(prefix2.drop_last() =~= prefix);
                assert(out@ =~= prefix2.filter((|x: R| x.sid() != id@)));
            }
            i = i + 1;
        }
        proof {
            assert(self@.subrange(0, n as int) =~= self@);
            lemma_wf_filter(old(self)@, (|x: R| x.sid() != id@));
        }
        self.rows = out;
        proof {
            lemma_hard_delete_has_id(old(self)@, id@);
            assert forall|p: Seq<char>| #[trigger] has_id(self@, p) == (has_id(old(self)@, p) && p
                != id@) by {
                assert(has_id(spec_hard_delete(old(self)@, id@), p) == (has_id(old(self)@, p) && p
                    != id@));
            }
            broadcast use vstd::seq_lib::group_filter_ensures;

            lemma_filter_sub(old(self)@, (|x: R| x.sid() != id@));
            let kept = old(self)@.filter((|x: R| x.sid() != id@));
            assert forall|k: int|
                0 <= k < self@.len() implies old(self)@.contains(#[trigger] self@[k]) && self@[k].sid()
                != id@ by {
                assert(self@[k] == kept[k]);
            }
        }
    }

    /// Removes every record whose parent is `pid`, returning the removed
    /// records so that the store can cascade further.
    pub fn prune_children(&mut self, pid: &String) -> (removed: Vec<R>)
        requires
            old(self).wf(),
        ensures
            final(self).wf(),
            final(self)@ == spec_prune_children(old(self)@, pid@),
            removed@ == old(self)@.filter((|x: R| x.sparent() == Some(pid@))),
            forall|k: int|
                0 <= k < final(self)@.len() ==> (#[trigger] final(self)@[k]).sparent() != Some(
                    pid@,
                ) && old(self)@.contains(final(self)@[k]),
            forall|k: int|
                0 <= k < removed@.len() ==> (#[trigger] removed@[k]).sparent() == Some(pid@) && old(
                    self,
                )@.contains(removed@[k]),
            forall|j: int|
                0 <= j < old(self)@.len() ==> if (#[trigger] old(self)@[j]).sparent() == Some(
                    pid@,
                ) {
                    removed@.contains(old(self)@[j])
                } else {
                    final(self)@.contains(old(self)@[j])
                },
    {
        let n = self.rows.len();
        let mut out: Vec<R> = Vec::new();
        let mut removed: Vec<R> = Vec::new();
        proof {
            reveal(Seq::filter);
            assert(out@ =~= self@.subrange(0, 0).filter((|x: R| x.sparent() != Some(pid@))));
            assert(removed@ =~= self@.subrange(0, 0).filter((|x: R| x.sparent() == Some(pid@))));
        }
        let mut i: usize = 0;
        while i < n
            invariant
                i <= n,
                self@ == old(self)@,
                n == self@.len(),
                out@ == self@.subrange(0, i as int).filter((|x: R| x.sparent() != Some(pid@))),
                removed@ == self@.subrange(0, i as int).filter(
                    (|x: R| x.sparent() == Some(pid@)),
                ),
            decreases n - i,
        {
            let ghost prefix = self@.subrange(0, i as int);
            let ghost prefix2 = self@.subrange(0, i + 1 as int);
            let row = &self.rows[i];
            let matches_parent = match row.parent() {
                Some(p) => *p == *pid,
                None => false,
            };
            if matches_parent {
                removed.push(row.dup());
            } else {
                out.push(row.dup());
            }
            proof {
                reveal(Seq::filter);
                assert(prefix2 =~= prefix.push(self@[i as int]));
                assert(prefix2.drop_last() =~= prefix);
                assert(out@ =~= prefix2.filter((|x: R| x.sparent() != Some(pid@))));
                assert(removed@ =~= prefix2.filter((|x: R| x.sparent() == Some(pid@))));
            }
            i = i + 1;
        }
        proof {
            assert(self@.subrange(0, n as int) =~= self@);
            lemma_wf_filter(old(self)@, (|x: R| x.sparent() != Some(pid@)));
        }
        self.rows = out;
        proof {
            broadcast use vstd::seq_lib::group_filter_ensures;

            lemma_filter_sub(old(self)@, (|x: R| x.sparent() != Some(pid@)));
            lemma_filter_sub(old(self)@, (|x: R| x.sparent() == Some(pid@)));
            let kept = old(self)@.filter((|x: R| x.sparent() != Some(pid@)));
            let gone = old(self)@.filter((|x: R| x.sparent() == Some(pid@)));
            assert forall|k: int|
                0 <= k < self@.len() implies (#[trigger] self@[k]).sparent() != Some(pid@) && old(
                self,
            )@.contains(self@[k]) by {
                assert(self@[k] == kept[k]);
            }
            assert forall|k: int|
                0 <= k < removed@.len() implies (#[trigger] removed@[k]).sparent() == Some(pid@)
                && old(self)@.contains(removed@[k]) by {
                assert(removed@[k] == gone[k]);
            }
            assert forall|j: int|
                0 <= j < old(self)@.len() implies if (#[trigger] old(self)@[j]).sparent() == Some(
                pid@,
            ) {
                removed@.contains(old(self)@[j])
            } else {
                self@.contains(old(self)@[j])
            } by {
                if old(self)@[j].sparent() == Some(pid@) {
                    assert(gone.contains(old(self)@[j]));
                } else {
                    assert(kept.contains(old(self)@[j]));
                }
            }
        }
        removed
    }

    /// Removes every record whose parent is among the ids of `parents`;
    /// the second leg of a cascade.
    pub fn prune_children_among<P: Record>(&mut self, parents: &Vec<P>)
        requires
            old(self).wf(),
        ensures
            final(self).wf(),
            final(self)@ == old(self)@.filter(
                (|x: R| !parent_among(x, parents@.map_values(|p: P| p.sid()))),
            ),
            forall|k: int|
                0 <= k < final(self)@.len() ==> !parent_among(
                    #[trigger] final(self)@[k],
                    parents@.map_values(|p: P| p.sid()),
                ) && old(self)@.contains(final(self)@[k]),
            forall|j: int|
                0 <= j < old(self)@.len() ==> (!parent_among(
                    #[trigger] old(self)@[j],
                    parents@.map_values(|p: P| p.sid()),
                ) ==> final(self)@.contains(old(self)@[j])),
    {
        let ghost idv = parents@.map_values(|p: P| p.sid());
        let n = self.rows.len();
        let mut out: Vec<R> = Vec::new();
        proof {
            reveal(Seq::filter);
            assert(out@ =~= self@.subrange(0, 0).filter((|x: R| !parent_among(x, idv))));
        }
        let mut i: usize = 0;
        while i < n
            invariant
                i <= n,
                self@ == old(self)@,
                n == self@.len(),
                idv == parents@.map_values(|p: P| p.sid()),
                out@ == self@.subrange(0, i as int).filter((|x: R| !parent_among(x, idv))),
            decreases n - i,
        {
            let ghost prefix = self@.subrange(0, i as int);
            let ghost prefix2 = self@.subrange(0, i + 1 as int);
            let row = &self.rows[i];
            let matches_parent = match row.parent() {
                Some(p) => contains_id(parents, p),
                None => false,
            };
            if !matches_parent {
                out.push(row.dup());
            }
            proof {
                reveal(Seq::filter);
                assert(prefix2 =~= prefix.push(self@[i as int]));
                assert(prefix2.drop_last() =~= prefix);
                assert(out@ =~= prefix2.filter((|x: R| !parent_among(x, idv))));
            }
            i = i + 1;
        }
        proof {
            assert(self@.subrange(0, n as int) =~= self@);
            lemma_wf_filter(old(self)@, (|x: R| !parent_among(x, idv)));
        }
        self.rows = out;
        proof {
            broadcast use vstd::seq_lib::group_filter_ensures;

            lemma_filter_sub(old(self)@, (|x: R| !parent_among(x, idv)));
            let kept = old(self)@.filter((|x: R| !parent_among(x, idv)));
            assert forall|k: int|
                0 <= k < self@.len() implies !parent_among(#[trigger] self@[k], idv) && old(
                self,
            )@.contains(self@[k]) by {
                assert(self@[k] == kept[k]);
            }
            assert forall|j: int|
                0 <= j < old(self)@.len() implies (!parent_among(#[trigger] old(self)@[j], idv)
                ==> self@.contains(old(self)@[j])) by {
                if !parent_among(old(self)@[j], idv) {
                    assert(kept.contains(old(self)@[j]));
                }
            }
        }
    }

    /// Upsert with the storage engine's replace semantics: every record
    /// colliding with `r` on the id or on the uniqueness key leaves the
    /// relation, then `r` is inserted as given.  Fails with
    /// `ValidationError`, changing nothing, if `r` violates the entity
    /// kind's own constraints.
    pub fn replace_insert(&mut self, r: R) -> (res: Result<(), DbError>)
        requires
            old(self).wf(),
        ensures
            final(self).wf(),
            match res {
                Ok(()) => r.svalid() && final(self)@ == spec_replace_insert(old(self)@, r),
                Err(e) => e == DbError::ValidationError && !r.svalid() && final(self)@ == old(
                    self,
                )@,
            },
    {
        if !r.validate() {
            return Err(DbError::ValidationError);
        }
        let n = self.rows.len();
        let mut out: Vec<R> = Vec::new();
        proof {
            reveal(Seq::filter);
            assert(out@ =~= self@.subrange(0, 0).filter((|x: R| !row_conflict(x, r))));
        }
        let mut i: usize = 0;
        while i < n
            invariant
                i <= n,
                self@ == old(self)@,
                n == self@.len(),
                out@ == self@.subrange(0, i as int).filter((|x: R| !row_conflict(x, r))),
            decreases n - i,
        {
            let ghost prefix = self@.subrange(0, i as int);
            let ghost prefix2 = self@.subrange(0, i + 1 as int);
            let row = &self.rows[i];
            let id_clash = *row.id() == *r.id();
            let uniq_clash = match (row.uniq(), r.uniq()) {
                (Some(a), Some(b)) => *a.0 == *b.0 && *a.1 == *b.1,
                _ => false,
            };
            if !(id_clash || uniq_clash) {
                out.push(row.dup());
            }
            proof {
                reveal(Seq::filter);
                assert(prefix2 =~= prefix.push(self@[i as int]));
                assert(prefix2.drop_last() =~= prefix);
                assert(out@ =~= prefix2.filter((|x: R| !row_conflict(x, r))));
            }
            i = i + 1;
        }
        proof {
            assert(self@.subrange(0, n as int) =~= self@);
            lemma_wf_filter(old(self)@, (|x: R| !row_conflict(x, r)));
            let kept = old(self)@.filter((|x: R| !row_conflict(x, r)));
            lemma_filter_sub(old(self)@, (|x: R| !row_conflict(x, r)));
            broadcast use vstd::seq_lib::group_filter_ensures;

            assert forall|i2: int, j2: int|
                0 <= i2 < j2 < kept.push(r).len() implies !#[trigger] row_conflict(
                kept.push(r)[i2],
                kept.push(r)[j2],
            ) by {
                if j2 < kept.len() {
                    assert(kept.push(r)[i2] == kept[i2]);
                    assert(kept.push(r)[j2] == kept[j2]);
                    assert(rows_wf(kept));
                } else {
                    assert(kept.push(r)[i2] == kept[i2]);
                    assert(kept.push(r)[j2] == r);
                    assert(!row_conflict(kept[i2], r));
                }
            }
        }
        self.rows = out;
        self.rows.push(r);
        Ok(())
    }

    /// All records whose status is `st`, in storage order.  With
    /// `Pending` this is the outbound queue for a remote-sync process;
    /// with `Deleted` it lists tombstones for outbound delete
    /// propagation.
    pub fn list_with_status(&self, st: SyncStatus) -> (r: Vec<R>)
        ensures
            r@ == self@.filter((|x: R| x.smeta().sync_status == st)),
    {
        let n = self.rows.len();
        let mut out: Vec<R> = Vec::new();
        proof {
            reveal(Seq::filter);
            assert(out@ =~= self@.subrange(0, 0).filter((|x: R| x.smeta().sync_status == st)));
        }
        let mut i: usize = 0;
        while i < n
            invariant
                i <= n,
                n == self@.len(),
                out@ == self@.subrange(0, i as int).filter((|x: R| x.smeta().sync_status == st)),
            decreases n - i,
        {
            let ghost prefix = self@.subrange(0, i as int);
            let ghost prefix2 = self@.subrange(0, i + 1 as int);
            let row = &self.rows[i];
            if row.meta().sync_status == st {
                out.push(row.dup());
            }
            proof {
                reveal(Seq::filter);
                assert(prefix2 =~= prefix.push(self@[i as int]));
                assert(prefix2.drop_last() =~= prefix);
                assert(out@ =~= prefix2.filter((|x: R| x.smeta().sync_status == st)));
            }
            i = i + 1;
        }
        proof {
            assert(self@.subrange(0, n as int) =~= self@);
        }
        out
    }

    /// All non-tombstoned records listed under `owner`, most recently
    /// touched first; ties are broken by id ascending, byte-wise, so the
    /// order is deterministic.
    pub fn list_by_owner(&self, owner: &String) -> (r: Vec<R>)
        ensures
            r@.to_multiset() == self@.filter((|x: R| row_listed(x, owner@))).to_multiset(),
            recency_ordered(r@),
    {
        let n = self.rows.len();
        let mut out: Vec<R> = Vec::new();
        proof {
            reveal(Seq::filter);
            assert(out@ =~= self@.subrange(0, 0).filter((|x: R| row_listed(x, owner@))));
        }
        let mut i: usize = 0;
        while i < n
            invariant
                i <= n,
                n == self@.len(),
                recency_ordered(out@),
                out@.to_multiset() == self@.subrange(0, i as int).filter(
                    (|x: R| row_listed(x, owner@)),
                ).to_multiset(),
            decreases n - i,
        {
            broadcast use vstd::seq_lib::group_to_multiset_ensures;

            let ghost prefix = self@.subrange(0, i as int);
            let ghost prefix2 = self@.subrange(0, i + 1 as int);
            let row = &self.rows[i];
            let listed = *row.owner() == *owner && match row.meta().sync_status {
                SyncStatus::Deleted => false,
                _ => true,
            };
            if listed {
                insert_by_recency(&mut out, row.dup());
            }
            proof {
                reveal(Seq::filter);
                assert(prefix2 =~= prefix.push(self@[i as int]));
                assert(prefix2.drop_last() =~= prefix);
                if row_listed(self@[i as int], owner@) {
                    assert(prefix2.filter((|x: R| row_listed(x, owner@))) == prefix.filter(
                        (|x: R| row_listed(x, owner@)),
                    ).push(self@[i as int]));
                } else {
                    assert(prefix2.filter((|x: R| row_listed(x, owner@))) == prefix.filter(
                        (|x: R| row_listed(x, owner@)),
                    ));
                }
                assert(out@.to_multiset() == prefix2.filter(
                    (|x: R| row_listed(x, owner@)),
                ).to_multiset());
            }
            i = i + 1;
        }
        proof {
            assert(self@.subrange(0, n as int) =~= self@);
        }
        out
    }

    /// All non-tombstoned children of `pid`, most recently touched first;
    /// ties are broken by id ascending, byte-wise, so the order is
    /// deterministic.
    pub fn list_by_parent(&self, pid: &String) -> (r: Vec<R>)
        ensures
            r@.to_multiset() == self@.filter((|x: R| row_child(x, pid@))).to_multiset(),
            recency_ordered(r@),
    {
        let n = self.rows.len();
        let mut out: Vec<R> = Vec::new();
        proof {
            reveal(Seq::filter);
            assert(out@ =~= self@.subrange(0, 0).filter((|x: R| row_child(x, pid@))));
        }
        let mut i: usize = 0;
        while i < n
            invariant
                i <= n,
                n == self@.len(),
                recency_ordered(out@),
                out@.to_multiset() == self@.subrange(0, i as int).filter(
                    (|x: R| row_child(x, pid@)),
                ).to_multiset(),
            decreases n - i,
        {
            broadcast use vstd::seq_lib::group_to_multiset_ensures;

            let ghost prefix = self@.subrange(0, i as int);
            let ghost prefix2 = self@.subrange(0, i + 1 as int);
            let row = &self.rows[i];
            let listed = match row.parent() {
                Some(p) => *p == *pid,
                None => false,
            } && match row.meta().sync_status {
                SyncStatus::Deleted => false,
                _ => true,
            };
            if listed {
                insert_by_recency(&mut out, row.dup());
            }
            proof {
                reveal(Seq::filter);
                assert(prefix2 =~= prefix.push(self@[i as int]));
                assert(prefix2.drop_last() =~= prefix);
                if row_child(self@[i as int], pid@) {
                    assert(prefix2.filter((|x: R| row_child(x, pid@))) == prefix.filter(
                        (|x: R| row_child(x, pid@)),
                    ).push(self@[i as int]));
                } else {
                    assert(prefix2.filter((|x: R| row_child(x, pid@))) == prefix.filter(
                        (|x: R| row_child(x, pid@)),
                    ));
                }
                assert(out@.to_multiset() == prefix2.filter(
                    (|x: R| row_child(x, pid@)),
                ).to_multiset());
            }
            i = i + 1;
        }
        proof {
            assert(self@.subrange(0, n as int) =~= self@);
        }
        out
    }

    /// Does some stored record collide with `r` on the id or on the
    /// uniqueness key?
    fn conflicts(&self, r: &R) -> (b: bool)
        ensures
            b == conflicts_with(self@, *r),
    {
        let n = self.rows.len();
        let mut i: usize = 0;
        while i < n
            invariant
                i <= n,
                n == self@.len(),
                forall|k: int| 0 <= k < i ==> !#[trigger] row_conflict(self@[k], *r),
            decreases n - i,
        {
            let row = &self.rows[i];
            if *row.id() == *r.id() {
                assert(row_conflict(self@[i as int], *r));
                return true;
            }
            let clash = match (row.uniq(), r.uniq()) {
                (Some(a), Some(b)) => *a.0 == *b.0 && *a.1 == *b.1,
                _ => false,
            };
            if clash {
                assert(row_conflict(self@[i as int], *r));
                return true;
            }
            i = i + 1;
        }
        false
    }
}

/// The ids of the records whose parent is `pid`, in storage order.
pub open spec fn spec_child_ids<R: Record>(rows: Seq<R>, pid: Seq<char>) -> Seq<Seq<char>> {
    rows.filter(|x: R| x.sparent() == Some(pid)).map_values(|x: R| x.sid())
}

/// Does the record's parent appear among `ids`?
pub open spec fn parent_among<R: Record>(x: R, ids: Seq<Seq<char>>) -> bool {
    x.sparent() is Some && ids.contains(x.sparent().unwrap())
}

/// Appending a record extends id membership by exactly that record's id.
pub proof fn lemma_has_id_push<R: Record>(rows: Seq<R>, r: R, id: Seq<char>)
    ensures
        has_id(rows.push(r), id) == (has_id(rows, id) || r.sid() == id),
{
    if has_id(rows, id) {
        let i = choose|i: int| 0 <= i < rows.len() && #[trigger] rows[i].sid() == id;
        assert(rows.push(r)[i].sid() == id);
    }
    if r.sid() == id {
        assert(rows.push(r)[rows.len() as int].sid() == id);
    }
    if has_id(rows.push(r), id) && !has_id(rows, id) {
        let i = choose|i: int| 0 <= i < rows.push(r).len() && #[trigger] rows.push(r)[i].sid()
            == id;
        if i < rows.len() {
            assert(rows[i].sid() == id);
        }
    }
}

/// A tombstoning pass preserves the relation's integrity constraints.
pub proof fn lemma_wf_soft_delete<R: Record>(rows: Seq<R>, id: Seq<char>, now: u64)
    requires
        rows_wf(rows),
    ensures
        rows_wf(spec_soft_delete(rows, id, now)),
{
    let b = spec_soft_delete(rows, id, now);
    assert forall|i: int|
        0 <= i < rows.len() implies (#[trigger] b[i]).sid() == rows[i].sid() && b[i].suniq()
        == rows[i].suniq() by {
        if rows[i].sid() == id {
            rows[i].lemma_with_meta(rows[i].smeta().tombstoned(now));
        }
    }
    assert forall|i: int, j: int| 0 <= i < j < b.len() implies !#[trigger] row_conflict(
        b[i],
        b[j],
    ) by {
        assert(!row_conflict(rows[i], rows[j]));
    }
}

/// An acknowledgement pass preserves the relation's integrity
/// constraints.
pub proof fn lemma_wf_mark_synced<R: Record>(
    rows: Seq<R>,
    id: Seq<char>,
    server_updated_at: u64,
    now: u64,
)
    requires
        rows_wf(rows),
    ensures
        rows_wf(spec_mark_synced(rows, id, server_updated_at, now)),
{
    let b = spec_mark_synced(rows, id, server_updated_at, now);
    assert forall|i: int|
        0 <= i < rows.len() implies (#[trigger] b[i]).sid() == rows[i].sid() && b[i].suniq()
        == rows[i].suniq() by {
        if rows[i].sid() == id {
            rows[i].lemma_with_meta(rows[i].smeta().acknowledged(server_updated_at, now));
        }
    }
    assert forall|i: int, j: int| 0 <= i < j < b.len() implies !#[trigger] row_conflict(
        b[i],
        b[j],
    ) by {
        assert(!row_conflict(rows[i], rows[j]));
    }
}

/// An update pass preserves the relation's integrity constraints: a patch
/// can change neither the id nor the uniqueness key.
pub proof fn lemma_wf_update_rows<R: Record, U: Patch<R>>(
    rows: Seq<R>,
    id: Seq<char>,
    u: U,
    now: u64,
)
    requires
        rows_wf(rows),
    ensures
        rows_wf(spec_update_rows(rows, id, u, now)),
{
    let b = spec_update_rows(rows, id, u, now);
    assert forall|i: int|
        0 <= i < rows.len() implies (#[trigger] b[i]).sid() == rows[i].sid() && b[i].suniq()
        == rows[i].suniq() by {
        if rows[i].sid() == id {
            u.lemma_apply_keys(rows[i]);
            u.sapply(rows[i]).lemma_with_meta(rows[i].smeta().edited(now));
        }
    }
    assert forall|i: int, j: int| 0 <= i < j < b.len() implies !#[trigger] row_conflict(
        b[i],
        b[j],
    ) by {
        assert(!row_conflict(rows[i], rows[j]));
    }
}

/// Does `s` appear among the ids of `v`?
pub fn contains_id<P: Record>(v: &Vec<P>, s: &String) -> (b: bool)
    ensures
        b == v@.map_values(|p: P| p.sid()).contains(s@),
{
    let n = v.len();
    let mut i: usize = 0;
    while i < n
        invariant
            i <= n,
            n == v@.len(),
            forall|k: int| 0 <= k < i ==> #[trigger] v@[k].sid() != s@,
        decreases n - i,
    {
        if *v[i].id() == *s {
            proof {
                assert(v@.map_values(|p: P| p.sid())[i as int] == s@);
            }
            return true;
        }
        i = i + 1;
    }
    proof {
        let m = v@.map_values(|p: P| p.sid());
        if m.contains(s@) {
            let j = choose|j: int| 0 <= j < m.len() && m[j] == s@;
            assert(v@[j].sid() == s@);
        }
    }
    false
}

/// A tombstoning pass keeps every record's id, hence id membership.
pub proof fn lemma_soft_delete_ids<R: Record>(rows: Seq<R>, id: Seq<char>, now: u64)
    ensures
        spec_soft_delete(rows, id, now).len() == rows.len(),
        forall|k: int|
            0 <= k < rows.len() ==> (#[trigger] spec_soft_delete(rows, id, now)[k]).sid()
                == rows[k].sid(),
        forall|p: Seq<char>| #[trigger] has_id(spec_soft_delete(rows, id, now), p) == has_id(
            rows,
            p,
        ),
{
    let b = spec_soft_delete(rows, id, now);
    assert forall|k: int| 0 <= k < rows.len() implies (#[trigger] b[k]).sid()
        == rows[k].sid() by {
        if rows[k].sid() == id {
            rows[k].lemma_with_meta(rows[k].smeta().tombstoned(now));
        }
    }
    lemma_same_ids_has_id(rows, b);
}

/// An acknowledgement pass keeps every record's id, hence id membership.
pub proof fn lemma_mark_synced_ids<R: Record>(
    rows: Seq<R>,
    id: Seq<char>,
    server_updated_at: u64,
    now: u64,
)
    ensures
        spec_mark_synced(rows, id, server_updated_at, now).len() == rows.len(),
        forall|k: int|
            0 <= k < rows.len() ==> (#[trigger] spec_mark_synced(
                rows,
                id,
                server_updated_at,
                now,
            )[k]).sid() == rows[k].sid(),
        forall|p: Seq<char>| #[trigger] has_id(spec_mark_synced(rows, id, server_updated_at, now), p)
            == has_id(rows, p),
{
    let b = spec_mark_synced(rows, id, server_updated_at, now);
    assert forall|k: int| 0 <= k < rows.len() implies (#[trigger] b[k]).sid()
        == rows[k].sid() by {
        if rows[k].sid() == id {
            rows[k].lemma_with_meta(rows[k].smeta().acknowledged(server_updated_at, now));
        }
    }
    lemma_same_ids_has_id(rows, b);
}

/// An update pass keeps every record's id, hence id membership.
pub proof fn lemma_update_rows_ids<R: Record, U: Patch<R>>(
    rows: Seq<R>,
    id: Seq<char>,
    u: U,
    now: u64,
)
    ensures
        spec_update_rows(rows, id, u, now).len() == rows.len(),
        forall|k: int|
            0 <= k < rows.len() ==> (#[trigger] spec_update_rows(rows, id, u, now)[k]).sid()
                == rows[k].sid(),
        forall|p: Seq<char>| #[trigger] has_id(spec_update_rows(rows, id, u, now), p) == has_id(
            rows,
            p,
        ),
{
    let b = spec_update_rows(rows, id, u, now);
    assert forall|k: int| 0 <= k < rows.len() implies (#[trigger] b[k]).sid()
        == rows[k].sid() by {
        if rows[k].sid() == id {
            u.lemma_apply_keys(rows[k]);
            u.sapply(rows[k]).lemma_with_meta(rows[k].smeta().edited(now));
        }
    }
    lemma_same_ids_has_id(rows, b);
}

/// Two relations whose records carry the same ids index for index have
/// the same id membership.
pub proof fn lemma_same_ids_has_id<R: Record>(a: Seq<R>, b: Seq<R>)
    requires
        a.len() == b.len(),
        forall|k: int| 0 <= k < a.len() ==> (#[trigger] b[k]).sid() == a[k].sid(),
    ensures
        forall|p: Seq<char>| #[trigger] has_id(b, p) == has_id(a, p),
{
    assert forall|p: Seq<char>| #[trigger] has_id(b, p) == has_id(a, p) by {
        if has_id(b, p) {
            let i = choose|i: int| 0 <= i < b.len() && #[trigger] b[i].sid() == p;
            assert(a[i].sid() == p);
        }
        if has_id(a, p) {
            let i = choose|i: int| 0 <= i < a.len() && #[trigger] a[i].sid() == p;
            assert(b[i].sid() == p);
        }
    }
}

/// Physical deletion removes exactly the given id from membership.
pub proof fn lemma_hard_delete_has_id<R: Record>(rows: Seq<R>, id: Seq<char>)
    ensures
        forall|p: Seq<char>| #[trigger] has_id(spec_hard_delete(rows, id), p) == (has_id(rows, p)
            && p != id),
    decreases rows.len(),
{
    reveal(Seq::filter);
    let f = spec_hard_delete(rows, id);
    if rows.len() == 0 {
        assert forall|p: Seq<char>| #[trigger] has_id(f, p) == (has_id(rows, p) && p != id) by {
            assert(f.len() == 0);
        }
    } else {
        let dl = rows.drop_last();
        lemma_hard_delete_has_id(dl, id);
        let fd = spec_hard_delete(dl, id);
        assert(rows =~= dl.push(rows.last()));
        assert forall|p: Seq<char>| #[trigger] has_id(f, p) == (has_id(rows, p) && p != id) by {
            lemma_has_id_push(dl, rows.last(), p);
            if rows.last().sid() != id {
                assert(f == fd.push(rows.last()));
                lemma_has_id_push(fd, rows.last(), p);
            } else {
                assert(f == fd);
            }
        }
    }
}

// ---------------------------------------------------------------------------
// Listing order
// ---------------------------------------------------------------------------

/// `a` sorts at or before `b` in a listing: more recently touched first,
/// ties broken by id ascending, byte-wise.
pub open spec fn recency_le<R: Record>(a: R, b: R) -> bool {
    a.smeta().local_updated_at > b.smeta().local_updated_at || (a.smeta().local_updated_at
        == b.smeta().local_updated_at && bytes_le(
        encode_utf8(a.sid()),
        encode_utf8(b.sid()),
    ))
}

/// Every pair of the sequence stands in listing order.
pub open spec fn recency_ordered<R: Record>(s: Seq<R>) -> bool {
    forall|i: int, j: int| 0 <= i < j < s.len() ==> #[trigger] recency_le(s[i], s[j])
}

/// The listing order relates every pair of records one way or the other.
pub proof fn lemma_recency_total<R: Record>(a: R, b: R)
    ensures
        recency_le(a, b) || recency_le(b, a),
{
    if a.smeta().local_updated_at == b.smeta().local_updated_at {
        lemma_bytes_le_total(encode_utf8(a.sid()), encode_utf8(b.sid()));
    }
}

/// The listing order is transitive.
pub proof fn lemma_recency_trans<R: Record>(a: R, b: R, c: R)
    requires
        recency_le(a, b),
        recency_le(b, c),
    ensures
        recency_le(a, c),
{
    if a.smeta().local_updated_at == b.smeta().local_updated_at && b.smeta().local_updated_at
        == c.smeta().local_updated_at {
        lemma_bytes_le_trans(encode_utf8(a.sid()), encode_utf8(b.sid()), encode_utf8(c.sid()));
    }
}

/// Two records each at or before the other in listing order carry the
/// same id.
pub proof fn lemma_recency_antisym<R: Record>(a: R, b: R)
    requires
        recency_le(a, b),
        recency_le(b, a),
    ensures
        a.sid() == b.sid(),
{
    broadcast use vstd::utf8::encode_utf8_decode_utf8;

    lemma_bytes_le_antisym(encode_utf8(a.sid()), encode_utf8(b.sid()));
    assert(vstd::utf8::decode_utf8(encode_utf8(a.sid())) == vstd::utf8::decode_utf8(
        encode_utf8(b.sid()),
    ));
}

/// Compares two records in listing order.
fn recency_le_exec<R: Record>(a: &R, b: &R) -> (r: bool)
    ensures
        r == recency_le(*a, *b),
{
    let ma = a.meta();
    let mb = b.meta();
    if ma.local_updated_at > mb.local_updated_at {
        true
    } else if ma.local_updated_at < mb.local_updated_at {
        false
    } else {
        bytes_le_exec(a.id().as_str().as_bytes(), b.id().as_str().as_bytes())
    }
}

/// The first position of `v` whose record does not sort at or before `x`.
fn lower_bound_recency<R: Record>(v: &Vec<R>, x: &R) -> (i: usize)
    ensures
        i <= v@.len(),
        forall|k: int| 0 <= k < i ==> #[trigger] recency_le(v@[k], *x),
        i < v@.len() ==> !recency_le(v@[i as int], *x),
{
    let n = v.len();
    let mut i: usize = 0;
    while i < n
        invariant
            i <= n,
            n == v@.len(),
            forall|k: int| 0 <= k < i ==> #[trigger] recency_le(v@[k], *x),
        decreases n - i,
    {
        if !recency_le_exec(&v[i], x) {
            return i;
        }
        i = i + 1;
    }
    i
}

/// Inserts `x` into a listing-ordered vector, keeping it ordered.
fn insert_by_recency<R: Record>(out: &mut Vec<R>, x: R)
    requires
        recency_ordered(old(out)@),
    ensures
        recency_ordered(final(out)@),
        final(out)@.to_multiset() == old(out)@.to_multiset().insert(x),
{
    broadcast use vstd::seq_lib::group_to_multiset_ensures;

    let ghost s0 = out@;
    let i = lower_bound_recency(out, &x);
    out.insert(i, x);
    proof {
        s0.insert_ensures(i as int, x);
        let s1 = s0.insert(i as int, x);
        assert forall|p: int, q: int| 0 <= p < q < s1.len() implies #[trigger] recency_le(
            s1[p],
            s1[q],
        ) by {
            if q < i as int {
                assert(s1[p] == s0[p] && s1[q] == s0[q]);
            } else if q == i as int {
                assert(s1[p] == s0[p] && s1[q] == x);
            } else {
                assert(s1[q] == s0[q - 1]);
                if p < i as int {
                    assert(s1[p] == s0[p]);
                    if (i as int) <= q - 1 && (i as int) < s0.len() {
                        lemma_recency_total(s0[i as int], x);
                        assert(recency_le(x, s0[i as int]));
                        if (i as int) < q - 1 {
                            assert(recency_le(s0[i as int], s0[q - 1]));
                        }
                        if p < i as int {
                            assert(recency_le(s0[p], s0[q - 1]) || i as int == q - 1);
                        }
                        assert(recency_le(s1[p], s1[q]));
                    }
                } else if p == i as int {
                    assert(s1[p] == x);
                    lemma_recency_total(s0[i as int], x);
                    assert(recency_le(x, s0[i as int]));
                    if (i as int) < q - 1 {
                        assert(recency_le(s0[i as int], s0[q - 1]));
                        lemma_recency_trans(x, s0[i as int], s0[q - 1]);
                    }
                } else {
                    assert(s1[p] == s0[p - 1]);
                    assert(recency_le(s0[p - 1], s0[q - 1]));
                }
            }
        }
    }
}

/// Companion of [`Table::get_owned`]: first match by listing key.
pub proof fn lemma_find_owned_at<R: Record>(rows: Seq<R>, owner: Seq<char>, i: int)
    requires
        0 <= i < rows.len(),
        forall|k: int| 0 <= k < i ==> #[trigger] rows[k].sowner() != owner,
        rows[i].sowner() == owner,
    ensures
        spec_find_owned(rows, owner) == Some(rows[i]),
    decreases i,
{
    if i > 0 {
        assert(rows[0].sowner() != owner);
        lemma_find_owned_at(rows.drop_first(), owner, i - 1);
    }
}

/// Companion of [`Table::get_owned`]: no match by listing key.
pub proof fn lemma_find_owned_none<R: Record>(rows: Seq<R>, owner: Seq<char>)
    requires
        forall|k: int| 0 <= k < rows.len() ==> #[trigger] rows[k].sowner() != owner,
    ensures
        spec_find_owned(rows, owner) is None,
    decreases rows.len(),
{
    if rows.len() > 0 {
        lemma_find_owned_none(rows.drop_first(), owner);
    }
}

} // verus!
