//! The store's laws: properties of the sync-state machine and of the
//! migration runner that hold for every record and every relation, proved
//! from the operations' contracts.

use vstd::prelude::*;

use crate::migrate::{lemma_ensure_tables_complete, spec_migrate, spec_required_tables};
use crate::notes::{LocalNote, NoteUpdate};
use crate::schema::DB_VERSION;
use crate::record::{Patch, Record};
use crate::sync::{SyncMeta, SyncStatus};
use crate::table::{
    conflicts_with, has_id, lemma_filter_sub, lemma_find_after_push, lemma_find_some,
    lemma_mark_synced_ids, lemma_recency_antisym, lemma_soft_delete_ids, recency_le,
    recency_ordered, row_conflict, row_listed, rows_wf, spec_find, spec_listed, spec_mark_synced,
    spec_patched, spec_prune_children, spec_soft_delete, spec_with_status,
};

verus! {

/// A record just created is found under its id, exactly as it was given:
/// creation appends the record, and a successful creation guarantees the
/// id was free.
pub proof fn law_create_then_get<R: Record>(rows: Seq<R>, r: R)
    requires
        !conflicts_with(rows, r),
    ensures
        spec_find(rows.push(r), r.sid()) == Some(r),
{
    if has_id(rows, r.sid()) {
        let i = choose|i: int| 0 <= i < rows.len() && #[trigger] rows[i].sid() == r.sid();
        assert(row_conflict(rows[i], r));
    }
    lemma_find_after_push(rows, r);
}

/// After a soft delete, the record is still found under its id and is a
/// tombstone: it leaves every owner listing, but appears in the
/// deleted-records listing.
pub proof fn law_soft_delete_listing<R: Record>(
    rows: Seq<R>,
    id: Seq<char>,
    now: u64,
    owner: Seq<char>,
)
    requires
        has_id(rows, id),
    ensures
        ({
            let after = spec_soft_delete(rows, id, now);
            &&& spec_find(after, id) is Some
            &&& spec_find(after, id).unwrap().smeta().sync_status == SyncStatus::Deleted
            &&& forall|k: int|
                0 <= k < spec_listed(after, owner).len() ==> (#[trigger] spec_listed(
                    after,
                    owner,
                )[k]).sid() != id
            &&& spec_with_status(after, SyncStatus::Deleted).contains(
                spec_find(after, id).unwrap(),
            )
        }),
{
    broadcast use vstd::seq_lib::group_filter_ensures;

    let after = spec_soft_delete(rows, id, now);
    lemma_soft_delete_ids(rows, id, now);
    lemma_find_some(after, id);
    let x = spec_find(after, id).unwrap();
    let k = choose|k: int| 0 <= k < after.len() && after[k] == x;
    assert(rows[k].sid() == id);
    rows[k].lemma_with_meta(rows[k].smeta().tombstoned(now));
    assert(x.smeta().sync_status == SyncStatus::Deleted);
    lemma_filter_sub(after, (|x: R| row_listed(x, owner)));
    let listed = after.filter((|x: R| row_listed(x, owner)));
    assert forall|j: int| 0 <= j < spec_listed(after, owner).len() implies (#[trigger] spec_listed(
        after,
        owner,
    )[j]).sid() != id by {
        let lj = listed[j];
        assert(row_listed(lj, owner));
        let m = choose|m: int| 0 <= m < after.len() && after[m] == lj;
        if rows[m].sid() == id {
            rows[m].lemma_with_meta(rows[m].smeta().tombstoned(now));
            assert(after[m].smeta().sync_status == SyncStatus::Deleted);
        } else {
            assert(after[m] == rows[m]);
        }
    }
    assert(after.filter((|x: R| x.smeta().sync_status == SyncStatus::Deleted)).contains(
        after[k],
    ));
    assert(spec_with_status(after, SyncStatus::Deleted).contains(spec_find(after, id).unwrap()));
}

/// A partial update returns the record to `Pending`, never moves its
/// local-update stamp backwards, and touches neither its identity nor the
/// rest of its sync bookkeeping; every field the patch leaves out is
/// untouched because the patched record is the patch's application.
pub proof fn law_update_meta<R: Record, U: Patch<R>>(cur: R, u: U, now: u64)
    ensures
        spec_patched(cur, u, now).smeta().sync_status == SyncStatus::Pending,
        spec_patched(cur, u, now).smeta().local_updated_at >= cur.smeta().local_updated_at,
        spec_patched(cur, u, now).smeta().local_updated_at >= now,
        spec_patched(cur, u, now).smeta().synced_at == cur.smeta().synced_at,
        spec_patched(cur, u, now).smeta().server_updated_at == cur.smeta().server_updated_at,
        spec_patched(cur, u, now).sid() == cur.sid(),
        spec_patched(cur, u, now).suniq() == cur.suniq(),
{
    u.lemma_apply_keys(cur);
    u.sapply(cur).lemma_with_meta(cur.smeta().edited(now));
}

/// Applied to a note, a partial update replaces exactly the fields the
/// patch names: identity and timestamps of record keeping are untouched,
/// and every field the patch leaves `None` keeps its stored value.
pub proof fn law_note_update_fields(n: LocalNote, u: NoteUpdate)
    ensures
        u.sapply(n).id == n.id,
        u.sapply(n).owner_id == n.owner_id,
        u.sapply(n).slug == n.slug,
        u.sapply(n).created_at == n.created_at,
        u.sapply(n).updated_at == n.updated_at,
        u.title is None ==> u.sapply(n).title == n.title,
        u.title is Some ==> u.sapply(n).title == u.title.unwrap(),
        u.description is None ==> u.sapply(n).description == n.description,
        u.description is Some ==> u.sapply(n).description == u.description,
        u.visibility is None ==> u.sapply(n).visibility == n.visibility,
        u.visibility is Some ==> u.sapply(n).visibility == u.visibility.unwrap(),
        u.is_trashed is None ==> u.sapply(n).is_trashed == n.is_trashed,
        u.is_trashed is Some ==> u.sapply(n).is_trashed == u.is_trashed.unwrap(),
        u.trashed_at is None ==> u.sapply(n).trashed_at == n.trashed_at,
        u.trashed_at is Some ==> u.sapply(n).trashed_at == u.trashed_at,
{
}

/// Sync acknowledgement is idempotent: after acknowledging with the
/// server time `t`, the record's status is `Synced` and its recorded
/// server time is `t`; acknowledging again with the same `t` reports the
/// same, and at the same local time leaves the whole relation identical.
pub proof fn law_mark_synced_idempotent<R: Record>(
    rows: Seq<R>,
    id: Seq<char>,
    t: u64,
    now1: u64,
    now2: u64,
)
    requires
        has_id(rows, id),
    ensures
        ({
            let once = spec_mark_synced(rows, id, t, now1);
            let twice = spec_mark_synced(once, id, t, now2);
            &&& spec_find(once, id) is Some
            &&& spec_find(once, id).unwrap().smeta().sync_status == SyncStatus::Synced
            &&& spec_find(once, id).unwrap().smeta().server_updated_at == Some(t)
            &&& spec_find(twice, id) is Some
            &&& spec_find(twice, id).unwrap().smeta().sync_status == SyncStatus::Synced
            &&& spec_find(twice, id).unwrap().smeta().server_updated_at == Some(t)
            &&& now2 == now1 ==> twice == once
        }),
{
    let once = spec_mark_synced(rows, id, t, now1);
    let twice = spec_mark_synced(once, id, t, now2);
    lemma_mark_synced_ids(rows, id, t, now1);
    lemma_mark_synced_ids(once, id, t, now2);
    lemma_find_some(once, id);
    let x = spec_find(once, id).unwrap();
    let k = choose|k: int| 0 <= k < once.len() && once[k] == x;
    assert(rows[k].sid() == id);
    rows[k].lemma_with_meta(rows[k].smeta().acknowledged(t, now1));
    assert(x.smeta().sync_status == SyncStatus::Synced);
    assert(x.smeta().server_updated_at == Some(t));
    lemma_find_some(twice, id);
    let y = spec_find(twice, id).unwrap();
    let m = choose|m: int| 0 <= m < twice.len() && twice[m] == y;
    assert(once[m].sid() == id);
    once[m].lemma_with_meta(once[m].smeta().acknowledged(t, now2));
    assert(y.smeta().sync_status == SyncStatus::Synced);
    assert(y.smeta().server_updated_at == Some(t));
    if now2 == now1 {
        assert forall|i: int| 0 <= i < rows.len() implies twice[i] == once[i] by {
            if rows[i].sid() == id {
                rows[i].lemma_with_meta(rows[i].smeta().acknowledged(t, now1));
                assert(once[i] == rows[i].with_meta(rows[i].smeta().acknowledged(t, now1)));
                assert(once[i].smeta() == rows[i].smeta().acknowledged(t, now1));
                assert(once[i].smeta().acknowledged(t, now2) == rows[i].smeta().acknowledged(
                    t,
                    now1,
                ));
                assert(twice[i] == once[i].with_meta(once[i].smeta().acknowledged(t, now2)));
                assert(rows[i].with_meta(rows[i].smeta().acknowledged(t, now1)).with_meta(
                    rows[i].smeta().acknowledged(t, now1),
                ) == rows[i].with_meta(rows[i].smeta().acknowledged(t, now1)));
            } else {
                assert(once[i] == rows[i]);
            }
        }
        assert(twice =~= once);
    }
}

/// The migration runner is idempotent: a second run against the state the
/// first one produced changes nothing.
pub proof fn law_migrate_idempotent(version: u64, tables: Seq<Seq<char>>)
    ensures
        spec_migrate(spec_migrate(version, tables).0, spec_migrate(version, tables).1)
            == spec_migrate(version, tables),
{
}

/// Migrating a fresh, empty store produces a store at the target version
/// with every declared relation present.
pub proof fn law_migrate_fresh(tables: Seq<Seq<char>>)
    ensures
        spec_migrate(0, tables).0 == DB_VERSION,
        forall|i: int|
            0 <= i < spec_required_tables().len() ==> spec_migrate(0, tables).1.contains(
                #[trigger] spec_required_tables()[i],
            ),
{
    lemma_ensure_tables_complete(tables, spec_required_tables());
}

/// Listings are deterministic: a relation with pairwise-distinct ids has
/// exactly one sequence that both holds its listed records and stands in
/// listing order, so any two implementations of the listing agree.
pub proof fn law_listing_deterministic<R: Record>(a: Seq<R>, b: Seq<R>)
    requires
        a.to_multiset() == b.to_multiset(),
        recency_ordered(a),
        recency_ordered(b),
        rows_wf(a),
    ensures
        a == b,
    decreases a.len(),
{
    broadcast use vstd::seq_lib::group_to_multiset_ensures;

    if a.len() == 0 {
        assert(b.to_multiset().len() == 0);
        assert(a =~= b);
    } else {
        assert(a.to_multiset().count(a[0]) > 0);
        assert(b.contains(a[0]));
        let j = choose|j: int| 0 <= j < b.len() && b[j] == a[0];
        assert(b.to_multiset().count(b[0]) > 0);
        assert(a.contains(b[0]));
        let i = choose|i: int| 0 <= i < a.len() && a[i] == b[0];
        if i > 0 {
            assert(recency_le(a[0], a[i]));
        }
        if j > 0 {
            assert(recency_le(b[0], b[j]));
        }
        if a[0] != b[0] {
            lemma_recency_antisym(a[0], b[0]);
            assert(row_conflict(a[0], a[i]) || row_conflict(a[i], a[0]));
            assert(i != 0 ==> !row_conflict(a[if i > 0 {
                0int
            } else {
                i
            }], a[if i > 0 {
                i
            } else {
                0int
            }]));
            assert(false);
        }
        let ta = a.drop_first();
        let tb = b.drop_first();
        assert(ta.to_multiset() =~= a.to_multiset().remove(a[0])) by {
            assert(a.remove(0) =~= ta);
        }
        assert(tb.to_multiset() =~= b.to_multiset().remove(b[0])) by {
            assert(b.remove(0) =~= tb);
        }
        assert forall|p: int, q: int| 0 <= p < q < ta.len() implies #[trigger] recency_le(
            ta[p],
            ta[q],
        ) by {
            assert(recency_le(a[p + 1], a[q + 1]));
        }
        assert forall|p: int, q: int| 0 <= p < q < tb.len() implies #[trigger] recency_le(
            tb[p],
            tb[q],
        ) by {
            assert(recency_le(b[p + 1], b[q + 1]));
        }
        assert forall|p: int, q: int| 0 <= p < q < ta.len() implies !#[trigger] row_conflict(
            ta[p],
            ta[q],
        ) by {
            assert(!row_conflict(a[p + 1], a[q + 1]));
        }
        law_listing_deterministic(ta, tb);
        assert(a.len() == b.len());
        assert forall|k: int| 0 <= k < a.len() implies a[k] == b[k] by {
            if k > 0 {
                assert(a[k] == ta[k - 1]);
                assert(b[k] == tb[k - 1]);
            }
        }
        assert(a =~= b);
    }
}

/// A physical deletion of a parent leaves no dependent behind: after the
/// cascade prune, no stored record references the removed parent.
pub proof fn law_cascade_no_orphans<R: Record>(rows: Seq<R>, pid: Seq<char>)
    ensures
        forall|k: int|
            0 <= k < spec_prune_children(rows, pid).len() ==> (#[trigger] spec_prune_children(
                rows,
                pid,
            )[k]).sparent() != Some(pid),
{
    broadcast use vstd::seq_lib::group_filter_ensures;

    let kept = rows.filter((|x: R| x.sparent() != Some(pid)));
    assert forall|k: int| 0 <= k < spec_prune_children(rows, pid).len() implies (
    #[trigger] spec_prune_children(rows, pid)[k]).sparent() != Some(pid) by {
        assert(spec_prune_children(rows, pid)[k] == kept[k]);
    }
}

} // verus!
