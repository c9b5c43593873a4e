//! The abstract shape shared by all stored entity kinds.
//!
//! Every entity is identified by an opaque unique string id, owned by a
//! user/account identifier (directly or transitively through a parent
//! entity), and carries the four sync-tracking fields of [`SyncMeta`].
//! A generic repository over this trait collapses the per-entity CRUD
//! logic into one verified implementation.

use vstd::prelude::*;

use crate::sync::SyncMeta;

verus! {

/// One stored entity kind.
///
/// The spec functions expose, at the specification level, the parts of a
/// record that the generic repository logic reads: its id, its listing
/// (owner) key, its optional uniqueness key beyond the id, its optional
/// parent reference (for cascade deletes), its sync meta, and its validity
/// under the entity's own constraints.  `with_meta` describes a record
/// whose sync meta is replaced and whose every other field is unchanged;
/// `lemma_with_meta` obliges each implementation to prove that reading and
/// replacing meta behave as a plain field update.
pub trait Record: Sized {
    /// The record's unique id.
    spec fn sid(&self) -> Seq<char>;

    /// The key under which the record is listed (owner, or parent for
    /// kinds owned only transitively).
    spec fn sowner(&self) -> Seq<char>;

    /// An entity-specific uniqueness key beyond the id, if the kind has
    /// one (such as owner plus slug).
    spec fn suniq(&self) -> Option<(Seq<char>, Seq<char>)>;

    /// The id of the parent record whose physical deletion removes this
    /// record, if the kind has such a parent.
    spec fn sparent(&self) -> Option<Seq<char>>;

    /// The record's sync-tracking fields.
    spec fn smeta(&self) -> SyncMeta;

    /// Does the record satisfy the entity kind's own field constraints?
    spec fn svalid(&self) -> bool;

    /// The same record with its sync meta replaced and every other field
    /// unchanged.
    spec fn with_meta(&self, m: SyncMeta) -> Self;

    /// Reads the record's id.
    fn id(&self) -> (r: &String)
        ensures
            r@ == self.sid(),
    ;

    /// Reads the record's listing key.
    fn owner(&self) -> (r: &String)
        ensures
            r@ == self.sowner(),
    ;

    /// Reads the record's uniqueness key, if any.
    fn uniq(&self) -> (r: Option<(&String, &String)>)
        ensures
            match r {
                Some(p) => self.suniq() == Some((p.0@, p.1@)),
                None => self.suniq() is None,
            },
    ;

    /// Reads the record's parent reference, if any.
    fn parent(&self) -> (r: Option<&String>)
        ensures
            match r {
                Some(s) => self.sparent() == Some(s@),
                None => self.sparent() is None,
            },
    ;

    /// Reads the record's sync meta.
    fn meta(&self) -> (m: SyncMeta)
        ensures
            m == self.smeta(),
    ;

    /// Checks the entity kind's own field constraints.
    fn validate(&self) -> (b: bool)
        ensures
            b == self.svalid(),
    ;

    /// Replaces the record's sync meta, leaving every other field as is.
    fn set_meta(&mut self, m: SyncMeta)
        ensures
            *final(self) == old(self).with_meta(m),
    ;

    /// An exact copy of the record.
    fn dup(&self) -> (r: Self)
        ensures
            r == *self,
    ;

    /// Replacing the meta changes nothing but the meta, reading it back
    /// gives the replacement, and replacing it with its current value is
    /// the identity.
    proof fn lemma_with_meta(&self, m: SyncMeta)
        ensures
            self.with_meta(m).smeta() == m,
            self.with_meta(m).sid() == self.sid(),
            self.with_meta(m).sowner() == self.sowner(),
            self.with_meta(m).suniq() == self.suniq(),
            self.with_meta(m).sparent() == self.sparent(),
            self.with_meta(m).svalid() == self.svalid(),
            self.with_meta(self.smeta()) == *self,
            forall|m2: SyncMeta| #[trigger] self.with_meta(m).with_meta(m2) == self.with_meta(m2),
    ;
}

/// A partial update over one entity kind: the fields present in the patch
/// replace the record's, every field absent from the patch is left alone,
/// and neither the record's identity nor its sync meta is touched (the
/// repository handles meta itself).
pub trait Patch<R: Record>: Sized {
    /// The record with the patch's present fields applied.
    spec fn sapply(&self, r: R) -> R;

    /// Applies the patch to a record.
    fn apply(&self, r: R) -> (out: R)
        ensures
            out == self.sapply(r),
    ;

    /// Applying a patch preserves the record's id, its uniqueness key and
    /// its sync meta.
    proof fn lemma_apply_keys(&self, r: R)
        ensures
            self.sapply(r).sid() == r.sid(),
            self.sapply(r).suniq() == r.suniq(),
            self.sapply(r).smeta() == r.smeta(),
    ;
}

/// An exact copy of an optional string.
pub fn opt_str_clone(o: &Option<String>) -> (r: Option<String>)
    ensures
        r == *o,
{
    match o {
        Some(s) => Some(s.clone()),
        None => None,
    }
}

} // verus!
