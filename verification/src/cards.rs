//! Cards: study cards belonging to exactly one deck, with the
//! spaced-repetition bookkeeping the scheduler reads.
//!
//! The scheduler's real-valued parameters (ease factor, stability,
//! difficulty) are carried as opaque decimal renderings: this store never
//! computes with them, it only keeps and returns them.

use vstd::prelude::*;

use crate::order::{bytes_le, bytes_le_exec, lemma_bytes_le_total, lemma_bytes_le_trans};
use crate::record::{opt_str_clone, Patch, Record};
use crate::sync::{SyncMeta, SyncStatus};
use crate::table::Table;
use vstd::utf8::encode_utf8;

verus! {

/// A locally stored card.
#[derive(Clone, Debug, PartialEq)]
pub struct LocalCard {
    pub id: String,
    pub deck_id: String,
    pub user_id: String,
    pub front_content: String,
    pub back_content: String,
    pub source_audio_url: Option<String>,
    pub source_ocr_image_url: Option<String>,
    pub created_at: u64,
    pub updated_at: u64,
    pub ease_factor: String,
    pub repetition_count: i32,
    pub review_interval: i32,
    pub next_review_at: Option<u64>,
    pub stability: String,
    pub difficulty: String,
    pub last_reviewed_at: Option<u64>,
    pub sync_status: SyncStatus,
    pub synced_at: Option<u64>,
    pub local_updated_at: u64,
    pub server_updated_at: Option<u64>,
}

impl Record for LocalCard {
    open spec fn sid(&self) -> Seq<char> {
        self.id@
    }

    open spec fn sowner(&self) -> Seq<char> {
        self.user_id@
    }

    open spec fn suniq(&self) -> Option<(Seq<char>, Seq<char>)> {
        None
    }

    open spec fn sparent(&self) -> Option<Seq<char>> {
        Some(self.deck_id@)
    }

    open spec fn smeta(&self) -> SyncMeta {
        SyncMeta {
            sync_status: self.sync_status,
            synced_at: self.synced_at,
            local_updated_at: self.local_updated_at,
            server_updated_at: self.server_updated_at,
        }
    }

    open spec fn svalid(&self) -> bool {
        true
    }

    open spec fn with_meta(&self, m: SyncMeta) -> Self {
        LocalCard {
            sync_status: m.sync_status,
            synced_at: m.synced_at,
            local_updated_at: m.local_updated_at,
            server_updated_at: m.server_updated_at,
            ..*self
        }
    }

    fn id(&self) -> &String {
        &self.id
    }

    fn owner(&self) -> &String {
        &self.user_id
    }

    fn uniq(&self) -> Option<(&String, &String)> {
        None
    }

    fn parent(&self) -> Option<&String> {
        Some(&self.deck_id)
    }

    fn meta(&self) -> SyncMeta {
        SyncMeta {
            sync_status: self.sync_status,
            synced_at: self.synced_at,
            local_updated_at: self.local_updated_at,
            server_updated_at: self.server_updated_at,
        }
    }

    fn validate(&self) -> bool {
        true
    }

    fn set_meta(&mut self, m: SyncMeta) {
        self.sync_status = m.sync_status;
        self.synced_at = m.synced_at;
        self.local_updated_at = m.local_updated_at;
        self.server_updated_at = m.server_updated_at;
    }

    fn dup(&self) -> Self {
        LocalCard {
            id: self.id.clone(),
            deck_id: self.deck_id.clone(),
            user_id: self.user_id.clone(),
            front_content: self.front_content.clone(),
            back_content: self.back_content.clone(),
            source_audio_url: opt_str_clone(&self.source_audio_url),
            source_ocr_image_url: opt_str_clone(&self.source_ocr_image_url),
            created_at: self.created_at,
            updated_at: self.updated_at,
            ease_factor: self.ease_factor.clone(),
            repetition_count: self.repetition_count,
            review_interval: self.review_interval,
            next_review_at: self.next_review_at,
            stability: self.stability.clone(),
            difficulty: self.difficulty.clone(),
            last_reviewed_at: self.last_reviewed_at,
            sync_status: self.sync_status,
            synced_at: self.synced_at,
            local_updated_at: self.local_updated_at,
            server_updated_at: self.server_updated_at,
        }
    }

    proof fn lemma_with_meta(&self, m: SyncMeta) {
    }
}

/// A partial update of a card.  Doubled options clear nullable fields.
#[derive(Clone, Debug, PartialEq, Default)]
pub struct CardUpdate {
    pub front_content: Option<String>,
    pub back_content: Option<String>,
    pub source_audio_url: Option<Option<String>>,
    pub source_ocr_image_url: Option<Option<String>>,
    pub ease_factor: Option<String>,
    pub repetition_count: Option<i32>,
    pub review_interval: Option<i32>,
    pub next_review_at: Option<Option<u64>>,
    pub stability: Option<String>,
    pub difficulty: Option<String>,
    pub last_reviewed_at: Option<Option<u64>>,
}

impl Patch<LocalCard> for CardUpdate {
    open spec fn sapply(&self, r: LocalCard) -> LocalCard {
        LocalCard {
            front_content: if self.front_content is Some {
                self.front_content.unwrap()
            } else {
                r.front_content
            },
            back_content: if self.back_content is Some {
                self.back_content.unwrap()
            } else {
                r.back_content
            },
            source_audio_url: if self.source_audio_url is Some {
                self.source_audio_url.unwrap()
            } else {
                r.source_audio_url
            },
            source_ocr_image_url: if self.source_ocr_image_url is Some {
                self.source_ocr_image_url.unwrap()
            } else {
                r.source_ocr_image_url
            },
            ease_factor: if self.ease_factor is Some {
                self.ease_factor.unwrap()
            } else {
                r.ease_factor
            },
            repetition_count: if self.repetition_count is Some {
                self.repetition_count.unwrap()
            } else {
                r.repetition_count
            },
            review_interval: if self.review_interval is Some {
                self.review_interval.unwrap()
            } else {
                r.review_interval
            },
            next_review_at: if self.next_review_at is Some {
                self.next_review_at.unwrap()
            } else {
                r.next_review_at
            },
            stability: if self.stability is Some {
                self.stability.unwrap()
            } else {
                r.stability
            },
            difficulty: if self.difficulty is Some {
                self.difficulty.unwrap()
            } else {
                r.difficulty
            },
            last_reviewed_at: if self.last_reviewed_at is Some {
                self.last_reviewed_at.unwrap()
            } else {
                r.last_reviewed_at
            },
            ..r
        }
    }

    fn apply(&self, r: LocalCard) -> LocalCard {
        let front_content = match &self.front_content {
            Some(v) => v.clone(),
            None => r.front_content,
        };
        let back_content = match &self.back_content {
            Some(v) => v.clone(),
            None => r.back_content,
        };
        let source_audio_url = match &self.source_audio_url {
            Some(v) => opt_str_clone(v),
            None => r.source_audio_url,
        };
        let source_ocr_image_url = match &self.source_ocr_image_url {
            Some(v) => opt_str_clone(v),
            None => r.source_ocr_image_url,
        };
        let ease_factor = match &self.ease_factor {
            Some(v) => v.clone(),
            None => r.ease_factor,
        };
        let repetition_count = match self.repetition_count {
            Some(v) => v,
            None => r.repetition_count,
        };
        let review_interval = match self.review_interval {
            Some(v) => v,
            None => r.review_interval,
        };
        let next_review_at = match self.next_review_at {
            Some(v) => v,
            None => r.next_review_at,
        };
        let stability = match &self.stability {
            Some(v) => v.clone(),
            None => r.stability,
        };
        let difficulty = match &self.difficulty {
            Some(v) => v.clone(),
            None => r.difficulty,
        };
        let last_reviewed_at = match self.last_reviewed_at {
            Some(v) => v,
            None => r.last_reviewed_at,
        };
        LocalCard {
            front_content,
            back_content,
            source_audio_url,
            source_ocr_image_url,
            ease_factor,
            repetition_count,
            review_interval,
            next_review_at,
            stability,
            difficulty,
            last_reviewed_at,
            id: r.id,
            deck_id: r.deck_id,
            user_id: r.user_id,
            created_at: r.created_at,
            updated_at: r.updated_at,
            sync_status: r.sync_status,
            synced_at: r.synced_at,
            local_updated_at: r.local_updated_at,
            server_updated_at: r.server_updated_at,
        }
    }

    proof fn lemma_apply_keys(&self, r: LocalCard) {
    }
}

// ---------------------------------------------------------------------------
// The due-card query
// ---------------------------------------------------------------------------

/// Is the card due for `owner` at time `as_of`: owned by `owner`, not
/// tombstoned, and scheduled for review at or before `as_of`?
pub open spec fn card_due(c: LocalCard, owner: Seq<char>, as_of: u64) -> bool {
    c.user_id@ == owner && c.sync_status != SyncStatus::Deleted && c.next_review_at is Some
        && c.next_review_at.unwrap() <= as_of
}

/// `a` sorts at or before `b` in the due listing: earliest review time
/// first, ties broken by id ascending, byte-wise.
pub open spec fn due_le(a: LocalCard, b: LocalCard) -> bool {
    a.next_review_at.unwrap() < b.next_review_at.unwrap() || (a.next_review_at.unwrap()
        == b.next_review_at.unwrap() && bytes_le(encode_utf8(a.id@), encode_utf8(b.id@)))
}

/// Every pair of the sequence stands in due order.
pub open spec fn due_ordered(s: Seq<LocalCard>) -> bool {
    forall|i: int, j: int| 0 <= i < j < s.len() ==> #[trigger] due_le(s[i], s[j])
}

/// The due order relates every pair of cards one way or the other.
pub proof fn lemma_due_total(a: LocalCard, b: LocalCard)
    ensures
        due_le(a, b) || due_le(b, a),
{
    if a.next_review_at.unwrap() == b.next_review_at.unwrap() {
        lemma_bytes_le_total(encode_utf8(a.id@), encode_utf8(b.id@));
    }
}

/// The due order is transitive.
pub proof fn lemma_due_trans(a: LocalCard, b: LocalCard, c: LocalCard)
    requires
        due_le(a, b),
        due_le(b, c),
    ensures
        due_le(a, c),
{
    if a.next_review_at.unwrap() == b.next_review_at.unwrap() && b.next_review_at.unwrap()
        == c.next_review_at.unwrap() {
        lemma_bytes_le_trans(encode_utf8(a.id@), encode_utf8(b.id@), encode_utf8(c.id@));
    }
}

/// Compares two cards in due order; both must have a scheduled review.
fn due_le_exec(a: &LocalCard, b: &LocalCard) -> (r: bool)
    requires
        a.next_review_at is Some,
        b.next_review_at is Some,
    ensures
        r == due_le(*a, *b),
{
    let ta = match a.next_review_at {
        Some(t) => t,
        None => 0,
    };
    let tb = match b.next_review_at {
        Some(t) => t,
        None => 0,
    };
    if ta < tb {
        true
    } else if ta > tb {
        false
    } else {
        bytes_le_exec(a.id.as_str().as_bytes(), b.id.as_str().as_bytes())
    }
}

/// The first position of `v` whose card does not sort at or before `x`.
fn lower_bound_due(v: &Vec<LocalCard>, x: &LocalCard) -> (i: usize)
    requires
        x.next_review_at is Some,
        forall|k: int| 0 <= k < v@.len() ==> (#[trigger] v@[k]).next_review_at is Some,
    ensures
        i <= v@.len(),
        forall|k: int| 0 <= k < i ==> #[trigger] due_le(v@[k], *x),
        i < v@.len() ==> !due_le(v@[i as int], *x),
{
    let n = v.len();
    let mut i: usize = 0;
    while i < n
        invariant
            i <= n,
            n == v@.len(),
            x.next_review_at is Some,
            forall|k: int| 0 <= k < v@.len() ==> (#[trigger] v@[k]).next_review_at is Some,
            forall|k: int| 0 <= k < i ==> #[trigger] due_le(v@[k], *x),
        decreases n - i,
    {
        if !due_le_exec(&v[i], x) {
            return i;
        }
        i = i + 1;
    }
    i
}

/// Inserts `x` into a due-ordered vector, keeping it ordered.
fn insert_by_due(out: &mut Vec<LocalCard>, x: LocalCard)
    requires
        due_ordered(old(out)@),
        x.next_review_at is Some,
        forall|k: int| 0 <= k < old(out)@.len() ==> (#[trigger] old(out)@[k]).next_review_at
            is Some,
    ensures
        due_ordered(final(out)@),
        final(out)@.to_multiset() == old(out)@.to_multiset().insert(x),
        forall|k: int| 0 <= k < final(out)@.len() ==> (#[trigger] final(out)@[k]).next_review_at
            is Some,
{
    broadcast use vstd::seq_lib::group_to_multiset_ensures;

    let ghost s0 = out@;
    let i = lower_bound_due(out, &x);
    out.insert(i, x);
    proof {
        s0.insert_ensures(i as int, x);
        let s1 = s0.insert(i as int, x);
        assert forall|p: int, q: int| 0 <= p < q < s1.len() implies #[trigger] due_le(
            s1[p],
            s1[q],
        ) by {
            if q < i as int {
                assert(s1[p] == s0[p] && s1[q] == s0[q]);
            } else if q == i as int {
                assert(s1[p] == s0[p] && s1[q] == x);
            } else {
                assert(s1[q] == s0[q - 1]);
                if p < i as int {
                    assert(s1[p] == s0[p]);
                    if (i as int) <= q - 1 && (i as int) < s0.len() {
                        lemma_due_total(s0[i as int], x);
                        assert(due_le(x, s0[i as int]));
                        if (i as int) < q - 1 {
                            assert(due_le(s0[i as int], s0[q - 1]));
                        }
                        assert(due_le(s1[p], s1[q]));
                    }
                } else if p == i as int {
                    assert(s1[p] == x);
                    lemma_due_total(s0[i as int], x);
                    assert(due_le(x, s0[i as int]));
                    if (i as int) < q - 1 {
                        assert(due_le(s0[i as int], s0[q - 1]));
                        lemma_due_trans(x, s0[i as int], s0[q - 1]);
                    }
                } else {
                    assert(s1[p] == s0[p - 1]);
                    assert(due_le(s0[p - 1], s0[q - 1]));
                }
            }
        }
        assert forall|k: int| 0 <= k < s1.len() implies (#[trigger] s1[k]).next_review_at
            is Some by {
            if k < i as int {
                assert(s1[k] == s0[k]);
            } else if k > i as int {
                assert(s1[k] == s0[k - 1]);
            }
        }
    }
}

/// All of `owner`'s cards that are not tombstoned and are due at or
/// before `as_of`, earliest due first; ties are broken by id ascending,
/// byte-wise, so the order is deterministic.
pub fn list_due(t: &Table<LocalCard>, owner: &String, as_of: u64) -> (r: Vec<LocalCard>)
    ensures
        r@.to_multiset() == t@.filter((|c: LocalCard| card_due(c, owner@, as_of))).to_multiset(),
        due_ordered(r@),
{
    let rows = t.rows();
    let n = rows.len();
    let mut out: Vec<LocalCard> = Vec::new();
    proof {
        reveal(Seq::filter);
        assert(out@ =~= t@.subrange(0, 0).filter((|c: LocalCard| card_due(c, owner@, as_of))));
    }
    let mut i: usize = 0;
    while i < n
        invariant
            i <= n,
            n == t@.len(),
            rows@ == t@,
            due_ordered(out@),
            forall|k: int| 0 <= k < out@.len() ==> (#[trigger] out@[k]).next_review_at is Some,
            out@.to_multiset() == t@.subrange(0, i as int).filter(
                (|c: LocalCard| card_due(c, owner@, as_of)),
            ).to_multiset(),
        decreases n - i,
    {
        broadcast use vstd::seq_lib::group_to_multiset_ensures;

        let ghost prefix = t@.subrange(0, i as int);
        let ghost prefix2 = t@.subrange(0, i + 1 as int);
        let card = &rows[i];
        let due = *card.owner() == *owner && match card.meta().sync_status {
            SyncStatus::Deleted => false,
            _ => true,
        } && match card.next_review_at {
            Some(ts) => ts <= as_of,
            None => false,
        };
        if due {
            insert_by_due(&mut out, card.dup());
        }
        proof {
            reveal(Seq::filter);
            assert(prefix2 =~= prefix.push(t@[i as int]));
            assert(prefix2.drop_last() =~= prefix);
            if card_due(t@[i as int], owner@, as_of) {
                assert(prefix2.filter((|c: LocalCard| card_due(c, owner@, as_of)))
                    == prefix.filter((|c: LocalCard| card_due(c, owner@, as_of))).push(
                    t@[i as int],
                ));
            } else {
                assert(prefix2.filter((|c: LocalCard| card_due(c, owner@, as_of)))
                    == prefix.filter((|c: LocalCard| card_due(c, owner@, as_of))));
            }
            assert(out@.to_multiset() == prefix2.filter(
                (|c: LocalCard| card_due(c, owner@, as_of)),
            ).to_multiset());
        }
        i = i + 1;
    }
    proof {
        assert(t@.subrange(0, n as int) =~= t@);
    }
    out
}

} // verus!
