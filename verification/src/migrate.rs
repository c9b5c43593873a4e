//! The migration runner's decision logic, and its effect on an abstract
//! schema state.
//!
//! The store file records its version as text in the metadata relation.
//! Reading it back, a missing relation or row means version zero, and so
//! does a malformed value.  A store whose version is below the registry's
//! target gets every schema statement applied (each is guarded with
//! create-if-not-present semantics) and the target version written; an
//! already-current store is left untouched, so running the migration on
//! every process start is safe.

use vstd::prelude::*;

use crate::schema::DB_VERSION;
use crate::sync::is_label;

verus! {

/// Is the byte an ASCII decimal digit?
pub open spec fn is_digit(b: u8) -> bool {
    48 <= b <= 57
}

/// Is the sequence a non-empty run of ASCII decimal digits?
pub open spec fn all_digits(s: Seq<u8>) -> bool {
    forall|i: int| 0 <= i < s.len() ==> is_digit(#[trigger] s[i])
}

/// The number the digit run denotes, most significant digit first.
pub open spec fn digits_value(s: Seq<u8>) -> nat
    decreases s.len(),
{
    if s.len() == 0 {
        0
    } else {
        digits_value(s.drop_last()) * 10 + (s.last() - 48) as nat
    }
}

/// The store version a stored text denotes: its number if it is a
/// non-empty digit run whose value fits, and zero for anything else —
/// a malformed version is treated as an uninitialized store.
pub open spec fn spec_parse_version(s: Seq<u8>) -> u64 {
    if s.len() > 0 && all_digits(s) && digits_value(s) <= u64::MAX {
        digits_value(s) as u64
    } else {
        0
    }
}

/// A longer digit run denotes at least as large a number.
proof fn lemma_digits_value_prefix(s: Seq<u8>, i: int)
    requires
        0 <= i <= s.len(),
    ensures
        digits_value(s.subrange(0, i)) <= digits_value(s),
    decreases s.len() - i,
{
    if i < s.len() {
        lemma_digits_value_prefix(s, i + 1);
        let a = s.subrange(0, i);
        let b = s.subrange(0, i + 1);
        assert(b.drop_last() =~= a);
        assert(digits_value(b) == digits_value(a) * 10 + (b.last() - 48) as nat);
        assert(digits_value(a) <= digits_value(a) * 10);
    } else {
        assert(s.subrange(0, i) =~= s);
    }
}

/// Reads a stored version text.  `None` (no metadata relation, or no
/// version row) and any text that is not a fitting digit run give zero.
pub fn parse_version(stored: Option<&String>) -> (v: u64)
    ensures
        v == match stored {
            Some(s) => spec_parse_version(vstd::utf8::encode_utf8(s@)),
            None => 0u64,
        },
{
    let s = match stored {
        Some(s) => s,
        None => {
            return 0;
        },
    };
    let b = s.as_str().as_bytes();
    let ghost bs = vstd::utf8::encode_utf8(s@);
    let n = b.len();
    if n == 0 {
        return 0;
    }
    let mut v: u64 = 0;
    let mut i: usize = 0;
    while i < n
        invariant
            i <= n,
            n == bs.len(),
            b@ == bs,
            n > 0,
            stored == Some(s),
            bs == vstd::utf8::encode_utf8(s@),
            all_digits(bs.subrange(0, i as int)),
            v == digits_value(bs.subrange(0, i as int)),
        decreases n - i,
    {
        let ghost prefix = bs.subrange(0, i as int);
        let ghost prefix2 = bs.subrange(0, i + 1 as int);
        proof {
            assert(prefix2.drop_last() =~= prefix);
        }
        let d = b[i];
        if d < 48 || d > 57 {
            proof {
                assert(!is_digit(bs[i as int]));
                assert(!all_digits(bs));
            }
            return 0;
        }
        let digit = (d - 48) as u64;
        if v > (u64::MAX - digit) / 10 {
            // The run denotes a number beyond the version range; the
            // whole text is treated as malformed.
            proof {
                lemma_digits_value_prefix(bs, i + 1);
                assert(digits_value(prefix2) == digits_value(prefix) * 10 + (digit as nat));
                assert((v as nat) * 10 + (digit as nat) > u64::MAX as nat) by (nonlinear_arith)
                    requires
                        (v as nat) > ((u64::MAX as nat) - (digit as nat)) / 10,
                        (digit as nat) <= 9,
                ;
                assert(digits_value(prefix2) > u64::MAX);
                assert(digits_value(bs) > u64::MAX);
            }
            return 0;
        }
        v = v * 10 + digit;
        i = i + 1;
    }
    proof {
        assert(bs.subrange(0, n as int) =~= bs);
    }
    v
}

/// An abstract view of what migration does to a store file: the version
/// it records and which relations exist in it.  The storage engine owns
/// the file itself; this model is what the runner's contract speaks of.
pub struct SchemaState {
    /// The recorded store version; zero for a fresh or uninitialized
    /// store.
    pub version: u64,
    /// The names of the relations present, in creation order, each at
    /// most once.
    pub tables: Vec<String>,
}

/// The relations after one create-if-not-present statement: unchanged if
/// the name exists, extended by it otherwise.
pub open spec fn spec_ensure_table(tables: Seq<Seq<char>>, name: Seq<char>) -> Seq<Seq<char>> {
    if tables.contains(name) {
        tables
    } else {
        tables.push(name)
    }
}

/// The relations after the whole batch, applied in declaration order.
pub open spec fn spec_ensure_tables(tables: Seq<Seq<char>>, names: Seq<Seq<char>>) -> Seq<
    Seq<char>,
>
    decreases names.len(),
{
    if names.len() == 0 {
        tables
    } else {
        spec_ensure_tables(spec_ensure_table(tables, names[0]), names.drop_first())
    }
}

/// The names of the relations the registry declares, the metadata
/// relation first, parents before their dependents.
pub open spec fn spec_required_tables() -> Seq<Seq<char>> {
    seq![
        "_metadata"@,
        "notes"@,
        "pages"@,
        "decks"@,
        "cards"@,
        "study_goals"@,
        "learning_logs"@,
        "milestones"@,
        "user_settings"@,
    ]
}

/// What the migration runner does to a store: nothing if the store is
/// already at or beyond the target version, otherwise every declared
/// relation is ensured, in declaration order, and the target version is
/// recorded.
pub open spec fn spec_migrate(version: u64, tables: Seq<Seq<char>>) -> (u64, Seq<Seq<char>>) {
    if version >= DB_VERSION {
        (version, tables)
    } else {
        (DB_VERSION, spec_ensure_tables(tables, spec_required_tables()))
    }
}

/// Does a relation of this name exist in the state?
pub open spec fn spec_has_table(s: SchemaState, name: Seq<char>) -> bool {
    s.tables@.map_values(|t: String| t@).contains(name)
}

impl SchemaState {
    /// A fresh store: version zero, no relations.
    pub fn new() -> (s: SchemaState)
        ensures
            s.version == 0,
            s.tables@.len() == 0,
    {
        SchemaState { version: 0, tables: Vec::new() }
    }
}

/// Does a relation of this name exist in the state?
fn has_table(s: &SchemaState, name: &str) -> (b: bool)
    ensures
        b == spec_has_table(*s, name@),
{
    let n = s.tables.len();
    let mut i: usize = 0;
    while i < n
        invariant
            i <= n,
            n == s.tables@.len(),
            forall|k: int| 0 <= k < i ==> #[trigger] s.tables@[k]@ != name@,
        decreases n - i,
    {
        if is_label(&s.tables[i], name) {
            proof {
                assert(s.tables@.map_values(|t: String| t@)[i as int] == name@);
            }
            return true;
        }
        i = i + 1;
    }
    proof {
        let m = s.tables@.map_values(|t: String| t@);
        if m.contains(name@) {
            let j = choose|j: int| 0 <= j < m.len() && m[j] == name@;
            assert(s.tables@[j]@ == name@);
        }
    }
    false
}

/// One create-if-not-present statement against the state.
fn ensure_table(s: &mut SchemaState, name: &str)
    ensures
        final(s).version == old(s).version,
        final(s).tables@.map_values(|t: String| t@) == spec_ensure_table(
            old(s).tables@.map_values(|t: String| t@),
            name@,
        ),
{
    if !has_table(s, name) {
        let owned = String::from_str(name);
        let ghost m0 = s.tables@.map_values(|t: String| t@);
        s.tables.push(owned);
        proof {
            assert(s.tables@.map_values(|t: String| t@) =~= m0.push(name@));
        }
    }
}

/// Brings a store from whatever version it has up to the registry's
/// target version, idempotently: on an already-current store this is a
/// no-op, otherwise every relation the registry declares is ensured, in
/// declaration order, and the target version is recorded.
pub fn ensure_current(s: &mut SchemaState)
    ensures
        final(s).version == spec_migrate(
            old(s).version,
            old(s).tables@.map_values(|t: String| t@),
        ).0,
        final(s).tables@.map_values(|t: String| t@) == spec_migrate(
            old(s).version,
            old(s).tables@.map_values(|t: String| t@),
        ).1,
        final(s).version >= DB_VERSION,
        final(s).version >= old(s).version,
{
    if s.version >= DB_VERSION {
        return ;
    }
    let ghost t0 = s.tables@.map_values(|t: String| t@);
    let ghost req = spec_required_tables();
    ensure_table(s, "_metadata");
    ensure_table(s, "notes");
    ensure_table(s, "pages");
    ensure_table(s, "decks");
    ensure_table(s, "cards");
    ensure_table(s, "study_goals");
    ensure_table(s, "learning_logs");
    ensure_table(s, "milestones");
    ensure_table(s, "user_settings");
    s.version = DB_VERSION;
    proof {
        let e1 = spec_ensure_table(t0, "_metadata"@);
        let e2 = spec_ensure_table(e1, "notes"@);
        let e3 = spec_ensure_table(e2, "pages"@);
        let e4 = spec_ensure_table(e3, "decks"@);
        let e5 = spec_ensure_table(e4, "cards"@);
        let e6 = spec_ensure_table(e5, "study_goals"@);
        let e7 = spec_ensure_table(e6, "learning_logs"@);
        let e8 = spec_ensure_table(e7, "milestones"@);
        let e9 = spec_ensure_table(e8, "user_settings"@);
        assert(req.drop_first() =~= seq![
            "notes"@,
            "pages"@,
            "decks"@,
            "cards"@,
            "study_goals"@,
            "learning_logs"@,
            "milestones"@,
            "user_settings"@,
        ]);
        assert(spec_ensure_tables(t0, req) == e9) by {
            reveal_with_fuel(spec_ensure_tables, 10);
        }
    }
}

/// Ensuring a relation keeps every relation that was present and makes
/// the given one present.
proof fn lemma_ensure_table_grows(tables: Seq<Seq<char>>, name: Seq<char>)
    ensures
        spec_ensure_table(tables, name).contains(name),
        forall|t: Seq<char>|
            tables.contains(t) ==> #[trigger] spec_ensure_table(tables, name).contains(t),
{
    if !tables.contains(name) {
        assert(tables.push(name)[tables.len() as int] == name);
        assert forall|t: Seq<char>| tables.contains(t) implies #[trigger] spec_ensure_table(
            tables,
            name,
        ).contains(t) by {
            let i = choose|i: int| 0 <= i < tables.len() && tables[i] == t;
            assert(tables.push(name)[i] == t);
        }
    }
}

/// The whole batch keeps every relation that was present and makes every
/// declared relation present.
pub proof fn lemma_ensure_tables_complete(tables: Seq<Seq<char>>, names: Seq<Seq<char>>)
    ensures
        forall|t: Seq<char>|
            tables.contains(t) ==> #[trigger] spec_ensure_tables(tables, names).contains(t),
        forall|i: int|
            0 <= i < names.len() ==> spec_ensure_tables(tables, names).contains(
                #[trigger] names[i],
            ),
    decreases names.len(),
{
    if names.len() > 0 {
        let e1 = spec_ensure_table(tables, names[0]);
        lemma_ensure_table_grows(tables, names[0]);
        lemma_ensure_tables_complete(e1, names.drop_first());
        assert(spec_ensure_tables(tables, names) == spec_ensure_tables(e1, names.drop_first()));
        assert forall|t: Seq<char>| tables.contains(t) implies #[trigger] spec_ensure_tables(
            tables,
            names,
        ).contains(t) by {
            assert(e1.contains(t));
            assert(spec_ensure_tables(e1, names.drop_first()).contains(t));
        }
        assert forall|i: int| 0 <= i < names.len() implies spec_ensure_tables(
            tables,
            names,
        ).contains(#[trigger] names[i]) by {
            if i > 0 {
                assert(names.drop_first()[i - 1] == names[i]);
                assert(spec_ensure_tables(e1, names.drop_first()).contains(names[i]));
            } else {
                assert(e1.contains(names[0]));
                assert(spec_ensure_tables(e1, names.drop_first()).contains(names[0]));
            }
        }
    }
}

/// Applying the batch twice adds nothing the first pass did not add.
pub proof fn lemma_ensure_tables_idempotent(tables: Seq<Seq<char>>, names: Seq<Seq<char>>)
    ensures
        spec_ensure_tables(spec_ensure_tables(tables, names), names) == spec_ensure_tables(
            tables,
            names,
        ),
    decreases names.len(),
{
    lemma_ensure_tables_complete(tables, names);
    lemma_ensure_tables_stable(spec_ensure_tables(tables, names), names);
}

/// A batch whose every name is already present changes nothing.
proof fn lemma_ensure_tables_stable(tables: Seq<Seq<char>>, names: Seq<Seq<char>>)
    requires
        forall|i: int| 0 <= i < names.len() ==> tables.contains(#[trigger] names[i]),
    ensures
        spec_ensure_tables(tables, names) == tables,
    decreases names.len(),
{
    if names.len() > 0 {
        assert(tables.contains(names[0]));
        assert forall|i: int| 0 <= i < names.drop_first().len() implies tables.contains(
            #[trigger] names.drop_first()[i],
        ) by {
            assert(names.drop_first()[i] == names[i + 1]);
        }
        lemma_ensure_tables_stable(tables, names.drop_first());
    }
}

} // verus!
