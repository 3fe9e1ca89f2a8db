//! Catalog schema revisions and what opening a catalog does with the
//! revision it finds stored: create a fresh schema, reuse the current one,
//! migrate an older one step by step, or refuse a foreign catalog.

use vstd::prelude::*;

use crate::catalog::error::{other_error_with, CatalogError, CatalogErrorKind};
use crate::text::{concat, decimal, decimal_digit, decimal_text, owned, push_char};

verus! {

/// A schema revision, written `<date>.<step>` in decimal.
#[derive(Debug, Clone, Copy, PartialEq, Eq, Structural)]
pub struct CatalogSchemaRevision {
    pub date: u32,
    pub step: u32,
}

/// A decimal digit.
pub open spec fn is_digit(c: char) -> bool {
    48 <= c as int <= 57
}

/// The value of a run of decimal digits.
pub open spec fn digits_value(s: Seq<char>) -> nat
    decreases s.len(),
{
    if s.len() == 0 {
        0
    } else {
        digits_value(s.drop_last()) * 10 + (s.last() as int - 48) as nat
    }
}

/// A non-empty run of decimal digits whose value fits `u32`.
pub open spec fn is_u32_digits(s: Seq<char>) -> bool {
    &&& s.len() > 0
    &&& forall|i: int| 0 <= i < s.len() ==> is_digit(#[trigger] s[i])
    &&& digits_value(s) <= u32::MAX
}

/// Text of a revision: two digit runs around the first `.`.
pub open spec fn revision_text_ok(t: Seq<char>, dot: int) -> bool {
    &&& 0 <= dot < t.len()
    &&& t[dot] == '.'
    &&& forall|i: int| 0 <= i < dot ==> t[i] != '.'
    &&& is_u32_digits(t.subrange(0, dot))
    &&& is_u32_digits(t.subrange(dot + 1, t.len() as int))
}

/// The revision a text names, if any.
pub open spec fn revision_named(t: Seq<char>) -> Option<CatalogSchemaRevision> {
    if exists|dot: int| revision_text_ok(t, dot) {
        let dot = choose|dot: int| revision_text_ok(t, dot);
        Some(
            CatalogSchemaRevision {
                date: digits_value(t.subrange(0, dot)) as u32,
                step: digits_value(t.subrange(dot + 1, t.len() as int)) as u32,
            },
        )
    } else {
        None
    }
}

fn parse_digits(text: &str, from: usize, to: usize) -> (r: Option<u32>)
    requires
        from <= to <= text@.len(),
    ensures
        r is Some <==> is_u32_digits(text@.subrange(from as int, to as int)),
        r matches Some(v) ==> v == digits_value(text@.subrange(from as int, to as int)),
{
    if from == to {
        return None;
    }
    let mut value: u32 = 0;
    let mut i = from;
    proof {
        assert(text@.subrange(from as int, from as int) =~= Seq::<char>::empty());
    }
    while i < to
        invariant
            from <= i <= to <= text@.len(),
            from < to,
            forall|k: int| from <= k < i ==> is_digit(#[trigger] text@[k]),
            value == digits_value(text@.subrange(from as int, i as int)),
        decreases to - i,
    {
        let c = text.get_char(i);
        proof {
            assert(text@.subrange(from as int, i + 1).drop_last() =~= text@.subrange(
                from as int,
                i as int,
            ));
        }
        if !('0' <= c && c <= '9') {
            proof {
                assert(text@.subrange(from as int, to as int)[i - from] == c);
            }
            return None;
        }
        let d = (c as u32) - 48;
        if value > (u32::MAX - d) / 10 {
            proof {
                let whole = text@.subrange(from as int, to as int);
                assert(digits_value(text@.subrange(from as int, i + 1)) > u32::MAX);
                assert(whole.subrange(0, i + 1 - from) =~= text@.subrange(from as int, i + 1));
                if forall|k: int| 0 <= k < whole.len() ==> is_digit(#[trigger] whole[k]) {
                    lemma_digits_value_prefix_bound(whole, i + 1 - from);
                }
            }
            return None;
        }
        value = value * 10 + d;
        i = i + 1;
    }
    proof {
        assert forall|k: int| 0 <= k < to - from implies is_digit(
            #[trigger] text@.subrange(from as int, to as int)[k],
        ) by {
            assert(text@.subrange(from as int, to as int)[k] == text@[from + k]);
        }
    }
    Some(value)
}

proof fn lemma_digits_value_prefix_bound(s: Seq<char>, n: int)
    requires
        0 <= n <= s.len(),
        forall|i: int| 0 <= i < s.len() ==> is_digit(#[trigger] s[i]),
    ensures
        digits_value(s.subrange(0, n)) <= digits_value(s),
    decreases s.len() - n,
{
    if n < s.len() {
        lemma_digits_value_prefix_bound(s.drop_last(), n);
        assert(s.drop_last().subrange(0, n) =~= s.subrange(0, n));
    } else {
        assert(s.subrange(0, n) =~= s);
    }
}

impl CatalogSchemaRevision {
    /// Parses `<date>.<step>`; anything else is not a revision.
    pub fn parse(text: &str) -> (r: Option<CatalogSchemaRevision>)
        ensures
            r == revision_named(text@),
    {
        let n = text.unicode_len();
        let mut dot: usize = 0;
        while dot < n && text.get_char(dot) != '.'
            invariant
                n == text@.len(),
                dot <= n,
                forall|i: int| 0 <= i < dot ==> text@[i] != '.',
            decreases n - dot,
        {
            dot = dot + 1;
        }
        if dot == n {
            proof {
                assert forall|d: int| !revision_text_ok(text@, d) by {
                    if 0 <= d < text@.len() && text@[d] == '.' {
                        assert(text@[d] != '.');
                    }
                }
            }
            return None;
        }
        let date = parse_digits(text, 0, dot);
        let step = parse_digits(text, dot + 1, n);
        proof {
            assert forall|d: int| revision_text_ok(text@, d) implies d == dot by {
                if d < dot {
                    assert(text@[d] != '.');
                } else if d > dot {
                    assert(text@[dot as int] == '.');
                }
            }
        }
        match (date, step) {
            (Some(date), Some(step)) => {
                assert(revision_text_ok(text@, dot as int));
                Some(CatalogSchemaRevision { date, step })
            },
            _ => None,
        }
    }

    /// The text of this revision.
    pub fn to_text(&self) -> (r: String)
        ensures
            r@ == decimal(self.date as nat) + seq!['.'] + decimal(self.step as nat),
    {
        let mut r = decimal_text(self.date as u64);
        push_char(&mut r, '.');
        r.append(decimal_text(self.step as u64).as_str());
        r
    }
}

/// The descriptive identity recorded beside the current revision.
pub open spec fn schema_identity_text() -> Seq<char> {
    "echo-catalog-20260813.2-convolution-space"@
}

/// The descriptive identity recorded beside the current revision.
pub fn schema_identity() -> (r: &'static str)
    ensures
        r@ == schema_identity_text(),
{
    "echo-catalog-20260813.2-convolution-space"
}

/// A revision by its date and step.
pub open spec fn revision(date: u32, step: u32) -> CatalogSchemaRevision {
    CatalogSchemaRevision { date, step }
}

/// Every revision this catalog opens, oldest first, ending with the
/// current one. Each revision after the first is one migration step from
/// the one before it.
pub open spec fn revision_ladder() -> Seq<CatalogSchemaRevision> {
    seq![
        revision(20260811, 1),
        revision(20260811, 2),
        revision(20260811, 3),
        revision(20260811, 4),
        revision(20260811, 5),
        revision(20260811, 6),
        revision(20260811, 7),
        revision(20260811, 8),
        revision(20260811, 10),
        revision(20260811, 11),
        revision(20260811, 12),
        revision(20260811, 13),
        revision(20260811, 14),
        revision(20260811, 15),
        revision(20260811, 16),
        revision(20260812, 1),
        revision(20260812, 2),
        revision(20260812, 3),
        revision(20260812, 4),
        revision(20260813, 1),
        revision(20260813, 2),
    ]
}

/// The revision this library writes: the last of the ladder.
pub open spec fn current_revision() -> CatalogSchemaRevision {
    revision_ladder().last()
}

/// The revision this library writes.
pub fn current_schema_revision() -> (r: CatalogSchemaRevision)
    ensures
        r == current_revision(),
{
    CatalogSchemaRevision { date: 20260813, step: 2 }
}

/// The revision ladder.
pub fn schema_revisions() -> (r: Vec<CatalogSchemaRevision>)
    ensures
        r@ == revision_ladder(),
{
    let r = vec![
        CatalogSchemaRevision { date: 20260811, step: 1 },
        CatalogSchemaRevision { date: 20260811, step: 2 },
        CatalogSchemaRevision { date: 20260811, step: 3 },
        CatalogSchemaRevision { date: 20260811, step: 4 },
        CatalogSchemaRevision { date: 20260811, step: 5 },
        CatalogSchemaRevision { date: 20260811, step: 6 },
        CatalogSchemaRevision { date: 20260811, step: 7 },
        CatalogSchemaRevision { date: 20260811, step: 8 },
        CatalogSchemaRevision { date: 20260811, step: 10 },
        CatalogSchemaRevision { date: 20260811, step: 11 },
        CatalogSchemaRevision { date: 20260811, step: 12 },
        CatalogSchemaRevision { date: 20260811, step: 13 },
        CatalogSchemaRevision { date: 20260811, step: 14 },
        CatalogSchemaRevision { date: 20260811, step: 15 },
        CatalogSchemaRevision { date: 20260811, step: 16 },
        CatalogSchemaRevision { date: 20260812, step: 1 },
        CatalogSchemaRevision { date: 20260812, step: 2 },
        CatalogSchemaRevision { date: 20260812, step: 3 },
        CatalogSchemaRevision { date: 20260812, step: 4 },
        CatalogSchemaRevision { date: 20260813, step: 1 },
        CatalogSchemaRevision { date: 20260813, step: 2 },
    ];
    assert(r@ =~= revision_ladder());
    r
}

/// What opening a catalog does with its stored revision.
#[derive(Debug, Clone, PartialEq, Eq)]
pub enum SchemaAction {
    /// No revision is stored: create the current schema and record it.
    CreateFresh,
    /// The stored revision is current: ensure the current schema.
    Reuse,
    /// The stored revision is an older one of the ladder: apply these
    /// steps in order, each migrating to the revision it names; the last is
    /// the current revision.
    Migrate(Vec<CatalogSchemaRevision>),
}

/// Decides how to open a catalog whose stored revision text is `stored`
/// (`None` for a new database). A revision on the ladder below the current
/// one migrates step by step to the current one; a revision that is not on
/// the ladder (or does not parse) is a schema mismatch: a foreign catalog
/// is never silently downgraded or recreated.
pub fn schema_action(stored: Option<&str>, catalog_path: &str) -> (r: Result<
    SchemaAction,
    CatalogError,
>)
    ensures
        stored is None ==> r matches Ok(SchemaAction::CreateFresh),
        stored matches Some(text) ==> (revision_named(text@) == Some(current_revision()) ==> (
        r matches Ok(SchemaAction::Reuse))),
        stored matches Some(text) ==> forall|k: int|
            0 <= k < revision_ladder().len() - 1 && revision_named(text@) == Some(
                #[trigger] revision_ladder()[k],
            ) ==> (r matches Ok(SchemaAction::Migrate(steps)) && steps@ == revision_ladder().subrange(
                k + 1,
                revision_ladder().len() as int,
            )),
        stored matches Some(text) ==> (r is Err <==> !(exists|k: int|
            0 <= k < revision_ladder().len() && revision_named(text@) == Some(
                #[trigger] revision_ladder()[k],
            ))),
        r matches Err(e) ==> e.kind == CatalogErrorKind::SchemaMismatch,
        stored matches Some(text) ==> r matches Err(e) ==> e.message@ == "catalog at "@
            + catalog_path@ + " uses schema revision "@ + text@ + ", this binary supports "@
            + decimal(current_revision().date as nat) + seq!['.'] + decimal(
            current_revision().step as nat,
        ) + " ("@ + schema_identity_text() + ")"@,
{
    match stored {
        None => Ok(SchemaAction::CreateFresh),
        Some(text) => {
            let parsed = CatalogSchemaRevision::parse(text);
            let ladder = schema_revisions();
            let n = ladder.len();
            let mut k: usize = 0;
            while k < n
                invariant
                    stored == Some(text),
                    n == ladder@.len(),
                    ladder@ == revision_ladder(),
                    parsed == revision_named(text@),
                    k <= n,
                    forall|j: int| 0 <= j < k ==> parsed != Some(#[trigger] ladder@[j]),
                decreases n - k,
            {
                if parsed == Some(ladder[k]) {
                    if k + 1 == n {
                        proof {
                            assert forall|m: int|
                                0 <= m < revision_ladder().len() - 1 && revision_named(text@)
                                    == Some(#[trigger] revision_ladder()[m]) implies false by {
                                lemma_ladder_distinct(m, k as int);
                            }
                        }
                        return Ok(SchemaAction::Reuse);
                    }
                    let mut steps: Vec<CatalogSchemaRevision> = Vec::new();
                    let mut j: usize = k + 1;
                    while j < n
                        invariant
                            n == ladder@.len(),
                            k + 1 <= j <= n,
                            steps@ == ladder@.subrange(k + 1, j as int),
                        decreases n - j,
                    {
                        steps.push(ladder[j]);
                        assert(steps@ =~= ladder@.subrange(k + 1, j + 1));
                        j = j + 1;
                    }
                    proof {
                        assert forall|m: int|
                            0 <= m < revision_ladder().len() - 1 && revision_named(text@) == Some(
                                #[trigger] revision_ladder()[m],
                            ) implies m == k by {
                            lemma_ladder_distinct(m, k as int);
                        }
                        if revision_ladder()[k as int] == revision_ladder()[n - 1] {
                            lemma_ladder_distinct(k as int, n - 1);
                        }
                    }
                    return Ok(SchemaAction::Migrate(steps));
                }
                k = k + 1;
            }
            let mut message = concat("catalog at ", catalog_path);
            message.append(" uses schema revision ");
            message.append(text);
            message.append(", this binary supports ");
            message.append(current_schema_revision().to_text().as_str());
            message.append(" (");
            message.append(schema_identity());
            message.append(")");
            Err(CatalogError { kind: CatalogErrorKind::SchemaMismatch, message })
        },
    }
}

/// The ladder names each revision once.
proof fn lemma_ladder_distinct(i: int, j: int)
    requires
        0 <= i < revision_ladder().len(),
        0 <= j < revision_ladder().len(),
        revision_ladder()[i] == revision_ladder()[j],
    ensures
        i == j,
{
}

/// Aggregate catalog status.
#[derive(Debug, Clone, Copy, PartialEq, Eq, Structural)]
pub struct CatalogStats {
    /// Registered asset count.
    pub asset_count: u64,
    /// Append-only analysis record count.
    pub analysis_record_count: u64,
    /// On-disk schema revision.
    pub schema_version: CatalogSchemaRevision,
}

/// Builds catalog statistics from the stored counts and revision text; a
/// revision that does not parse is `catalog stores malformed schema
/// revision <text>`.
pub fn catalog_stats(asset_count: i64, analysis_record_count: i64, schema_version: &str) -> (r:
    Result<CatalogStats, CatalogError>)
    requires
        asset_count >= 0,
        analysis_record_count >= 0,
    ensures
        r is Ok <==> revision_named(schema_version@) is Some,
        r matches Ok(s) ==> s.asset_count == asset_count && s.analysis_record_count
            == analysis_record_count && Some(s.schema_version) == revision_named(schema_version@),
        r matches Err(e) ==> e.kind == CatalogErrorKind::SchemaMismatch && e.message@
            == "catalog stores malformed schema revision "@ + schema_version@,
{
    match CatalogSchemaRevision::parse(schema_version) {
        Some(revision) => Ok(
            CatalogStats {
                asset_count: asset_count as u64,
                analysis_record_count: analysis_record_count as u64,
                schema_version: revision,
            },
        ),
        None => {
            let message = concat("catalog stores malformed schema revision ", schema_version);
            Err(CatalogError { kind: CatalogErrorKind::SchemaMismatch, message })
        },
    }
}

proof fn lemma_decimal_digits(n: nat)
    ensures
        decimal(n).len() > 0,
        forall|i: int| 0 <= i < decimal(n).len() ==> is_digit(#[trigger] decimal(n)[i]),
        digits_value(decimal(n)) == n,
    decreases n,
{
    let d = n % 10;
    assert(((d + 48) as u8) as char as int == d + 48);
    assert(decimal_digit(d) as int - 48 == d);
    if n >= 10 {
        lemma_decimal_digits(n / 10);
        let p = decimal(n / 10);
        assert(decimal(n) == p.push(decimal_digit(d)));
        assert(decimal(n).drop_last() =~= p);
        assert(decimal(n).last() == decimal_digit(d));
        assert(digits_value(decimal(n)) == digits_value(p) * 10 + d);
        assert(n == (n / 10) * 10 + d);
        assert(digits_value(p) == n / 10);
        assert(digits_value(decimal(n)) == n);
        assert forall|i: int| 0 <= i < decimal(n).len() implies is_digit(#[trigger] decimal(n)[i]) by {
            if i < p.len() {
                assert(decimal(n)[i] == p[i]);
            }
        }
    } else {
        assert(decimal(n) == seq![decimal_digit(n)]);
        assert(decimal(n).drop_last() =~= Seq::<char>::empty());
        assert(d == n);
        assert(digits_value(decimal(n).drop_last()) == 0);
        assert(decimal(n).last() == decimal_digit(d));
        assert(digits_value(decimal(n)) == n);
    }
}

/// The text a revision is written as parses back to that revision.
pub proof fn lemma_revision_text_round_trip(revision: CatalogSchemaRevision)
    ensures
        revision_named(decimal(revision.date as nat) + seq!['.'] + decimal(revision.step as nat))
            == Some(revision),
{
    let a = decimal(revision.date as nat);
    let b = decimal(revision.step as nat);
    let t = a + seq!['.'] + b;
    lemma_decimal_digits(revision.date as nat);
    lemma_decimal_digits(revision.step as nat);
    let dot = a.len() as int;
    assert(t.subrange(0, dot) =~= a);
    assert(t.subrange(dot + 1, t.len() as int) =~= b);
    assert(t[dot] == '.');
    assert forall|i: int| 0 <= i < dot implies t[i] != '.' by {
        assert(t[i] == a[i]);
        assert(is_digit(a[i]));
    }
    assert(revision_text_ok(t, dot));
    assert forall|other: int| revision_text_ok(t, other) implies other == dot by {
        if other < dot {
            assert(t[other] == a[other]);
            assert(is_digit(a[other]));
        } else if other > dot {
            assert(t[dot] != '.');
        }
    }
    let chosen = choose|d: int| revision_text_ok(t, d);
    assert(chosen == dot);
}

} // verus!
