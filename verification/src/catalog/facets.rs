//! Browse facets derived from the newest contextual evidence of an asset:
//! keywords, mood, place, event and people, each normalized to a display
//! label (whitespace collapsed) and a lowercase key, once per kind and key.

use vstd::prelude::*;

use crate::catalog::error::{other_error, CatalogError, CatalogErrorKind};
use crate::catalog::analysis::AnalysisKind;
use crate::text::{push_char, same_text};

verus! {

/// Facet family.
#[derive(Debug, Clone, Copy, PartialEq, Eq, Structural)]
pub enum ContextualFacetKind {
    Keyword,
    Mood,
    Place,
    Event,
    Person,
}

/// The stored text of a facet kind.
pub open spec fn facet_kind_text(kind: ContextualFacetKind) -> Seq<char> {
    match kind {
        ContextualFacetKind::Keyword => "keyword"@,
        ContextualFacetKind::Mood => "mood"@,
        ContextualFacetKind::Place => "place"@,
        ContextualFacetKind::Event => "event"@,
        ContextualFacetKind::Person => "person"@,
    }
}

/// The facet kind a stored text names, if any.
pub open spec fn facet_kind_named(text: Seq<char>) -> Option<ContextualFacetKind> {
    if text == "keyword"@ {
        Some(ContextualFacetKind::Keyword)
    } else if text == "mood"@ {
        Some(ContextualFacetKind::Mood)
    } else if text == "place"@ {
        Some(ContextualFacetKind::Place)
    } else if text == "event"@ {
        Some(ContextualFacetKind::Event)
    } else if text == "person"@ {
        Some(ContextualFacetKind::Person)
    } else {
        None
    }
}

impl ContextualFacetKind {
    /// The stored text of this kind.
    pub fn as_str(self) -> (r: &'static str)
        ensures
            r@ == facet_kind_text(self),
    {
        match self {
            ContextualFacetKind::Keyword => "keyword",
            ContextualFacetKind::Mood => "mood",
            ContextualFacetKind::Place => "place",
            ContextualFacetKind::Event => "event",
            ContextualFacetKind::Person => "person",
        }
    }

    /// The kind a stored text names.
    pub fn from_str(value: &str) -> (r: Option<ContextualFacetKind>)
        ensures
            r == facet_kind_named(value@),
    {
        if same_text(value, "keyword") {
            Some(ContextualFacetKind::Keyword)
        } else if same_text(value, "mood") {
            Some(ContextualFacetKind::Mood)
        } else if same_text(value, "place") {
            Some(ContextualFacetKind::Place)
        } else if same_text(value, "event") {
            Some(ContextualFacetKind::Event)
        } else if same_text(value, "person") {
            Some(ContextualFacetKind::Person)
        } else {
            None
        }
    }
}

/// Every facet kind's stored text names that kind again.
pub proof fn lemma_facet_kind_text_round_trip(kind: ContextualFacetKind)
    ensures
        facet_kind_named(facet_kind_text(kind)) == Some(kind),
{
    reveal_strlit("keyword");
    reveal_strlit("mood");
    reveal_strlit("place");
    reveal_strlit("event");
    reveal_strlit("person");
    assert("keyword"@.len() == 7);
    assert("mood"@.len() == 4);
    assert("place"@.len() == 5);
    assert("event"@.len() == 5);
    assert("person"@.len() == 6);
    assert("place"@[0] != "event"@[0]);
}

/// Unicode `White_Space` (what `char::is_whitespace` tests).
pub open spec fn is_white_space(c: char) -> bool {
    let v = c as int;
    ||| 0x09 <= v <= 0x0d
    ||| v == 0x20
    ||| v == 0x85
    ||| v == 0xa0
    ||| v == 0x1680
    ||| 0x2000 <= v <= 0x200a
    ||| v == 0x2028
    ||| v == 0x2029
    ||| v == 0x202f
    ||| v == 0x205f
    ||| v == 0x3000
}

pub(crate) fn white_space(c: char) -> (r: bool)
    ensures
        r == is_white_space(c),
{
    let v = c as u32;
    (0x09 <= v && v <= 0x0d) || v == 0x20 || v == 0x85 || v == 0xa0 || v == 0x1680 || (0x2000 <= v
        && v <= 0x200a) || v == 0x2028 || v == 0x2029 || v == 0x202f || v == 0x205f || v == 0x3000
}

/// The words of `s` joined by single spaces: runs of white space collapse
/// and leading or trailing white space disappears.
pub open spec fn squeeze(s: Seq<char>) -> Seq<char>
    decreases s.len(),
{
    if s.len() == 0 {
        Seq::empty()
    } else {
        let rest = squeeze(s.drop_last());
        let c = s.last();
        if is_white_space(c) {
            rest
        } else if s.len() >= 2 && is_white_space(s[s.len() - 2]) && rest.len() > 0 {
            rest.push(' ').push(c)
        } else {
            rest.push(c)
        }
    }
}

/// Lowercase form of a text, as `str::to_lowercase` computes it.
pub uninterp spec fn lowercase(text: Seq<char>) -> Seq<char>;

/// Calls `str::to_lowercase`: the contract claims the named lowercase form.
#[verifier::external_body]
fn to_lowercase(text: &str) -> (r: String)
    ensures
        r@ == lowercase(text@),
{
    text.to_lowercase()
}

/// Normalizes one facet value into `(key, label)`: the label collapses white
/// space, the key is the lowercase label; a blank value has no facet.
pub fn normalize_facet(value: &str) -> (r: Option<(String, String)>)
    ensures
        squeeze(value@).len() == 0 ==> r is None,
        squeeze(value@).len() > 0 ==> (r matches Some((key, label)) && label@ == squeeze(value@)
            && key@ == lowercase(label@)),
{
    let n = value.unicode_len();
    let mut label = String::new();
    let mut i: usize = 0;
    let mut previous_white = false;
    proof {
        assert(value@.take(0) =~= Seq::<char>::empty());
    }
    while i < n
        invariant
            n == value@.len(),
            i <= n,
            label@ == squeeze(value@.take(i as int)),
            i > 0 ==> previous_white == is_white_space(value@[i - 1]),
        decreases n - i,
    {
        let c = value.get_char(i);
        proof {
            assert(value@.take(i + 1).drop_last() =~= value@.take(i as int));
            assert(value@.take(i + 1).last() == c);
            if i > 0 {
                assert(value@.take(i + 1)[i - 1] == value@[i - 1]);
            }
        }
        let white = white_space(c);
        if !white {
            if i > 0 && previous_white && label.unicode_len() > 0 {
                push_char(&mut label, ' ');
            }
            push_char(&mut label, c);
        }
        previous_white = white;
        i = i + 1;
    }
    proof {
        assert(value@.take(n as int) =~= value@);
    }
    if label.unicode_len() == 0 {
        return None;
    }
    let key = to_lowercase(label.as_str());
    Some((key, label))
}

/// The candidate facets of one contextual record, in order: its keywords,
/// mood, place hint, event type and people hints.
pub open spec fn facet_candidates(
    keywords: Seq<String>,
    mood: Option<Seq<char>>,
    place: Option<Seq<char>>,
    event: Option<Seq<char>>,
    people: Seq<String>,
) -> Seq<(ContextualFacetKind, Seq<char>)> {
    keywords.map_values(|k: String| (ContextualFacetKind::Keyword, k@)) + optional_facet(
        ContextualFacetKind::Mood,
        mood,
    ) + optional_facet(ContextualFacetKind::Place, place) + optional_facet(
        ContextualFacetKind::Event,
        event,
    ) + people.map_values(|p: String| (ContextualFacetKind::Person, p@))
}

/// A single optional candidate.
pub open spec fn optional_facet(kind: ContextualFacetKind, value: Option<Seq<char>>) -> Seq<
    (ContextualFacetKind, Seq<char>),
> {
    match value {
        Some(v) => seq![(kind, v)],
        None => Seq::empty(),
    }
}

/// The facet rows `(kind, key, label)` of candidates: blank values are
/// dropped and only the first value of each kind and key is kept.
pub open spec fn facet_rows(candidates: Seq<(ContextualFacetKind, Seq<char>)>) -> Seq<
    (ContextualFacetKind, Seq<char>, Seq<char>),
>
    decreases candidates.len(),
{
    if candidates.len() == 0 {
        Seq::empty()
    } else {
        let rows = facet_rows(candidates.drop_last());
        let (kind, value) = candidates.last();
        let label = squeeze(value);
        let key = lowercase(label);
        if label.len() == 0 || exists|j: int|
            0 <= j < rows.len() && (#[trigger] rows[j]).0 == kind && rows[j].1 == key {
            rows
        } else {
            rows.push((kind, key, label))
        }
    }
}

/// Every non-blank candidate is represented by a row of its kind and key,
/// and every row comes from a candidate of its kind whose collapsed value is
/// the row's label, with the lowercase label as key.
pub proof fn lemma_facet_rows_cover(c: Seq<(ContextualFacetKind, Seq<char>)>)
    ensures
        forall|i: int|
            0 <= i < c.len() && squeeze((#[trigger] c[i]).1).len() > 0 ==> exists|j: int|
                0 <= j < facet_rows(c).len() && (#[trigger] facet_rows(c)[j]).0 == c[i].0
                    && facet_rows(c)[j].1 == lowercase(squeeze(c[i].1)),
        forall|j: int|
            0 <= j < facet_rows(c).len() ==> exists|i: int|
                0 <= i < c.len() && (#[trigger] c[i]).0 == (#[trigger] facet_rows(c)[j]).0
                    && squeeze(c[i].1) == facet_rows(c)[j].2 && facet_rows(c)[j].1 == lowercase(
                    facet_rows(c)[j].2,
                ) && facet_rows(c)[j].2.len() > 0,
    decreases c.len(),
{
    if c.len() > 0 {
        let p = c.drop_last();
        lemma_facet_rows_cover(p);
        let rows = facet_rows(p);
        let out = facet_rows(c);
        let last = c.last();
        assert(forall|j: int| 0 <= j < rows.len() ==> #[trigger] out[j] == rows[j]);
        assert forall|i: int|
            0 <= i < c.len() && squeeze((#[trigger] c[i]).1).len() > 0 implies exists|j: int|
                0 <= j < out.len() && (#[trigger] out[j]).0 == c[i].0 && out[j].1 == lowercase(
                    squeeze(c[i].1),
                ) by {
            if i < p.len() {
                assert(c[i] == p[i]);
                let j = choose|j: int|
                    0 <= j < rows.len() && (#[trigger] rows[j]).0 == p[i].0 && rows[j].1
                        == lowercase(squeeze(p[i].1));
                assert(out[j] == rows[j]);
            } else {
                assert(c[i] == last);
                if exists|j: int|
                    0 <= j < rows.len() && (#[trigger] rows[j]).0 == last.0 && rows[j].1
                        == lowercase(squeeze(last.1)) {
                    let j = choose|j: int|
                        0 <= j < rows.len() && (#[trigger] rows[j]).0 == last.0 && rows[j].1
                            == lowercase(squeeze(last.1));
                    assert(out[j] == rows[j]);
                } else {
                    assert(out[rows.len() as int] == (last.0, lowercase(squeeze(last.1)), squeeze(
                        last.1,
                    )));
                }
            }
        }
        assert forall|j: int| 0 <= j < out.len() implies exists|i: int|
            0 <= i < c.len() && (#[trigger] c[i]).0 == (#[trigger] out[j]).0 && squeeze(c[i].1)
                == out[j].2 && out[j].1 == lowercase(out[j].2) && out[j].2.len() > 0 by {
            if j < rows.len() {
                assert(out[j] == rows[j]);
                let i = choose|i: int|
                    0 <= i < p.len() && (#[trigger] p[i]).0 == (#[trigger] rows[j]).0 && squeeze(
                        p[i].1,
                    ) == rows[j].2 && rows[j].1 == lowercase(rows[j].2) && rows[j].2.len() > 0;
                assert(c[i] == p[i]);
            } else {
                assert(c[c.len() - 1] == last);
            }
        }
    }
}

/// Some row has this kind and the key of this value.
pub open spec fn has_row_for(
    rows: Seq<(ContextualFacetKind, Seq<char>, Seq<char>)>,
    kind: ContextualFacetKind,
    value: Seq<char>,
) -> bool {
    exists|j: int|
        0 <= j < rows.len() && (#[trigger] rows[j]).0 == kind && rows[j].1 == lowercase(
            squeeze(value),
        )
}

/// Some row is exactly `(kind, key, label)` of this single value.
pub open spec fn has_exact_row(
    rows: Seq<(ContextualFacetKind, Seq<char>, Seq<char>)>,
    kind: ContextualFacetKind,
    value: Seq<char>,
) -> bool {
    exists|j: int|
        0 <= j < rows.len() && #[trigger] rows[j] == (kind, lowercase(squeeze(value)), squeeze(value))
}

/// Rows of one kind come only from this single optional value.
pub open spec fn rows_of_kind_from(
    rows: Seq<(ContextualFacetKind, Seq<char>, Seq<char>)>,
    kind: ContextualFacetKind,
    value: Option<Seq<char>>,
) -> bool {
    forall|j: int|
        0 <= j < rows.len() && (#[trigger] rows[j]).0 == kind ==> (value matches Some(v)
            && rows[j].2 == squeeze(v))
}

/// Rows of one kind come only from these values.
pub open spec fn rows_of_kind_among(
    rows: Seq<(ContextualFacetKind, Seq<char>, Seq<char>)>,
    kind: ContextualFacetKind,
    values: Seq<String>,
) -> bool {
    forall|j: int|
        0 <= j < rows.len() && (#[trigger] rows[j]).0 == kind ==> exists|t: int|
            0 <= t < values.len() && squeeze((#[trigger] values[t])@) == rows[j].2
}

/// The facets a contextual record yields, stated against its fields: every
/// non-blank keyword and person hint has a row of its kind and key; a
/// non-blank mood, place hint or event type has exactly its row; every row
/// of a kind comes from that kind's values; and every row has a non-blank
/// label whose lowercase form is its key.
pub open spec fn facets_of_record(
    keywords: Seq<String>,
    mood: Option<Seq<char>>,
    place: Option<Seq<char>>,
    event: Option<Seq<char>>,
    people: Seq<String>,
    rows: Seq<(ContextualFacetKind, Seq<char>, Seq<char>)>,
) -> bool {
    &&& forall|t: int|
        0 <= t < keywords.len() && squeeze((#[trigger] keywords[t])@).len() > 0 ==> has_row_for(
            rows,
            ContextualFacetKind::Keyword,
            keywords[t]@,
        )
    &&& forall|t: int|
        0 <= t < people.len() && squeeze((#[trigger] people[t])@).len() > 0 ==> has_row_for(
            rows,
            ContextualFacetKind::Person,
            people[t]@,
        )
    &&& (mood matches Some(v) ==> (squeeze(v).len() > 0 ==> has_exact_row(
        rows,
        ContextualFacetKind::Mood,
        v,
    )))
    &&& (place matches Some(v) ==> (squeeze(v).len() > 0 ==> has_exact_row(
        rows,
        ContextualFacetKind::Place,
        v,
    )))
    &&& (event matches Some(v) ==> (squeeze(v).len() > 0 ==> has_exact_row(
        rows,
        ContextualFacetKind::Event,
        v,
    )))
    &&& rows_of_kind_from(rows, ContextualFacetKind::Mood, mood)
    &&& rows_of_kind_from(rows, ContextualFacetKind::Place, place)
    &&& rows_of_kind_from(rows, ContextualFacetKind::Event, event)
    &&& rows_of_kind_among(rows, ContextualFacetKind::Keyword, keywords)
    &&& rows_of_kind_among(rows, ContextualFacetKind::Person, people)
    &&& forall|j: int|
        0 <= j < rows.len() ==> (#[trigger] rows[j]).2.len() > 0 && rows[j].1 == lowercase(
            rows[j].2,
        )
}

/// The number of candidates an optional value contributes.
pub open spec fn optional_len(value: Option<Seq<char>>) -> int {
    if value is Some {
        1
    } else {
        0
    }
}

/// Where each field of a record sits among its candidates, and that each
/// candidate kind comes from its own field.
proof fn lemma_candidate_layout(
    keywords: Seq<String>,
    mood: Option<Seq<char>>,
    place: Option<Seq<char>>,
    event: Option<Seq<char>>,
    people: Seq<String>,
)
    ensures
        ({
            let all = facet_candidates(keywords, mood, place, event, people);
            let na = keywords.len() as int;
            let nb = na + optional_len(mood);
            let nc = nb + optional_len(place);
            let nd = nc + optional_len(event);
            &&& all.len() == nd + people.len()
            &&& forall|t: int|
                0 <= t < keywords.len() ==> #[trigger] all[t] == (
                    ContextualFacetKind::Keyword,
                    keywords[t]@,
                )
            &&& forall|t: int|
                0 <= t < people.len() ==> #[trigger] all[nd + t] == (
                    ContextualFacetKind::Person,
                    people[t]@,
                )
            &&& (mood matches Some(v) ==> all[na] == (ContextualFacetKind::Mood, v))
            &&& (place matches Some(v) ==> all[nb] == (ContextualFacetKind::Place, v))
            &&& (event matches Some(v) ==> all[nc] == (ContextualFacetKind::Event, v))
            &&& forall|i: int|
                0 <= i < all.len() ==> {
                    &&& ((#[trigger] all[i]).0 == ContextualFacetKind::Keyword ==> i < na)
                    &&& (all[i].0 == ContextualFacetKind::Mood ==> mood == Some(all[i].1))
                    &&& (all[i].0 == ContextualFacetKind::Place ==> place == Some(all[i].1))
                    &&& (all[i].0 == ContextualFacetKind::Event ==> event == Some(all[i].1))
                    &&& (all[i].0 == ContextualFacetKind::Person ==> nd <= i)
                }
        }),
{
    let a = keywords.map_values(|k: String| (ContextualFacetKind::Keyword, k@));
    let b = optional_facet(ContextualFacetKind::Mood, mood);
    let c = optional_facet(ContextualFacetKind::Place, place);
    let d = optional_facet(ContextualFacetKind::Event, event);
    let e = people.map_values(|p: String| (ContextualFacetKind::Person, p@));
    let all = facet_candidates(keywords, mood, place, event, people);
    assert(all == a + b + c + d + e);
    let na = a.len() as int;
    let nb = na + b.len();
    let nc = nb + c.len();
    let nd = nc + d.len();
    assert forall|i: int| 0 <= i < all.len() implies {
        &&& (i < na ==> #[trigger] all[i] == a[i])
        &&& (na <= i < nb ==> all[i] == b[i - na])
        &&& (nb <= i < nc ==> all[i] == c[i - nb])
        &&& (nc <= i < nd ==> all[i] == d[i - nc])
        &&& (nd <= i ==> all[i] == e[i - nd])
    } by {}
    assert forall|t: int| 0 <= t < people.len() implies #[trigger] all[nd + t] == (
        ContextualFacetKind::Person,
        people[t]@,
    ) by {
        assert(all[nd + t] == e[t]);
    }
}

/// The rows a contextual record yields are its facets: each candidate kind
/// (keywords, mood, place, event, people) contributes its non-blank values,
/// and nothing else appears.
#[verifier::spinoff_prover]
pub proof fn lemma_record_facets(
    keywords: Seq<String>,
    mood: Option<Seq<char>>,
    place: Option<Seq<char>>,
    event: Option<Seq<char>>,
    people: Seq<String>,
)
    ensures
        facets_of_record(
            keywords,
            mood,
            place,
            event,
            people,
            facet_rows(facet_candidates(keywords, mood, place, event, people)),
        ),
{
    let all = facet_candidates(keywords, mood, place, event, people);
    let rows = facet_rows(all);
    lemma_facet_rows_cover(all);
    lemma_candidate_layout(keywords, mood, place, event, people);
    let na = keywords.len() as int;
    let nb = na + optional_len(mood);
    let nc = nb + optional_len(place);
    let nd = nc + optional_len(event);
    assert forall|t: int|
        0 <= t < keywords.len() && squeeze((#[trigger] keywords[t])@).len() > 0 implies has_row_for(
        rows,
        ContextualFacetKind::Keyword,
        keywords[t]@,
    ) by {
        assert(all[t] == (ContextualFacetKind::Keyword, keywords[t]@));
    }
    assert forall|t: int|
        0 <= t < people.len() && squeeze((#[trigger] people[t])@).len() > 0 implies has_row_for(
        rows,
        ContextualFacetKind::Person,
        people[t]@,
    ) by {
        assert(all[nd + t] == (ContextualFacetKind::Person, people[t]@));
    }
    lemma_rows_of_single_kind(all, rows, ContextualFacetKind::Mood, mood);
    lemma_rows_of_single_kind(all, rows, ContextualFacetKind::Place, place);
    lemma_rows_of_single_kind(all, rows, ContextualFacetKind::Event, event);
    assert forall|j: int| 0 <= j < rows.len() && (#[trigger] rows[j]).0 == ContextualFacetKind::Keyword implies exists|t: int|
        0 <= t < keywords.len() && squeeze((#[trigger] keywords[t])@) == rows[j].2 by {
        let i = choose|i: int|
            0 <= i < all.len() && (#[trigger] all[i]).0 == (#[trigger] rows[j]).0 && squeeze(
                all[i].1,
            ) == rows[j].2 && rows[j].1 == lowercase(rows[j].2) && rows[j].2.len() > 0;
        assert(all[i] == (ContextualFacetKind::Keyword, keywords[i]@));
    }
    assert forall|j: int| 0 <= j < rows.len() && (#[trigger] rows[j]).0 == ContextualFacetKind::Person implies exists|t: int|
        0 <= t < people.len() && squeeze((#[trigger] people[t])@) == rows[j].2 by {
        let i = choose|i: int|
            0 <= i < all.len() && (#[trigger] all[i]).0 == (#[trigger] rows[j]).0 && squeeze(
                all[i].1,
            ) == rows[j].2 && rows[j].1 == lowercase(rows[j].2) && rows[j].2.len() > 0;
        assert(all[nd + (i - nd)] == (ContextualFacetKind::Person, people[i - nd]@));
    }
    assert forall|j: int| 0 <= j < rows.len() implies (#[trigger] rows[j]).2.len() > 0 && rows[j].1
        == lowercase(rows[j].2) by {
        let i = choose|i: int|
            0 <= i < all.len() && (#[trigger] all[i]).0 == (#[trigger] rows[j]).0 && squeeze(
                all[i].1,
            ) == rows[j].2 && rows[j].1 == lowercase(rows[j].2) && rows[j].2.len() > 0;
    }
    lemma_single_exact(all, rows, ContextualFacetKind::Mood, mood, na);
    lemma_single_exact(all, rows, ContextualFacetKind::Place, place, nb);
    lemma_single_exact(all, rows, ContextualFacetKind::Event, event, nc);
}

/// Rows of a kind that only one optional value supplies come from that value.
proof fn lemma_rows_of_single_kind(
    all: Seq<(ContextualFacetKind, Seq<char>)>,
    rows: Seq<(ContextualFacetKind, Seq<char>, Seq<char>)>,
    kind: ContextualFacetKind,
    value: Option<Seq<char>>,
)
    requires
        rows == facet_rows(all),
        forall|i: int| 0 <= i < all.len() && (#[trigger] all[i]).0 == kind ==> value == Some(all[i].1),
    ensures
        rows_of_kind_from(rows, kind, value),
{
    lemma_facet_rows_cover(all);
    assert forall|j: int| 0 <= j < rows.len() && (#[trigger] rows[j]).0 == kind implies (
    value matches Some(v) && rows[j].2 == squeeze(v)) by {
        let i = choose|i: int|
            0 <= i < all.len() && (#[trigger] all[i]).0 == (#[trigger] rows[j]).0 && squeeze(
                all[i].1,
            ) == rows[j].2 && rows[j].1 == lowercase(rows[j].2) && rows[j].2.len() > 0;
        assert(value == Some(all[i].1));
    }
}

/// A value that is the only candidate of its kind, at position `at`, yields
/// exactly its own row.
proof fn lemma_single_exact(
    all: Seq<(ContextualFacetKind, Seq<char>)>,
    rows: Seq<(ContextualFacetKind, Seq<char>, Seq<char>)>,
    kind: ContextualFacetKind,
    value: Option<Seq<char>>,
    at: int,
)
    requires
        rows == facet_rows(all),
        value matches Some(v) ==> 0 <= at < all.len() && all[at] == (kind, v),
        rows_of_kind_from(rows, kind, value),
    ensures
        value matches Some(v) ==> (squeeze(v).len() > 0 ==> has_exact_row(rows, kind, v)),
{
    lemma_facet_rows_cover(all);
    if let Some(v) = value {
        if squeeze(v).len() > 0 {
            assert(squeeze(all[at].1).len() > 0);
            let j = choose|j: int|
                0 <= j < rows.len() && (#[trigger] rows[j]).0 == all[at].0 && rows[j].1
                    == lowercase(squeeze(all[at].1));
            assert(rows[j].2 == squeeze(v));
            assert(rows[j] == (kind, lowercase(squeeze(v)), squeeze(v)));
        }
    }
}

/// Row views of facet rows.
pub open spec fn row_views(rows: Seq<(ContextualFacetKind, String, String)>) -> Seq<
    (ContextualFacetKind, Seq<char>, Seq<char>),
> {
    rows.map_values(|r: (ContextualFacetKind, String, String)| (r.0, r.1@, r.2@))
}

fn contains_facet(rows: &Vec<(ContextualFacetKind, String, String)>, kind: ContextualFacetKind, key: &str) -> (r: bool)
    ensures
        r == exists|j: int|
            0 <= j < row_views(rows@).len() && (#[trigger] row_views(rows@)[j]).0 == kind
                && row_views(rows@)[j].1 == key@,
{
    let mut i: usize = 0;
    while i < rows.len()
        invariant
            i <= rows@.len(),
            forall|j: int|
                0 <= j < i ==> !((#[trigger] row_views(rows@)[j]).0 == kind && row_views(rows@)[j].1
                    == key@),
        decreases rows@.len() - i,
    {
        if rows[i].0 == kind && same_text(rows[i].1.as_str(), key) {
            assert(row_views(rows@)[i as int].0 == kind && row_views(rows@)[i as int].1 == key@);
            return true;
        }
        i = i + 1;
    }
    false
}

fn add_candidate(
    rows: &mut Vec<(ContextualFacetKind, String, String)>,
    kind: ContextualFacetKind,
    value: &str,
    Ghost(candidates): Ghost<Seq<(ContextualFacetKind, Seq<char>)>>,
)
    requires
        row_views(old(rows)@) == facet_rows(candidates),
    ensures
        row_views(final(rows)@) == facet_rows(candidates.push((kind, value@))),
{
    let ghost extended = candidates.push((kind, value@));
    proof {
        assert(extended.drop_last() =~= candidates);
    }
    match normalize_facet(value) {
        None => {},
        Some((key, label)) => {
            if !contains_facet(rows, kind, key.as_str()) {
                let ghost before = rows@;
                rows.push((kind, key, label));
                proof {
                    assert(row_views(rows@) =~= row_views(before).push((kind, key@, label@)));
                }
            }
        },
    }
}

/// Derives the facet rows of one contextual record: each candidate value is
/// normalized, blank values are dropped, and a `(kind, key)` pair is kept
/// only the first time it occurs.
pub fn insert_contextual_rows(
    keywords: &[String],
    mood: Option<&str>,
    place: Option<&str>,
    event: Option<&str>,
    people: &[String],
) -> (r: Vec<(ContextualFacetKind, String, String)>)
    ensures
        row_views(r@) == facet_rows(
            facet_candidates(
                keywords@,
                option_view(mood),
                option_view(place),
                option_view(event),
                people@,
            ),
        ),
        facets_of_record(
            keywords@,
            option_view(mood),
            option_view(place),
            option_view(event),
            people@,
            row_views(r@),
        ),
{
    let mut rows: Vec<(ContextualFacetKind, String, String)> = Vec::new();
    let ghost mut candidates: Seq<(ContextualFacetKind, Seq<char>)> = Seq::empty();
    let mut i: usize = 0;
    while i < keywords.len()
        invariant
            i <= keywords@.len(),
            candidates == keywords@.take(i as int).map_values(
                |k: String| (ContextualFacetKind::Keyword, k@),
            ),
            row_views(rows@) == facet_rows(candidates),
        decreases keywords@.len() - i,
    {
        add_candidate(&mut rows, ContextualFacetKind::Keyword, keywords[i].as_str(), Ghost(candidates));
        proof {
            candidates = candidates.push((ContextualFacetKind::Keyword, keywords@[i as int]@));
            assert(candidates =~= keywords@.take(i + 1).map_values(
                |k: String| (ContextualFacetKind::Keyword, k@),
            ));
        }
        i = i + 1;
    }
    proof {
        assert(keywords@.take(keywords@.len() as int) =~= keywords@);
    }
    let ghost after_keywords = candidates;
    match mood {
        Some(v) => {
            add_candidate(&mut rows, ContextualFacetKind::Mood, v, Ghost(candidates));
            proof { candidates = candidates.push((ContextualFacetKind::Mood, v@)); }
        },
        None => {},
    }
    match place {
        Some(v) => {
            add_candidate(&mut rows, ContextualFacetKind::Place, v, Ghost(candidates));
            proof { candidates = candidates.push((ContextualFacetKind::Place, v@)); }
        },
        None => {},
    }
    match event {
        Some(v) => {
            add_candidate(&mut rows, ContextualFacetKind::Event, v, Ghost(candidates));
            proof { candidates = candidates.push((ContextualFacetKind::Event, v@)); }
        },
        None => {},
    }
    let ghost before_people = candidates;
    proof {
        assert(before_people =~= after_keywords + optional_facet(
            ContextualFacetKind::Mood,
            option_view(mood),
        ) + optional_facet(ContextualFacetKind::Place, option_view(place)) + optional_facet(
            ContextualFacetKind::Event,
            option_view(event),
        ));
        assert(people@.take(0).map_values(|p: String| (ContextualFacetKind::Person, p@)) =~= Seq::<
            (ContextualFacetKind, Seq<char>),
        >::empty());
        assert(candidates =~= before_people + people@.take(0).map_values(
            |p: String| (ContextualFacetKind::Person, p@),
        ));
    }
    let mut k: usize = 0;
    while k < people.len()
        invariant
            k <= people@.len(),
            candidates == before_people + people@.take(k as int).map_values(
                |p: String| (ContextualFacetKind::Person, p@),
            ),
            row_views(rows@) == facet_rows(candidates),
        decreases people@.len() - k,
    {
        add_candidate(&mut rows, ContextualFacetKind::Person, people[k].as_str(), Ghost(candidates));
        proof {
            candidates = candidates.push((ContextualFacetKind::Person, people@[k as int]@));
            assert(candidates =~= before_people + people@.take(k + 1).map_values(
                |p: String| (ContextualFacetKind::Person, p@),
            ));
        }
        k = k + 1;
    }
    proof {
        assert(people@.take(people@.len() as int) =~= people@);
        assert(candidates =~= facet_candidates(
            keywords@,
            option_view(mood),
            option_view(place),
            option_view(event),
            people@,
        ));
        lemma_record_facets(
            keywords@,
            option_view(mood),
            option_view(place),
            option_view(event),
            people@,
        );
    }
    rows
}

/// The view of an optional text.
pub open spec fn option_view(value: Option<&str>) -> Option<Seq<char>> {
    match value {
        Some(v) => Some(v@),
        None => None,
    }
}

/// Contextual facets are derived only from contextual evidence; any other
/// kind is rejected before anything is written.
pub fn record_contextual_analysis(kind: AnalysisKind) -> (r: Result<(), CatalogError>)
    ensures
        r is Ok <==> kind == AnalysisKind::Contextual,
        r matches Err(e) ==> e.kind == CatalogErrorKind::Other && e.message@
            == "contextual facet append requires contextual analysis evidence"@,
{
    if kind != AnalysisKind::Contextual {
        return Err(other_error("contextual facet append requires contextual analysis evidence"));
    }
    Ok(())
}

/// Facet rows never repeat a `(kind, key)` pair, and every row has a
/// non-empty collapsed label whose lowercase form is its key.
pub proof fn lemma_facet_rows_are_distinct(candidates: Seq<(ContextualFacetKind, Seq<char>)>)
    ensures
        forall|i: int, j: int|
            0 <= i < j < facet_rows(candidates).len() ==> !((#[trigger] facet_rows(candidates)[i]).0
                == (#[trigger] facet_rows(candidates)[j]).0 && facet_rows(candidates)[i].1
                == facet_rows(candidates)[j].1),
        forall|i: int|
            0 <= i < facet_rows(candidates).len() ==> (#[trigger] facet_rows(candidates)[i]).2.len()
                > 0 && facet_rows(candidates)[i].1 == lowercase(facet_rows(candidates)[i].2),
    decreases candidates.len(),
{
    if candidates.len() > 0 {
        let prev = candidates.drop_last();
        lemma_facet_rows_are_distinct(prev);
        let rows = facet_rows(prev);
        let out = facet_rows(candidates);
        let (kind, value) = candidates.last();
        let label = squeeze(value);
        let key = lowercase(label);
        if label.len() == 0 || exists|j: int|
            0 <= j < rows.len() && (#[trigger] rows[j]).0 == kind && rows[j].1 == key {
            assert(out == rows);
        } else {
            assert(out == rows.push((kind, key, label)));
            assert forall|i: int, j: int| 0 <= i < j < out.len() implies !((#[trigger] out[i]).0
                == (#[trigger] out[j]).0 && out[i].1 == out[j].1) by {
                if j == rows.len() {
                    assert(out[i] == rows[i]);
                    assert(out[j] == (kind, key, label));
                } else {
                    assert(out[i] == rows[i]);
                    assert(out[j] == rows[j]);
                }
            }
            assert forall|i: int| 0 <= i < out.len() implies (#[trigger] out[i]).2.len() > 0
                && out[i].1 == lowercase(out[i].2) by {
                if i < rows.len() {
                    assert(out[i] == rows[i]);
                }
            }
        }
    }
}

/// One keyword browse facet over the newest contextual evidence.
#[derive(Debug, Clone, PartialEq, Eq)]
pub struct ContextualKeywordFacet {
    pub key: String,
    pub label: String,
    pub count: u64,
}

/// Builds one keyword facet from its aggregate row; a negative count is
/// refused.
pub fn keyword_facet_from_row(key: String, label: String, count: i64) -> (r: Result<
    ContextualKeywordFacet,
    CatalogError,
>)
    ensures
        count >= 0 ==> (r matches Ok(facet) && facet.key == key && facet.label == label
            && facet.count == count),
        count < 0 ==> (r matches Err(error) && error.kind == CatalogErrorKind::Other
            && error.message@ == "contextual keyword facet count was negative"@),
{
    if count < 0 {
        return Err(other_error("contextual keyword facet count was negative"));
    }
    Ok(ContextualKeywordFacet { key, label, count: count as u64 })
}

} // verus!
