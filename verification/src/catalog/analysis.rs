//! Append-only analysis evidence: kinds, their stored names, and the
//! analysis level each kind satisfies.

use vstd::prelude::*;

use crate::catalog::error::CatalogError;
use crate::json::{json_parse_failure, json_syntax_error, json_text_is_valid};
use crate::text::{concat, owned, same_text};

verus! {

/// Kind of one analysis record.
#[derive(Debug, Clone, Copy, PartialEq, Eq, Structural)]
pub enum AnalysisKind {
    Transcript,
    Speakers,
    Emotions,
    AudioEvents,
    Embedding,
    Semantic,
    Contextual,
}

/// Highest analysis level an asset satisfies, stored as its ordinal.
#[derive(Debug, Clone, Copy, PartialEq, Eq, Structural)]
pub enum AnalysisLevel {
    /// Registered, nothing analyzed yet.
    Registered,
    /// Speech recognized.
    Asr,
    /// Speakers, emotions or audio events understood.
    Understanding,
    /// Embedded for semantic search.
    SemanticIndex,
    /// Contextually understood.
    Contextual,
}

/// The stored ordinal of a level.
pub open spec fn level_ordinal(level: AnalysisLevel) -> u8 {
    match level {
        AnalysisLevel::Registered => 0,
        AnalysisLevel::Asr => 1,
        AnalysisLevel::Understanding => 2,
        AnalysisLevel::SemanticIndex => 3,
        AnalysisLevel::Contextual => 4,
    }
}

/// The level a stored ordinal names, if any.
pub open spec fn level_with_ordinal(value: u8) -> Option<AnalysisLevel> {
    if value == 0 {
        Some(AnalysisLevel::Registered)
    } else if value == 1 {
        Some(AnalysisLevel::Asr)
    } else if value == 2 {
        Some(AnalysisLevel::Understanding)
    } else if value == 3 {
        Some(AnalysisLevel::SemanticIndex)
    } else if value == 4 {
        Some(AnalysisLevel::Contextual)
    } else {
        None
    }
}

impl AnalysisLevel {
    /// The stored ordinal of this level.
    pub fn ordinal(self) -> (r: u8)
        ensures
            r == level_ordinal(self),
    {
        match self {
            AnalysisLevel::Registered => 0,
            AnalysisLevel::Asr => 1,
            AnalysisLevel::Understanding => 2,
            AnalysisLevel::SemanticIndex => 3,
            AnalysisLevel::Contextual => 4,
        }
    }

    /// The level a stored ordinal names; other ordinals are invalid.
    pub fn from_ordinal(value: u8) -> (r: Option<AnalysisLevel>)
        ensures
            r == level_with_ordinal(value),
    {
        if value == 0 {
            Some(AnalysisLevel::Registered)
        } else if value == 1 {
            Some(AnalysisLevel::Asr)
        } else if value == 2 {
            Some(AnalysisLevel::Understanding)
        } else if value == 3 {
            Some(AnalysisLevel::SemanticIndex)
        } else if value == 4 {
            Some(AnalysisLevel::Contextual)
        } else {
            None
        }
    }
}

/// The level that evidence of a kind satisfies.
pub open spec fn level_for(kind: AnalysisKind) -> AnalysisLevel {
    match kind {
        AnalysisKind::Transcript => AnalysisLevel::Asr,
        AnalysisKind::Speakers | AnalysisKind::Emotions | AnalysisKind::AudioEvents => AnalysisLevel::Understanding,
        AnalysisKind::Embedding | AnalysisKind::Semantic => AnalysisLevel::SemanticIndex,
        AnalysisKind::Contextual => AnalysisLevel::Contextual,
    }
}

/// The level ladder, by stored ordinal: a transcript makes an asset
/// recognized (1); speakers, emotions or audio events understood (2); an
/// embedding or semantic record semantically indexed (3); contextual
/// evidence contextually understood (4).
pub open spec fn level_ladder(kind: AnalysisKind, ordinal: u8) -> bool {
    &&& kind == AnalysisKind::Transcript ==> ordinal == 1
    &&& (kind == AnalysisKind::Speakers || kind == AnalysisKind::Emotions || kind
        == AnalysisKind::AudioEvents) ==> ordinal == 2
    &&& (kind == AnalysisKind::Embedding || kind == AnalysisKind::Semantic) ==> ordinal == 3
    &&& kind == AnalysisKind::Contextual ==> ordinal == 4
}

/// Every kind of evidence satisfies the level the ladder names for it, and
/// the named levels rise along the ladder: recognition below understanding
/// below semantic indexing below contextual understanding.
pub proof fn lemma_level_ladder(kind: AnalysisKind)
    ensures
        level_ladder(kind, level_ordinal(level_for(kind))),
        level_ordinal(level_for(AnalysisKind::Transcript)) < level_ordinal(
            level_for(AnalysisKind::Speakers),
        ),
        level_ordinal(level_for(AnalysisKind::Speakers)) < level_ordinal(
            level_for(AnalysisKind::Embedding),
        ),
        level_ordinal(level_for(AnalysisKind::Embedding)) < level_ordinal(
            level_for(AnalysisKind::Contextual),
        ),
{
}

/// The level that evidence of `kind` satisfies.
pub fn minimum_level_for(kind: AnalysisKind) -> (r: AnalysisLevel)
    ensures
        r == level_for(kind),
        level_ladder(kind, level_ordinal(r)),
{
    proof {
        lemma_level_ladder(kind);
    }
    match kind {
        AnalysisKind::Transcript => AnalysisLevel::Asr,
        AnalysisKind::Speakers => AnalysisLevel::Understanding,
        AnalysisKind::Emotions => AnalysisLevel::Understanding,
        AnalysisKind::AudioEvents => AnalysisLevel::Understanding,
        AnalysisKind::Embedding => AnalysisLevel::SemanticIndex,
        AnalysisKind::Semantic => AnalysisLevel::SemanticIndex,
        AnalysisKind::Contextual => AnalysisLevel::Contextual,
    }
}

/// The stored level after appending evidence of `kind`: appending never
/// lowers the level and always reaches the level the kind satisfies.
pub fn lifted_level(current: u8, kind: AnalysisKind) -> (r: u8)
    ensures
        r == (if current >= level_ordinal(level_for(kind)) {
            current
        } else {
            level_ordinal(level_for(kind))
        }),
        r >= current,
        r >= level_ordinal(level_for(kind)),
        forall|level: u8| level_ladder(kind, level) ==> r >= level,
        r == current || level_ladder(kind, r),
{
    proof {
        lemma_level_ladder(kind);
    }
    let level = minimum_level_for(kind).ordinal();
    if current >= level {
        current
    } else {
        level
    }
}

/// The stored text of a kind.
pub open spec fn analysis_kind_text(kind: AnalysisKind) -> Seq<char> {
    match kind {
        AnalysisKind::Transcript => "transcript"@,
        AnalysisKind::Speakers => "speakers"@,
        AnalysisKind::Emotions => "emotions"@,
        AnalysisKind::AudioEvents => "audio_events"@,
        AnalysisKind::Embedding => "embedding"@,
        AnalysisKind::Semantic => "semantic"@,
        AnalysisKind::Contextual => "contextual"@,
    }
}

/// The kind a stored text names, if any.
pub open spec fn analysis_kind_named(text: Seq<char>) -> Option<AnalysisKind> {
    if text == "transcript"@ {
        Some(AnalysisKind::Transcript)
    } else if text == "speakers"@ {
        Some(AnalysisKind::Speakers)
    } else if text == "emotions"@ {
        Some(AnalysisKind::Emotions)
    } else if text == "audio_events"@ {
        Some(AnalysisKind::AudioEvents)
    } else if text == "embedding"@ {
        Some(AnalysisKind::Embedding)
    } else if text == "semantic"@ {
        Some(AnalysisKind::Semantic)
    } else if text == "contextual"@ {
        Some(AnalysisKind::Contextual)
    } else {
        None
    }
}

/// The stored text of `kind`.
pub fn kind_text(kind: AnalysisKind) -> (r: &'static str)
    ensures
        r@ == analysis_kind_text(kind),
{
    match kind {
        AnalysisKind::Transcript => "transcript",
        AnalysisKind::Speakers => "speakers",
        AnalysisKind::Emotions => "emotions",
        AnalysisKind::AudioEvents => "audio_events",
        AnalysisKind::Embedding => "embedding",
        AnalysisKind::Semantic => "semantic",
        AnalysisKind::Contextual => "contextual",
    }
}

/// The kind a stored text names; unknown texts give `None`.
pub fn parse_kind(text: &str) -> (r: Option<AnalysisKind>)
    ensures
        r == analysis_kind_named(text@),
{
    if same_text(text, "transcript") {
        Some(AnalysisKind::Transcript)
    } else if same_text(text, "speakers") {
        Some(AnalysisKind::Speakers)
    } else if same_text(text, "emotions") {
        Some(AnalysisKind::Emotions)
    } else if same_text(text, "audio_events") {
        Some(AnalysisKind::AudioEvents)
    } else if same_text(text, "embedding") {
        Some(AnalysisKind::Embedding)
    } else if same_text(text, "semantic") {
        Some(AnalysisKind::Semantic)
    } else if same_text(text, "contextual") {
        Some(AnalysisKind::Contextual)
    } else {
        None
    }
}

/// Every kind's stored text names that kind again.
pub proof fn lemma_analysis_kind_text_round_trip(kind: AnalysisKind)
    ensures
        analysis_kind_named(analysis_kind_text(kind)) == Some(kind),
{
    reveal_strlit("transcript");
    reveal_strlit("speakers");
    reveal_strlit("emotions");
    reveal_strlit("audio_events");
    reveal_strlit("embedding");
    reveal_strlit("semantic");
    reveal_strlit("contextual");
    assert("transcript"@.len() == 10);
    assert("speakers"@.len() == 8);
    assert("emotions"@.len() == 8);
    assert("audio_events"@.len() == 12);
    assert("embedding"@.len() == 9);
    assert("semantic"@.len() == 8);
    assert("contextual"@.len() == 10);
    assert("speakers"@[0] != "emotions"@[0]);
    assert("speakers"@[1] != "semantic"@[1]);
    assert("emotions"@[1] != "semantic"@[1]);
    assert("transcript"@[0] != "contextual"@[0]);
}

/// Every level's ordinal names that level again.
pub proof fn lemma_level_ordinal_round_trip(level: AnalysisLevel)
    ensures
        level_with_ordinal(level_ordinal(level)) == Some(level),
{
}

/// Query failure vocabulary.
#[derive(Debug, Clone, Copy, PartialEq, Eq, Structural)]
pub enum AnalysisQueryErrorKind {
    /// The stored JSON payload of a record could not be parsed.
    CorruptPayload,
}

/// A failure while reading analysis records back.
#[derive(Debug, Clone)]
pub struct AnalysisQueryError {
    pub kind: AnalysisQueryErrorKind,
    pub message: String,
}

impl AnalysisQueryError {
    /// The displayed text of this failure:
    /// `analysis query failed: CorruptPayload: <message>`.
    pub fn to_text(&self) -> (r: String)
        ensures
            r@ == "analysis query failed: CorruptPayload: "@ + self.message@,
    {
        let mut r = crate::text::owned("analysis query failed: CorruptPayload: ");
        r.append(self.message.as_str());
        r
    }

    /// A catalog failure met while reading records: a corrupt payload with
    /// the catalog's message.
    pub fn from_catalog(error: CatalogError) -> (r: AnalysisQueryError)
        ensures
            r.kind == AnalysisQueryErrorKind::CorruptPayload,
            r.message == error.message,
    {
        AnalysisQueryError { kind: AnalysisQueryErrorKind::CorruptPayload, message: error.message }
    }
}

/// Decodes the stored kind and payload of one analysis record row. The
/// payload must be a JSON document and the kind a known kind name; either
/// failure is a corrupt payload, an unknown kind reported by name.
pub fn decode_analysis_row(kind: &str, value: &str) -> (r: Result<AnalysisKind, AnalysisQueryError>)
    ensures
        r is Ok <==> (json_text_is_valid(value@) && analysis_kind_named(kind@) is Some),
        r matches Ok(k) ==> analysis_kind_named(kind@) == Some(k),
        r matches Err(e) ==> e.kind == AnalysisQueryErrorKind::CorruptPayload,
        (json_text_is_valid(value@) && analysis_kind_named(kind@) is None) ==> (r matches Err(e)
            && e.message@ == "unknown analysis kind "@ + kind@),
        !json_text_is_valid(value@) ==> (r matches Err(e) && Some(e.message@) == json_parse_failure(
            value@,
        )),
{
    if let Some(message) = json_syntax_error(value) {
        return Err(AnalysisQueryError { kind: AnalysisQueryErrorKind::CorruptPayload, message });
    }
    match parse_kind(kind) {
        Some(parsed) => Ok(parsed),
        None => Err(
            AnalysisQueryError {
                kind: AnalysisQueryErrorKind::CorruptPayload,
                message: concat("unknown analysis kind ", kind),
            },
        ),
    }
}

/// One appended piece of analysis evidence: its kind and JSON payload.
#[derive(Debug, Clone, PartialEq, Eq)]
pub struct Evidence {
    pub kind: AnalysisKind,
    pub value: String,
}

/// An asset's analysis evidence in append order, with its level
/// projection. Evidence is never updated or deleted: a model upgrade
/// appends a new record.
#[derive(Debug, Clone)]
pub struct AnalysisLog {
    pub records: Vec<Evidence>,
    pub max_level: u8,
}

/// The position of the newest evidence of `kind` among `records`.
pub open spec fn newest_of_kind(records: Seq<Evidence>, kind: AnalysisKind) -> Option<int>
    decreases records.len(),
{
    if records.len() == 0 {
        None
    } else if records.last().kind == kind {
        Some(records.len() - 1)
    } else {
        newest_of_kind(records.drop_last(), kind)
    }
}

impl AnalysisLog {
    /// The log of an asset just registered.
    pub fn new() -> (r: AnalysisLog)
        ensures
            r.records@.len() == 0,
            r.max_level == level_ordinal(AnalysisLevel::Registered),
    {
        AnalysisLog { records: Vec::new(), max_level: AnalysisLevel::Registered.ordinal() }
    }

    /// Appends one record and lifts the highest satisfied level: every
    /// earlier record stays as it was.
    pub fn record_analysis(&mut self, kind: AnalysisKind, value: &str)
        ensures
            final(self).records@.len() == old(self).records@.len() + 1,
            final(self).records@.drop_last() == old(self).records@,
            final(self).records@.last().kind == kind,
            final(self).records@.last().value@ == value@,
            final(self).max_level == (if old(self).max_level >= level_ordinal(level_for(kind)) {
                old(self).max_level
            } else {
                level_ordinal(level_for(kind))
            }),
            final(self).max_level >= old(self).max_level,
            forall|level: u8| level_ladder(kind, level) ==> final(self).max_level >= level,
    {
        proof {
            lemma_level_ladder(kind);
        }
        self.records.push(Evidence { kind, value: owned(value) });
        self.max_level = lifted_level(self.max_level, kind);
        assert(final(self).records@.drop_last() =~= old(self).records@);
    }

    /// The payload of the newest evidence of `kind`, the value readers
    /// project when one value is needed.
    pub fn newest(&self, kind: AnalysisKind) -> (r: Option<String>)
        ensures
            match newest_of_kind(self.records@, kind) {
                Some(i) => r matches Some(v) && v@ == self.records@[i].value@,
                None => r is None,
            },
    {
        let mut i: usize = self.records.len();
        assert(self.records@.take(i as int) =~= self.records@);
        while i > 0
            invariant
                i <= self.records@.len(),
                newest_of_kind(self.records@, kind) == newest_of_kind(self.records@.take(i as int), kind),
            decreases i,
        {
            proof {
                assert(self.records@.take(i as int).drop_last() =~= self.records@.take(i - 1));
            }
            if self.records[i - 1].kind == kind {
                return Some(owned(self.records[i - 1].value.as_str()));
            }
            i = i - 1;
        }
        None
    }
}

/// Appending evidence makes it the newest of its kind and leaves the
/// newest evidence of every other kind where it was.
pub proof fn lemma_append_is_newest(records: Seq<Evidence>, evidence: Evidence, kind: AnalysisKind)
    ensures
        newest_of_kind(records.push(evidence), evidence.kind) == Some(records.len() as int),
        kind != evidence.kind ==> newest_of_kind(records.push(evidence), kind) == newest_of_kind(
            records,
            kind,
        ),
{
    assert(records.push(evidence).drop_last() =~= records);
}

} // verus!
