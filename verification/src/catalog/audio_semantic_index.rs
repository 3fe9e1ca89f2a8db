//! Durable CLAP audio-segment vectors, kept apart from text semantic
//! evidence: which sources still need a vector, and the shape checks on
//! vectors, queries and stored rows. Scoring itself is floating point and
//! happens outside this library.

use vstd::prelude::*;

use crate::catalog::error::{other_error, CatalogError, CatalogErrorKind};
use crate::catalog::facets::{is_white_space, white_space};
use crate::catalog::identity::{uuid_parse, uuid_parse_failure, AssetId};
use crate::text::concat;

verus! {

/// Dimensions of one CLAP audio vector.
pub const CLAP_DIMENSIONS: usize = 512;

/// A short original asset eligible for CLAP indexing.
#[derive(Debug, Clone, PartialEq, Eq)]
pub struct AudioSemanticSource {
    pub asset_id: AssetId,
    pub source_revision: String,
    pub path: String,
    pub duration_millis: u64,
}

/// The source revision of a CLAP vector over content `content_hash`.
pub open spec fn clap_source_revision(content_hash: Seq<char>) -> Seq<char> {
    "echo:clap-audio:v1:"@ + content_hash
}

/// Decodes one source row `(id, content hash, path, duration)`. The id
/// must parse (`invalid asset id <id>: ...`) and the duration must not be
/// negative (`negative duration`).
pub fn audio_semantic_source(id: &str, content_hash: &str, path: String, duration_millis: i64) -> (r:
    Result<AudioSemanticSource, CatalogError>)
    ensures
        r is Ok <==> uuid_parse(id@) is Some && duration_millis >= 0,
        r matches Ok(source) ==> {
            &&& uuid_parse(id@) == Some(source.asset_id.value)
            &&& source.source_revision@ == clap_source_revision(content_hash@)
            &&& source.path == path
            &&& source.duration_millis == duration_millis
        },
        r matches Err(e) ==> e.kind == CatalogErrorKind::Other,
        uuid_parse(id@) is Some && duration_millis < 0 ==> (r matches Err(e) && e.message@
            == "negative duration"@),
        uuid_parse(id@) is None ==> (r matches Err(e) && e.message@ == "invalid asset id "@ + id@
            + ": "@ + uuid_parse_failure()),
{
    let asset_id = match AssetId::parse(id) {
        Ok(asset_id) => asset_id,
        Err(detail) => {
            let mut message = concat("invalid asset id ", id);
            message.append(": ");
            message.append(detail.as_str());
            return Err(CatalogError { kind: CatalogErrorKind::Other, message });
        },
    };
    if duration_millis < 0 {
        return Err(other_error("negative duration"));
    }
    Ok(
        AudioSemanticSource {
            asset_id,
            source_revision: concat("echo:clap-audio:v1:", content_hash),
            path,
            duration_millis: duration_millis as u64,
        },
    )
}

/// `text` is empty once surrounding white space is trimmed.
pub open spec fn is_blank(text: Seq<char>) -> bool {
    forall|i: int| 0 <= i < text.len() ==> is_white_space(#[trigger] text[i])
}

fn blank(text: &str) -> (r: bool)
    ensures
        r == is_blank(text@),
{
    let n = text.unicode_len();
    let mut i: usize = 0;
    while i < n
        invariant
            n == text@.len(),
            i <= n,
            forall|k: int| 0 <= k < i ==> is_white_space(#[trigger] text@[k]),
        decreases n - i,
    {
        if !white_space(text.get_char(i)) {
            return false;
        }
        i = i + 1;
    }
    true
}

/// Checks one audio vector before it is published: a named embedding space,
/// exactly [`CLAP_DIMENSIONS`] values, all finite (`all_finite` is that
/// test on the values); otherwise `invalid CLAP audio embedding`. The
/// segment's end must fit the catalog (`duration exceeds catalog range`).
/// On success the result is the stored segment end.
pub fn validate_audio_embedding(
    source: &AudioSemanticSource,
    embedding_space: &str,
    dimensions: usize,
    all_finite: bool,
) -> (r: Result<i64, CatalogError>)
    ensures
        r is Ok <==> !is_blank(embedding_space@) && dimensions == CLAP_DIMENSIONS && all_finite
            && source.duration_millis <= i64::MAX,
        r matches Ok(end) ==> end == source.duration_millis,
        r matches Err(e) ==> e.kind == CatalogErrorKind::Other,
        (is_blank(embedding_space@) || dimensions != CLAP_DIMENSIONS || !all_finite) ==> (r matches Err(
            e,
        ) && e.message@ == "invalid CLAP audio embedding"@),
        !(is_blank(embedding_space@) || dimensions != CLAP_DIMENSIONS || !all_finite)
            && source.duration_millis > i64::MAX ==> (r matches Err(e) && e.message@
            == "duration exceeds catalog range"@),
{
    if blank(embedding_space) || dimensions != CLAP_DIMENSIONS || !all_finite {
        return Err(other_error("invalid CLAP audio embedding"));
    }
    if source.duration_millis > i64::MAX as u64 {
        return Err(other_error("duration exceeds catalog range"));
    }
    Ok(source.duration_millis as i64)
}

/// Checks a search query: exactly [`CLAP_DIMENSIONS`] finite values in a
/// named embedding space; otherwise `invalid CLAP audio query`.
pub fn validate_audio_query(dimensions: usize, all_finite: bool, embedding_space: &str) -> (r:
    Result<(), CatalogError>)
    ensures
        r is Ok <==> dimensions == CLAP_DIMENSIONS && all_finite && !is_blank(embedding_space@),
        r matches Err(e) ==> e.kind == CatalogErrorKind::Other && e.message@
            == "invalid CLAP audio query"@,
{
    if dimensions != CLAP_DIMENSIONS || !all_finite || blank(embedding_space) {
        return Err(other_error("invalid CLAP audio query"));
    }
    Ok(())
}

/// Checks one stored vector row read back for scoring: the vector holds
/// four bytes per dimension (`stored CLAP vector length is invalid`), and
/// the segment start is not negative (`negative segment start`). The result
/// is the segment start.
pub fn stored_audio_segment(vector_bytes: usize, start_millis: i64) -> (r: Result<u64, CatalogError>)
    ensures
        r is Ok <==> vector_bytes == 4 * CLAP_DIMENSIONS && start_millis >= 0,
        r matches Ok(start) ==> start == start_millis,
        r matches Err(e) ==> e.kind == CatalogErrorKind::Other,
        vector_bytes != 4 * CLAP_DIMENSIONS ==> (r matches Err(e) && e.message@
            == "stored CLAP vector length is invalid"@),
        vector_bytes == 4 * CLAP_DIMENSIONS && start_millis < 0 ==> (r matches Err(e)
            && e.message@ == "negative segment start"@),
{
    if vector_bytes != 4 * CLAP_DIMENSIONS {
        return Err(other_error("stored CLAP vector length is invalid"));
    }
    if start_millis < 0 {
        return Err(other_error("negative segment start"));
    }
    Ok(start_millis as u64)
}

} // verus!
