//! Immutable generation receipts. A receipt binds one registered audio
//! result to the runtime job that produced it; unlike a source declaration
//! it cannot be cleared, and it is not analysis evidence.

use vstd::prelude::*;

use crate::catalog::error::{other_error, CatalogError, CatalogErrorKind};
use crate::json::{json_integer_at, json_pointer_integer, json_pointer_text, json_text_at};
use crate::text::{owned, same_text};

verus! {

/// The fields of a generation receipt that admission reads: top-level
/// `schema_version`, `output_hash` and `duration_millis`, and the
/// `runtime.job` fields. A field that is absent or of another JSON type is
/// `None`.
#[derive(Debug, Clone, PartialEq, Eq)]
pub struct GenerationReceipt {
    pub schema_version: Option<i64>,
    pub output_hash: Option<String>,
    pub duration_millis: Option<i64>,
    pub job_id: Option<String>,
    pub app_id: Option<String>,
    pub intent: Option<String>,
    pub state: Option<String>,
    pub physical_model: Option<String>,
    pub model_build: Option<String>,
}

/// `field` holds exactly `text`.
pub open spec fn holds_text(field: Option<String>, text: Seq<char>) -> bool {
    field matches Some(value) && value@ == text
}

/// `field` holds a non-empty text.
pub open spec fn holds_some_text(field: Option<String>) -> bool {
    field matches Some(value) && value@.len() > 0
}

/// A receipt describes the registered result: version 1, the result's
/// content hash and positive duration, and a succeeded `speech.synthesize`
/// job of the `echo` app naming its physical model and build.
pub open spec fn receipt_matches(
    receipt: GenerationReceipt,
    content_hash: Seq<char>,
    duration_millis: i64,
) -> bool {
    &&& receipt.schema_version == Some(1i64)
    &&& holds_text(receipt.output_hash, content_hash)
    &&& receipt.duration_millis == Some(duration_millis)
    &&& duration_millis > 0
    &&& holds_text(receipt.app_id, "echo"@)
    &&& holds_text(receipt.intent, "speech.synthesize"@)
    &&& holds_text(receipt.state, "succeeded"@)
    &&& holds_some_text(receipt.physical_model)
    &&& holds_some_text(receipt.model_build)
}

/// An optional text by its characters.
pub open spec fn text_view(field: Option<String>) -> Option<Seq<char>> {
    match field {
        Some(value) => Some(value@),
        None => None,
    }
}

/// `receipt` holds the fields the receipt document `json` has at the
/// places admission reads.
pub open spec fn fields_of(json: Seq<char>, receipt: GenerationReceipt) -> bool {
    &&& receipt.schema_version == json_pointer_integer(json, "/schema_version"@)
    &&& text_view(receipt.output_hash) == json_pointer_text(json, "/output_hash"@)
    &&& receipt.duration_millis == json_pointer_integer(json, "/duration_millis"@)
    &&& text_view(receipt.job_id) == json_pointer_text(json, "/runtime/job/id"@)
    &&& text_view(receipt.app_id) == json_pointer_text(json, "/runtime/job/app_id"@)
    &&& text_view(receipt.intent) == json_pointer_text(json, "/runtime/job/intent"@)
    &&& text_view(receipt.state) == json_pointer_text(json, "/runtime/job/state"@)
    &&& text_view(receipt.physical_model) == json_pointer_text(json, "/runtime/job/physical_model"@)
    &&& text_view(receipt.model_build) == json_pointer_text(json, "/runtime/job/model_build"@)
}

/// Reads the fields admission checks from a receipt document.
pub fn receipt_fields(json: &str) -> (r: GenerationReceipt)
    ensures
        fields_of(json@, r),
{
    GenerationReceipt {
        schema_version: json_integer_at(json, "/schema_version"),
        output_hash: json_text_at(json, "/output_hash"),
        duration_millis: json_integer_at(json, "/duration_millis"),
        job_id: json_text_at(json, "/runtime/job/id"),
        app_id: json_text_at(json, "/runtime/job/app_id"),
        intent: json_text_at(json, "/runtime/job/intent"),
        state: json_text_at(json, "/runtime/job/state"),
        physical_model: json_text_at(json, "/runtime/job/physical_model"),
        model_build: json_text_at(json, "/runtime/job/model_build"),
    }
}

/// Admits the receipt document `json` for the registered result whose
/// stored content hash and duration are given: its fields are read and
/// checked as [`validate_generation_receipt`] does.
pub fn admit_generation_receipt(json: &str, content_hash: &str, duration_millis: i64) -> (r: Result<
    String,
    CatalogError,
>)
    ensures
        exists|receipt: GenerationReceipt|
            fields_of(json@, receipt) && {
                &&& (r is Ok <==> holds_some_text(receipt.job_id) && receipt_matches(
                    receipt,
                    content_hash@,
                    duration_millis,
                ))
                &&& (r matches Ok(job_id) ==> receipt.job_id matches Some(id) && job_id@ == id@)
                &&& (r matches Err(e) ==> e.kind == CatalogErrorKind::Other)
            },
{
    let receipt = receipt_fields(json);
    validate_generation_receipt(&receipt, content_hash, duration_millis)
}

fn field_is(field: &Option<String>, text: &str) -> (r: bool)
    ensures
        r == holds_text(*field, text@),
{
    match field {
        Some(value) => same_text(value.as_str(), text),
        None => false,
    }
}

fn field_is_filled(field: &Option<String>) -> (r: bool)
    ensures
        r == holds_some_text(*field),
{
    match field {
        Some(value) => value.unicode_len() > 0,
        None => false,
    }
}

/// Admits a receipt for the registered result whose stored content hash and
/// duration are given, returning the runtime job id it binds. A receipt
/// without a job id is `missing generation Job`; one that does not describe
/// the result is `invalid generation receipt`.
pub fn validate_generation_receipt(
    receipt: &GenerationReceipt,
    content_hash: &str,
    duration_millis: i64,
) -> (r: Result<String, CatalogError>)
    ensures
        r is Ok <==> holds_some_text(receipt.job_id) && receipt_matches(
            *receipt,
            content_hash@,
            duration_millis,
        ),
        r matches Ok(job_id) ==> receipt.job_id matches Some(id) && job_id@ == id@,
        r matches Err(e) ==> e.kind == CatalogErrorKind::Other,
        !holds_some_text(receipt.job_id) ==> (r matches Err(e) && e.message@
            == "missing generation Job"@),
        holds_some_text(receipt.job_id) && !receipt_matches(
            *receipt,
            content_hash@,
            duration_millis,
        ) ==> (r matches Err(e) && e.message@ == "invalid generation receipt"@),
{
    let job_id = match &receipt.job_id {
        Some(id) => {
            if id.unicode_len() == 0 {
                return Err(other_error("missing generation Job"));
            }
            id
        },
        None => {
            return Err(other_error("missing generation Job"));
        },
    };
    let schema_ok = match receipt.schema_version {
        Some(version) => version == 1,
        None => false,
    };
    let duration_ok = match receipt.duration_millis {
        Some(d) => d == duration_millis,
        None => false,
    };
    if !schema_ok || !field_is(&receipt.output_hash, content_hash) || !duration_ok
        || duration_millis <= 0 || !field_is(&receipt.app_id, "echo") || !field_is(
        &receipt.intent,
        "speech.synthesize",
    ) || !field_is(&receipt.state, "succeeded") || !field_is_filled(&receipt.physical_model)
        || !field_is_filled(&receipt.model_build) {
        return Err(other_error("invalid generation receipt"));
    }
    Ok(owned(job_id.as_str()))
}

/// After the idempotent insert, the receipt stored under the job id must be
/// this result's: same asset and same canonical receipt text. Otherwise the
/// job already belongs to another result.
pub fn check_receipt_owner(
    stored_asset_id: &str,
    stored_receipt: &str,
    asset_id: &str,
    receipt: &str,
) -> (r: Result<(), CatalogError>)
    ensures
        r is Ok <==> stored_asset_id@ == asset_id@ && stored_receipt@ == receipt@,
        r matches Err(e) ==> e.kind == CatalogErrorKind::Other && e.message@
            == "generation Job already belongs to another result"@,
{
    if same_text(stored_asset_id, asset_id) && same_text(stored_receipt, receipt) {
        Ok(())
    } else {
        Err(other_error("generation Job already belongs to another result"))
    }
}

} // verus!
