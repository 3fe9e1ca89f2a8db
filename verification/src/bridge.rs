//! Vocabulary of the audio-engine boundary: the requests the engine takes
//! and the evidence it returns. The engine itself runs outside this
//! library.

use vstd::prelude::*;

use crate::text::owned;

verus! {

/// Classification shared by bridge failures.
#[derive(Debug, Clone, Copy, PartialEq, Eq, Structural)]
pub enum BridgeErrorKind {
    /// The audio engine refused the request.
    EngineRejected,
    /// Another failure, with the underlying message preserved.
    Other,
}

/// The name a failure kind is displayed with.
pub open spec fn bridge_error_kind_name(kind: BridgeErrorKind) -> Seq<char> {
    match kind {
        BridgeErrorKind::EngineRejected => "EngineRejected"@,
        BridgeErrorKind::Other => "Other"@,
    }
}

/// All bridge failures.
#[derive(Debug, Clone)]
pub struct BridgeError {
    pub kind: BridgeErrorKind,
    pub message: String,
}

impl BridgeError {
    /// The displayed text of this failure: `<kind>: <message>`.
    pub fn to_text(&self) -> (r: String)
        ensures
            r@ == bridge_error_kind_name(self.kind) + ": "@ + self.message@,
    {
        let name = match self.kind {
            BridgeErrorKind::EngineRejected => "EngineRejected",
            BridgeErrorKind::Other => "Other",
        };
        let mut r = crate::text::concat(name, ": ");
        r.append(self.message.as_str());
        r
    }

    /// Creates a bridge error.
    pub fn new(kind: BridgeErrorKind, message: &str) -> (r: BridgeError)
        ensures
            r.kind == kind,
            r.message@ == message@,
    {
        BridgeError { kind, message: owned(message) }
    }

    /// An engine rejection carrying the engine's message.
    pub fn engine_rejected(message: String) -> (r: BridgeError)
        ensures
            r.kind == BridgeErrorKind::EngineRejected,
            r.message == message,
    {
        BridgeError { kind: BridgeErrorKind::EngineRejected, message }
    }
}

/// Explicit interpretation requested for one source WAV. Four-channel files
/// are never inferred to be true stereo: the caller opts into the
/// LL/LR/RL/RR plane contract.
#[derive(Debug, Clone, Copy, PartialEq, Eq, Structural)]
pub enum ImpulseResponsePreparationLayout {
    MonoOrStereo,
    TrueStereoLlLrRlRr,
}

impl ImpulseResponsePreparationLayout {
    /// The code the engine reads for this layout.
    pub fn wire_code(self) -> (r: u8)
        ensures
            r == (match self {
                ImpulseResponsePreparationLayout::MonoOrStereo => 0u8,
                ImpulseResponsePreparationLayout::TrueStereoLlLrRlRr => 1u8,
            }),
    {
        match self {
            ImpulseResponsePreparationLayout::MonoOrStereo => 0,
            ImpulseResponsePreparationLayout::TrueStereoLlLrRlRr => 1,
        }
    }
}

/// Evidence for one canonical 48 kHz impulse-response artifact.
#[derive(Debug, Clone, Copy, PartialEq, Eq, Structural)]
pub struct PreparedImpulseResponse {
    pub preparation_version: u32,
    pub source_sample_rate: u32,
    pub channel_count: u32,
    pub source_frame_count: u64,
    pub prepared_frame_count: u64,
    pub avcodec_version: u32,
    pub swresample_version: u32,
    pub size_bytes: u64,
}

/// Metadata of one bounded analysis proxy written by the audio engine.
#[derive(Debug, Clone, Copy, PartialEq, Eq, Structural)]
pub struct AnalysisProxy {
    pub sample_rate: u32,
    pub channel_count: u32,
    pub frame_count: u64,
    pub size_bytes: u64,
}

/// One bounded metadata entry from the original container or stream.
#[derive(Debug, Clone, PartialEq, Eq)]
pub struct AudioMetadataEntry {
    pub key: String,
    pub value: String,
}

/// Probe result for one source file.
#[derive(Debug, Clone, PartialEq, Eq)]
pub struct AudioProbe {
    pub has_audio: bool,
    pub codec_name: String,
    pub container_format: String,
    pub sample_rate: u32,
    pub channel_count: u32,
    pub duration_millis: u64,
    pub recorded_at_millis: i64,
    pub metadata: Vec<AudioMetadataEntry>,
}

/// Read-only logarithmic-magnitude overview for one immutable original.
#[derive(Debug, Clone, PartialEq, Eq)]
pub struct SpectrogramOverview {
    pub canonical_sample_rate: u32,
    pub window_frames: u32,
    pub hop_frames: u32,
    pub time_columns: u32,
    pub frequency_bins: u32,
    pub magnitudes: Vec<u8>,
}

/// One request to the native audio engine, with every argument it is
/// handed.
#[derive(Debug, Clone, PartialEq, Eq)]
pub enum EngineRequest {
    /// Probe a source file without decoding samples.
    Probe { path: String },
    /// Stream a source to its canonical mono mixdown as a waveform pyramid.
    Waveform { path: String, max_levels: u32 },
    /// Stream one source time range to a mono 16 kHz PCM16 WAV.
    AnalysisProxy { source: String, output: String, start_millis: u64, end_millis: u64 },
    /// Prepare an impulse response under the layout with this wire code.
    PrepareImpulseResponse { source: String, output: String, layout: u8 },
    /// Build a bounded spectrogram overview of an original.
    SpectrogramOverview { path: String, max_time_columns: u32, frequency_bins: u32 },
}

/// The request that probes `path`.
pub fn probe(path: &str) -> (r: EngineRequest)
    ensures
        r matches EngineRequest::Probe { path: p } && p@ == path@,
{
    EngineRequest::Probe { path: owned(path) }
}

/// The request that builds a waveform pyramid of at most `max_levels`
/// levels; a pyramid needs at least one level.
pub fn build_waveform(path: &str, max_levels: u32) -> (r: Result<EngineRequest, BridgeError>)
    ensures
        r is Ok <==> max_levels > 0,
        r matches Ok(request) ==> (request matches EngineRequest::Waveform { path: p, max_levels: m }
            && p@ == path@ && m == max_levels),
        r matches Err(e) ==> e.kind == BridgeErrorKind::EngineRejected && e.message@
            == "max_levels must be positive"@,
{
    if max_levels == 0 {
        return Err(BridgeError::new(BridgeErrorKind::EngineRejected, "max_levels must be positive"));
    }
    Ok(EngineRequest::Waveform { path: owned(path), max_levels })
}

/// The request that streams `[start_millis, end_millis)` of `source` to a
/// proxy at `output`.
pub fn build_analysis_proxy(source: &str, output: &str, start_millis: u64, end_millis: u64) -> (r:
    EngineRequest)
    ensures
        r matches EngineRequest::AnalysisProxy { source: s, output: o, start_millis: a, end_millis: b }
            && s@ == source@ && o@ == output@ && a == start_millis && b == end_millis,
{
    EngineRequest::AnalysisProxy {
        source: owned(source),
        output: owned(output),
        start_millis,
        end_millis,
    }
}

/// The request that prepares `source` into `output` under an explicit
/// plane interpretation, handed to the engine as its wire code.
pub fn prepare_impulse_response_with_layout(
    source: &str,
    output: &str,
    layout: ImpulseResponsePreparationLayout,
) -> (r: EngineRequest)
    ensures
        r matches EngineRequest::PrepareImpulseResponse { source: s, output: o, layout: code }
            && s@ == source@ && o@ == output@ && code == (match layout {
            ImpulseResponsePreparationLayout::MonoOrStereo => 0u8,
            ImpulseResponsePreparationLayout::TrueStereoLlLrRlRr => 1u8,
        }),
{
    EngineRequest::PrepareImpulseResponse {
        source: owned(source),
        output: owned(output),
        layout: layout.wire_code(),
    }
}

/// The request that prepares a mono or stereo `source`: the same request
/// as an explicit [`ImpulseResponsePreparationLayout::MonoOrStereo`]
/// preparation; four channels are never inferred to be true stereo.
pub fn prepare_impulse_response(source: &str, output: &str) -> (r: EngineRequest)
    ensures
        r matches EngineRequest::PrepareImpulseResponse { source: s, output: o, layout: code }
            && s@ == source@ && o@ == output@ && code == 0u8,
{
    prepare_impulse_response_with_layout(source, output, ImpulseResponsePreparationLayout::MonoOrStereo)
}

/// The request that builds a bounded spectrogram overview of `path`.
pub fn build_spectrogram_overview(path: &str, max_time_columns: u32, frequency_bins: u32) -> (r:
    EngineRequest)
    ensures
        r matches EngineRequest::SpectrogramOverview {
            path: p,
            max_time_columns: c,
            frequency_bins: b,
        } && p@ == path@ && c == max_time_columns && b == frequency_bins,
{
    EngineRequest::SpectrogramOverview { path: owned(path), max_time_columns, frequency_bins }
}

} // verus!
