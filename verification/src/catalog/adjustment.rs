//! Stored values of non-destructive adjustment revisions: the integer
//! columns that hold milliseconds, centibels and small unsigned settings,
//! and the source duration an adjustment is validated against.

use vstd::prelude::*;

use crate::catalog::error::{fails_with, other_error, CatalogError, CatalogErrorKind};
use crate::text::concat;

verus! {

/// Reads a stored centibel value (`stored <field> is invalid` when it does
/// not fit `i16`).
pub fn stored_centibels(value: i64, field: &str) -> (r: Result<i16, CatalogError>)
    ensures
        r is Ok <==> i16::MIN <= value <= i16::MAX,
        r matches Ok(v) ==> v == value,
        r matches Err(e) ==> e.kind == CatalogErrorKind::Other && e.message@ == "stored "@
            + field@ + " is invalid"@,
{
    if value < i16::MIN as i64 || value > i16::MAX as i64 {
        let mut message = concat("stored ", field);
        message.append(" is invalid");
        Err(CatalogError { kind: CatalogErrorKind::Other, message })
    } else {
        Ok(value as i16)
    }
}

/// Reads a stored small unsigned setting (`stored <field> is invalid` when
/// it does not fit `u16`).
pub fn stored_u16(value: i64, field: &str) -> (r: Result<u16, CatalogError>)
    ensures
        r is Ok <==> 0 <= value <= u16::MAX,
        r matches Ok(v) ==> v == value,
        r matches Err(e) ==> e.kind == CatalogErrorKind::Other && e.message@ == "stored "@
            + field@ + " is invalid"@,
{
    if value < 0 || value > u16::MAX as i64 {
        let mut message = concat("stored ", field);
        message.append(" is invalid");
        Err(CatalogError { kind: CatalogErrorKind::Other, message })
    } else {
        Ok(value as u16)
    }
}

/// Reads stored adjustment milliseconds; negative values are invalid.
pub fn stored_millis(value: i64) -> (r: Result<u64, CatalogError>)
    ensures
        r is Ok <==> value >= 0,
        r matches Ok(v) ==> v == value,
        r matches Err(e) ==> e.kind == CatalogErrorKind::Other && e.message@
            == "stored adjustment milliseconds are invalid"@,
{
    if value < 0 {
        Err(other_error("stored adjustment milliseconds are invalid"))
    } else {
        Ok(value as u64)
    }
}

/// Converts adjustment milliseconds to the catalog's integer range.
pub fn millis_i64(value: u64) -> (r: Result<i64, CatalogError>)
    ensures
        r is Ok <==> value <= i64::MAX,
        r matches Ok(v) ==> v == value,
        r matches Err(e) ==> e.kind == CatalogErrorKind::Other && e.message@
            == "adjustment milliseconds exceed the catalog range"@,
{
    if value > i64::MAX as u64 {
        Err(other_error("adjustment milliseconds exceed the catalog range"))
    } else {
        Ok(value as i64)
    }
}

/// Milliseconds written by the catalog read back unchanged, and stored
/// milliseconds that read back are written back unchanged.
pub proof fn lemma_millis_round_trip(value: u64, stored: i64)
    ensures
        value <= i64::MAX ==> (value as i64) >= 0 && (value as i64) as u64 == value,
        stored >= 0 ==> (stored as u64) <= i64::MAX && ((stored as u64) as i64) == stored,
{
}

/// Reads a stored low-cut frequency in hertz.
pub fn stored_low_cut(value: i64) -> (r: Result<u16, CatalogError>)
    ensures
        r is Ok <==> 0 <= value <= u16::MAX,
        r matches Ok(v) ==> v == value,
        r matches Err(e) ==> e.kind == CatalogErrorKind::Other && e.message@
            == "stored low-cut frequency is invalid"@,
{
    if value < 0 || value > u16::MAX as i64 {
        Err(other_error("stored low-cut frequency is invalid"))
    } else {
        Ok(value as u16)
    }
}

/// The asset's immutable source duration as stored: unknown stays unknown;
/// a negative stored duration is `stored asset duration is invalid`.
pub fn asset_duration(stored: Option<i64>) -> (r: Result<Option<u64>, CatalogError>)
    ensures
        stored is None ==> r == Ok::<Option<u64>, CatalogError>(None),
        stored matches Some(d) ==> (r is Ok <==> d >= 0),
        stored matches Some(d) ==> r matches Ok(v) ==> v == Some(d as u64),
        r matches Err(e) ==> e.kind == CatalogErrorKind::Other && e.message@
            == "stored asset duration is invalid"@,
{
    match stored {
        None => Ok(None),
        Some(d) => {
            if d < 0 {
                Err(other_error("stored asset duration is invalid"))
            } else {
                Ok(Some(d as u64))
            }
        },
    }
}

/// The duration a new adjustment revision is validated against: the asset
/// must have a known, non-negative duration.
pub fn adjustable_duration(stored: Option<i64>) -> (r: Result<u64, CatalogError>)
    ensures
        r is Ok <==> (stored matches Some(d) && d >= 0),
        r matches Ok(v) ==> stored == Some(v as i64),
        r matches Err(e) ==> e.kind == CatalogErrorKind::Other,
        stored is None ==> fails_with(
            r,
            "asset must have a known duration before it can be adjusted"@,
        ),
{
    match stored {
        None => Err(other_error("asset must have a known duration before it can be adjusted")),
        Some(d) => stored_millis(d),
    }
}

/// The scalar columns of one stored adjustment revision.
#[derive(Debug, Clone, Copy, PartialEq, Eq, Structural)]
pub struct StoredAdjustmentScalars {
    pub revision_id: i64,
    pub trim_start: i64,
    pub trim_end: i64,
    pub fade_in: i64,
    pub fade_out: i64,
    pub fade_in_curve: i64,
    pub fade_out_curve: i64,
    pub gain: i64,
    pub low_cut_hertz: i64,
    pub compressor_enabled: i64,
    pub compressor_threshold: i64,
    pub compressor_ratio: i64,
    pub compressor_attack: i64,
    pub compressor_release: i64,
    pub compressor_makeup: i64,
    pub limiter_enabled: i64,
    pub limiter_ceiling: i64,
    pub limiter_release: i64,
    pub created_at: i64,
}

/// Dynamic-range compressor settings.
#[derive(Debug, Clone, Copy, PartialEq, Eq, Structural)]
pub struct CompressorSettings {
    pub enabled: bool,
    pub threshold_centibels: i16,
    pub ratio_tenths: u16,
    pub attack_millis: u16,
    pub release_millis: u16,
    pub makeup_centibels: i16,
}

/// Output limiter settings.
#[derive(Debug, Clone, Copy, PartialEq, Eq, Structural)]
pub struct LimiterSettings {
    pub enabled: bool,
    pub ceiling_centibels: i16,
    pub release_millis: u16,
}

/// The scalar settings of one adjustment revision, as restored. Fade
/// curves keep their stored catalog values.
#[derive(Debug, Clone, Copy, PartialEq, Eq, Structural)]
pub struct AdjustmentScalars {
    pub revision_id: i64,
    pub trim_start_millis: u64,
    pub trim_end_millis: u64,
    pub fade_in_millis: u64,
    pub fade_out_millis: u64,
    pub fade_in_curve: i64,
    pub fade_out_curve: i64,
    pub gain_centibels: i16,
    pub low_cut_hertz: u16,
    pub compressor: CompressorSettings,
    pub limiter: LimiterSettings,
    pub created_at_millis: i64,
}

/// A value fits `i16`.
pub open spec fn fits_i16(value: i64) -> bool {
    i16::MIN <= value <= i16::MAX
}

/// A value fits `u16`.
pub open spec fn fits_u16(value: i64) -> bool {
    0 <= value <= u16::MAX
}

/// The failure of the first invalid scalar column, in restore order:
/// trim, fades, gain, low cut, compressor, limiter; `None` when every
/// column is valid.
pub open spec fn scalar_failure(s: StoredAdjustmentScalars) -> Option<Seq<char>> {
    if s.trim_start < 0 || s.trim_end < 0 || s.fade_in < 0 || s.fade_out < 0 {
        Some("stored adjustment milliseconds are invalid"@)
    } else if !fits_i16(s.gain) {
        Some("stored adjustment gain is invalid"@)
    } else if !fits_u16(s.low_cut_hertz) {
        Some("stored low-cut frequency is invalid"@)
    } else if !fits_i16(s.compressor_threshold) {
        Some("stored compressor threshold is invalid"@)
    } else if !fits_u16(s.compressor_ratio) {
        Some("stored compressor ratio is invalid"@)
    } else if !fits_u16(s.compressor_attack) {
        Some("stored compressor attack is invalid"@)
    } else if !fits_u16(s.compressor_release) {
        Some("stored compressor release is invalid"@)
    } else if !fits_i16(s.compressor_makeup) {
        Some("stored compressor makeup is invalid"@)
    } else if !fits_i16(s.limiter_ceiling) {
        Some("stored limiter ceiling is invalid"@)
    } else if !fits_u16(s.limiter_release) {
        Some("stored limiter release is invalid"@)
    } else {
        None
    }
}

/// The scalars that valid stored columns restore to.
pub open spec fn restored_scalars(s: StoredAdjustmentScalars, r: AdjustmentScalars) -> bool {
    &&& r.revision_id == s.revision_id
    &&& r.trim_start_millis == s.trim_start
    &&& r.trim_end_millis == s.trim_end
    &&& r.fade_in_millis == s.fade_in
    &&& r.fade_out_millis == s.fade_out
    &&& r.fade_in_curve == s.fade_in_curve
    &&& r.fade_out_curve == s.fade_out_curve
    &&& r.gain_centibels == s.gain
    &&& r.low_cut_hertz == s.low_cut_hertz
    &&& r.compressor.enabled == (s.compressor_enabled != 0)
    &&& r.compressor.threshold_centibels == s.compressor_threshold
    &&& r.compressor.ratio_tenths == s.compressor_ratio
    &&& r.compressor.attack_millis == s.compressor_attack
    &&& r.compressor.release_millis == s.compressor_release
    &&& r.compressor.makeup_centibels == s.compressor_makeup
    &&& r.limiter.enabled == (s.limiter_enabled != 0)
    &&& r.limiter.ceiling_centibels == s.limiter_ceiling
    &&& r.limiter.release_millis == s.limiter_release
    &&& r.created_at_millis == s.created_at
}

/// Restores the scalar settings of a stored revision, failing closed on
/// the first column that does not fit its setting.
pub fn restore_adjustment_scalars(stored: &StoredAdjustmentScalars) -> (r: Result<
    AdjustmentScalars,
    CatalogError,
>)
    ensures
        r is Ok <==> scalar_failure(*stored) is None,
        r matches Ok(scalars) ==> restored_scalars(*stored, scalars),
        r matches Err(e) ==> e.kind == CatalogErrorKind::Other && Some(e.message@)
            == scalar_failure(*stored),
{
    proof {
        reveal_strlit("stored ");
        reveal_strlit(" is invalid");
        reveal_strlit("adjustment gain");
        reveal_strlit("stored adjustment gain is invalid");
        reveal_strlit("compressor threshold");
        reveal_strlit("stored compressor threshold is invalid");
        reveal_strlit("compressor ratio");
        reveal_strlit("stored compressor ratio is invalid");
        reveal_strlit("compressor attack");
        reveal_strlit("stored compressor attack is invalid");
        reveal_strlit("compressor release");
        reveal_strlit("stored compressor release is invalid");
        reveal_strlit("compressor makeup");
        reveal_strlit("stored compressor makeup is invalid");
        reveal_strlit("limiter ceiling");
        reveal_strlit("stored limiter ceiling is invalid");
        reveal_strlit("limiter release");
        reveal_strlit("stored limiter release is invalid");
    }
    let trim_start_millis = stored_millis(stored.trim_start)?;
    let trim_end_millis = stored_millis(stored.trim_end)?;
    let fade_in_millis = stored_millis(stored.fade_in)?;
    let fade_out_millis = stored_millis(stored.fade_out)?;
    let gain_centibels = stored_centibels(stored.gain, "adjustment gain")?;
    let low_cut_hertz = stored_low_cut(stored.low_cut_hertz)?;
    let threshold_centibels = stored_centibels(stored.compressor_threshold, "compressor threshold")?;
    let ratio_tenths = stored_u16(stored.compressor_ratio, "compressor ratio")?;
    let attack_millis = stored_u16(stored.compressor_attack, "compressor attack")?;
    let release_millis = stored_u16(stored.compressor_release, "compressor release")?;
    let makeup_centibels = stored_centibels(stored.compressor_makeup, "compressor makeup")?;
    let ceiling_centibels = stored_centibels(stored.limiter_ceiling, "limiter ceiling")?;
    let limiter_release_millis = stored_u16(stored.limiter_release, "limiter release")?;
    Ok(
        AdjustmentScalars {
            revision_id: stored.revision_id,
            trim_start_millis,
            trim_end_millis,
            fade_in_millis,
            fade_out_millis,
            fade_in_curve: stored.fade_in_curve,
            fade_out_curve: stored.fade_out_curve,
            gain_centibels,
            low_cut_hertz,
            compressor: CompressorSettings {
                enabled: stored.compressor_enabled != 0,
                threshold_centibels,
                ratio_tenths,
                attack_millis,
                release_millis,
                makeup_centibels,
            },
            limiter: LimiterSettings {
                enabled: stored.limiter_enabled != 0,
                ceiling_centibels,
                release_millis: limiter_release_millis,
            },
            created_at_millis: stored.created_at,
        },
    )
}

/// The newest adjustment of an asset as the Audio Space projects it: no
/// revision gives `None`. The projection trusts the catalog: an adjusted
/// asset has a known duration and valid stored columns.
pub fn audio_space_adjustment(stored: Option<StoredAdjustmentScalars>, duration_millis: Option<u64>) -> (r:
    Option<AdjustmentScalars>)
    requires
        stored matches Some(s) ==> duration_millis is Some && scalar_failure(s) is None,
    ensures
        stored is None ==> r is None,
        stored matches Some(s) ==> (r matches Some(scalars) && restored_scalars(s, scalars)),
{
    match stored {
        None => None,
        Some(s) => match restore_adjustment_scalars(&s) {
            Ok(scalars) => Some(scalars),
            Err(_) => None,
        },
    }
}

} // verus!
