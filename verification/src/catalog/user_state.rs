//! User-owned state of one sound: affinity (Like and rating) and listening
//! continuity. These are durable user facts, not model evidence.

use vstd::prelude::*;

use crate::catalog::error::{other_error, CatalogError, CatalogErrorKind};

verus! {

/// User affinity projected for a sound card.
#[derive(Debug, Clone, Copy, PartialEq, Eq, Default, Structural)]
pub struct AssetAffinity {
    pub liked: bool,
    pub rating: u8,
}

/// Reads the stored affinity columns `(liked, rating)`; an untouched asset
/// (no row) has the default state. A rating outside `u8` is a failure
/// `stored asset rating is invalid`.
pub fn asset_affinity(stored: Option<(i64, i64)>) -> (r: Result<AssetAffinity, CatalogError>)
    ensures
        stored is None ==> r == Ok::<AssetAffinity, CatalogError>(
            AssetAffinity { liked: false, rating: 0 },
        ),
        stored matches Some((liked, rating)) ==> {
            &&& r is Ok <==> 0 <= rating <= 255
            &&& r matches Ok(a) ==> a.liked == (liked != 0) && a.rating == rating
            &&& r matches Err(e) ==> e.kind == CatalogErrorKind::Other && e.message@
                == "stored asset rating is invalid"@
        },
{
    match stored {
        None => Ok(AssetAffinity { liked: false, rating: 0 }),
        Some((liked, rating)) => {
            if rating < 0 || rating > 255 {
                Err(other_error("stored asset rating is invalid"))
            } else {
                Ok(AssetAffinity { liked: liked != 0, rating: rating as u8 })
            }
        },
    }
}

/// Validates an affinity for storage and returns its columns
/// `(liked, rating)`. A rating above five is rejected.
pub fn set_asset_affinity(affinity: AssetAffinity) -> (r: Result<(i64, i64), CatalogError>)
    ensures
        r is Ok <==> affinity.rating <= 5,
        r matches Ok((liked, rating)) ==> liked == (if affinity.liked {
            1i64
        } else {
            0i64
        }) && rating == affinity.rating,
        r matches Err(e) ==> e.kind == CatalogErrorKind::Other && e.message@
            == "asset rating must be between zero and five"@,
{
    if affinity.rating > 5 {
        return Err(other_error("asset rating must be between zero and five"));
    }
    Ok((if affinity.liked { 1 } else { 0 }, affinity.rating as i64))
}

/// Current user-owned listening continuity for one sound.
#[derive(Debug, Clone, Copy, PartialEq, Eq, Default, Structural)]
pub struct AssetListeningState {
    pub last_listened_at_millis: i64,
    pub resume_position_millis: u64,
}

/// A playable interval must last this long for resume to be kept.
pub const MINIMUM_RESUMABLE_DURATION_MILLIS: u64 = 60_000;

/// Resume is kept only after this much has been heard.
pub const MINIMUM_RESUME_OFFSET_MILLIS: u64 = 10_000;

/// Resume is kept only while this much remains.
pub const MINIMUM_REMAINING_MILLIS: u64 = 10_000;

/// Listening progress lies inside the playable interval at a valid time.
pub open spec fn progress_is_valid(position: u64, start: u64, end: u64, now: i64) -> bool {
    now >= 0 && start < end && start <= position <= end
}

/// Whether a position keeps a resume point: the interval lasts at least a
/// minute, ten seconds have been heard, ten seconds remain, and less than
/// 95% has been played.
pub open spec fn keeps_resume(position: u64, start: u64, end: u64) -> bool {
    let duration = end - start;
    let played = position - start;
    let remaining = end - position;
    &&& duration >= MINIMUM_RESUMABLE_DURATION_MILLIS
    &&& played >= MINIMUM_RESUME_OFFSET_MILLIS
    &&& remaining >= MINIMUM_REMAINING_MILLIS
    &&& !(played * 100 >= duration * 95)
}

/// The resume position listening leaves, stated in milliseconds: nothing is
/// kept for an interval shorter than a minute, before ten seconds have been
/// heard, with less than ten seconds left, or once 95% has been played; in
/// every other case the position itself is kept.
pub open spec fn resume_rule(position: u64, start: u64, end: u64, resume: u64) -> bool {
    let duration = end - start;
    let played = position - start;
    let remaining = end - position;
    &&& duration < 60_000 ==> resume == 0
    &&& played < 10_000 ==> resume == 0
    &&& remaining < 10_000 ==> resume == 0
    &&& played * 100 >= duration * 95 ==> resume == 0
    &&& duration >= 60_000 && played >= 10_000 && remaining >= 10_000 && played * 100 < duration
        * 95 ==> resume == position
}

/// Listening continuity: on any valid progress, the recorded resume point
/// is cleared by a short interval, a short listen, a near end, or reaching
/// 95% of the playable interval, and otherwise is the listened position.
pub proof fn lemma_resume_rule(position: u64, start: u64, end: u64)
    requires
        start <= position <= end,
        start < end,
    ensures
        resume_rule(
            position,
            start,
            end,
            if keeps_resume(position, start, end) {
                position
            } else {
                0
            },
        ),
{
}

/// Normalizes meaningful listening into the continuity state to store.
///
/// Resume is retained only for a playable interval of at least one minute,
/// after ten seconds have been heard and while at least ten seconds remain;
/// reaching 95% clears it. Progress outside the playable interval, or at a
/// negative time, is rejected; so is a resume position beyond the catalog's
/// integer range.
pub fn record_asset_listening_progress(
    position_millis: u64,
    playback_start_millis: u64,
    playback_end_millis: u64,
    now_millis: i64,
) -> (r: Result<AssetListeningState, CatalogError>)
    ensures
        !progress_is_valid(position_millis, playback_start_millis, playback_end_millis, now_millis)
            ==> (r matches Err(e) && e.kind == CatalogErrorKind::Other && e.message@
            == "listening progress is outside the playable source interval"@),
        progress_is_valid(position_millis, playback_start_millis, playback_end_millis, now_millis)
            ==> {
            let keep = keeps_resume(position_millis, playback_start_millis, playback_end_millis);
            &&& (r is Ok <==> !keep || position_millis <= i64::MAX)
            &&& r matches Ok(state) ==> state.last_listened_at_millis == now_millis
                && state.resume_position_millis == (if keep {
                position_millis
            } else {
                0
            })
            &&& r matches Err(e) ==> e.kind == CatalogErrorKind::Other && e.message@
                == "resume position does not fit the catalog"@
        },
        r matches Ok(state) ==> resume_rule(
            position_millis,
            playback_start_millis,
            playback_end_millis,
            state.resume_position_millis,
        ),
        r matches Ok(state) ==> state.last_listened_at_millis == now_millis,
        progress_is_valid(position_millis, playback_start_millis, playback_end_millis, now_millis)
            && position_millis <= i64::MAX ==> r is Ok,
{
    proof {
        if playback_start_millis <= position_millis <= playback_end_millis && playback_start_millis
            < playback_end_millis {
            lemma_resume_rule(position_millis, playback_start_millis, playback_end_millis);
        }
    }
    if now_millis < 0 || playback_end_millis <= playback_start_millis || position_millis
        < playback_start_millis || position_millis > playback_end_millis {
        return Err(other_error("listening progress is outside the playable source interval"));
    }
    let playable_duration = playback_end_millis - playback_start_millis;
    let played = position_millis - playback_start_millis;
    let remaining = playback_end_millis - position_millis;
    let near_end = (played as u128) * 100 >= (playable_duration as u128) * 95;
    let resumable = playable_duration >= MINIMUM_RESUMABLE_DURATION_MILLIS && played
        >= MINIMUM_RESUME_OFFSET_MILLIS && remaining >= MINIMUM_REMAINING_MILLIS && !near_end;
    let state = AssetListeningState {
        last_listened_at_millis: now_millis,
        resume_position_millis: if resumable {
            position_millis
        } else {
            0
        },
    };
    if state.resume_position_millis > i64::MAX as u64 {
        return Err(other_error("resume position does not fit the catalog"));
    }
    Ok(state)
}

/// Reads the stored continuity columns `(last_listened_at, resume_position)`;
/// an unheard sound (no row) returns defaults. A negative stored resume
/// position is a failure `stored resume position is invalid`.
pub fn asset_listening_state(stored: Option<(i64, i64)>) -> (r: Result<
    AssetListeningState,
    CatalogError,
>)
    ensures
        stored is None ==> r == Ok::<AssetListeningState, CatalogError>(
            AssetListeningState { last_listened_at_millis: 0, resume_position_millis: 0 },
        ),
        stored matches Some((at, resume)) ==> {
            &&& r is Ok <==> resume >= 0
            &&& r matches Ok(s) ==> s.last_listened_at_millis == at && s.resume_position_millis
                == resume
            &&& r matches Err(e) ==> e.kind == CatalogErrorKind::Other && e.message@
                == "stored resume position is invalid"@
        },
{
    match stored {
        None => Ok(AssetListeningState { last_listened_at_millis: 0, resume_position_millis: 0 }),
        Some((at, resume)) => {
            if resume < 0 {
                Err(other_error("stored resume position is invalid"))
            } else {
                Ok(AssetListeningState { last_listened_at_millis: at, resume_position_millis: resume as u64 })
            }
        },
    }
}

/// A stored listening state reads back as it was recorded: whatever
/// `record_asset_listening_progress` accepts has a resume position that
/// fits the catalog and is either zero or the recorded position.
pub proof fn lemma_recorded_resume_is_position_or_zero(
    position_millis: u64,
    playback_start_millis: u64,
    playback_end_millis: u64,
    now_millis: i64,
    state: AssetListeningState,
)
    requires
        progress_is_valid(position_millis, playback_start_millis, playback_end_millis, now_millis),
        state.last_listened_at_millis == now_millis,
        state.resume_position_millis == (if keeps_resume(
            position_millis,
            playback_start_millis,
            playback_end_millis,
        ) {
            position_millis
        } else {
            0
        }),
    ensures
        state.resume_position_millis == 0 || state.resume_position_millis == position_millis,
        state.resume_position_millis != 0 ==> playback_start_millis + MINIMUM_RESUME_OFFSET_MILLIS
            <= state.resume_position_millis <= playback_end_millis - MINIMUM_REMAINING_MILLIS,
{
}

} // verus!
