//! Eligibility and classification of a play.
//!
//! The service's policy: a play counts as a listen once the user has
//! heard half the track or four minutes of it, whichever is less. A
//! `playing_now` notice, by contrast, is caller-triggered (on playback
//! start or track change) and is not subject to the threshold.

use vstd::prelude::*;

verus! {

/// The two wire-level submission variants.
///
/// `Single` is a completed, countable listen and carries a timestamp;
/// `PlayingNow` is a transient "currently playing" notice and carries
/// none. This is a pure classification value, not a data container.
#[derive(Clone, Copy, PartialEq, Eq, Structural, Debug)]
pub enum SubmissionKind {
    Single,
    PlayingNow,
}

/// Seconds of playback after which a play of a track of the given
/// length counts as a listen: half the track or 240 seconds, whichever
/// is less.
pub open spec fn spec_submission_time(length: u64) -> u64 {
    if length / 2 < 240 {
        length / 2
    } else {
        240
    }
}

/// How many seconds of playback are required before a play of a track
/// of `length` seconds counts as a submittable listen.
///
/// A zero or unknown length yields a threshold of 0; whether such
/// tracks should be submitted at all is the caller's decision.
pub fn get_submission_time(length: u64) -> (r: u64)
    ensures
        r == spec_submission_time(length),
        r == vstd::math::min((length / 2) as int, 240),
{
    if length / 2 < 240 {
        length / 2
    } else {
        240
    }
}

/// Decides whether a play is eligible for a completed-listen
/// submission.
///
/// Returns `Some(SubmissionKind::Single)` exactly when `elapsed` has
/// reached the submission threshold for `length`, and `None` otherwise.
/// A `PlayingNow` submission is never the outcome of this check: it is
/// an immediate, repeatable notice the caller issues on its own, so the
/// two variants are not exclusive in time.
pub fn classify(elapsed: u64, length: u64) -> (r: Option<SubmissionKind>)
    ensures
        r == if elapsed >= spec_submission_time(length) {
            Some(SubmissionKind::Single)
        } else {
            None::<SubmissionKind>
        },
        r == Some(SubmissionKind::Single) <==> elapsed >= spec_submission_time(length),
{
    if elapsed >= get_submission_time(length) {
        Some(SubmissionKind::Single)
    } else {
        None
    }
}

} // verus!
