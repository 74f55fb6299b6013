//! The payload encoder: builds the variant-correct envelope for a
//! track, serializes it, and enforces the service's size limit.
//!
//! Validation never truncates: an oversized submission is refused with
//! [`EncodingError::PayloadTooLarge`] and nothing partial escapes.

use vstd::prelude::*;
use vstd::utf8::encode_utf8;

use crate::classify::SubmissionKind;
use crate::json;
use crate::limits::Limits;
use crate::model::{Track, TrackView};

verus! {

/// Why the encoder refused a submission.
///
/// None of these is retried internally: the caller decides whether to
/// shrink the metadata and try again or drop the submission.
#[derive(Clone, Copy, PartialEq, Eq, Structural, Debug)]
pub enum EncodingError {
    /// The serialized payload would exceed the maximum listen size.
    PayloadTooLarge,
    /// A single capped field — a tag, in the service's protocol —
    /// exceeds its own length limit. The track-only model encodes no
    /// tags, so the encoder here never produces it.
    FieldTooLong,
    /// Serialization itself failed. Serialization is total over
    /// well-formed envelopes, so this is never produced; the variant
    /// stands for the wire protocol's error taxonomy.
    SerializationFailure,
}

/// The exact JSON text, as bytes, of a submission of `t` under `kind`;
/// `listened_at` is read only for a completed listen.
pub open spec fn encoded_json(kind: SubmissionKind, t: TrackView, listened_at: u64) -> Seq<u8> {
    match kind {
        SubmissionKind::Single => json::single_json(
            encode_utf8(t.artist),
            encode_utf8(t.title),
            encode_utf8(t.album),
            listened_at,
        ),
        SubmissionKind::PlayingNow => json::playing_now_json(
            encode_utf8(t.artist),
            encode_utf8(t.title),
            encode_utf8(t.album),
        ),
    }
}

/// Encodes a submission of `track` under `kind` against the given
/// limits.
///
/// `listened_at` is the Unix time (seconds since epoch, UTC) at which
/// the listen was counted; the caller captures it at encode time. It
/// is ignored for a `PlayingNow` notice, whose wire form carries no
/// timestamp.
///
/// Returns the exact wire text whenever it fits in
/// `limits.max_listen_size` bytes, and `PayloadTooLarge` — never a
/// truncated payload — exactly when it does not.
pub fn encode_with_limits(
    kind: SubmissionKind,
    track: Track,
    listened_at: u64,
    limits: &Limits,
) -> (r: Result<Vec<u8>, EncodingError>)
    ensures
        match r {
            Ok(v) => v@ == encoded_json(kind, track@, listened_at) && v@.len()
                <= limits.max_listen_size,
            Err(e) => e == EncodingError::PayloadTooLarge && encoded_json(
                kind,
                track@,
                listened_at,
            ).len() > limits.max_listen_size,
        },
{
    let listen = match kind {
        SubmissionKind::Single => track.to_single(listened_at),
        SubmissionKind::PlayingNow => track.to_playing_now(),
    };
    let bytes = listen.to_json_bytes();
    if bytes.len() <= limits.max_listen_size {
        Ok(bytes)
    } else {
        Err(EncodingError::PayloadTooLarge)
    }
}

/// Encodes a submission of `track` under `kind` against the service's
/// documented limits, [`Limits::spec_default`].
pub fn encode(kind: SubmissionKind, track: Track, listened_at: u64) -> (r: Result<
    Vec<u8>,
    EncodingError,
>)
    ensures
        match r {
            Ok(v) => v@ == encoded_json(kind, track@, listened_at) && v@.len()
                <= Limits::spec_default().max_listen_size,
            Err(e) => e == EncodingError::PayloadTooLarge && encoded_json(
                kind,
                track@,
                listened_at,
            ).len() > Limits::spec_default().max_listen_size,
        },
{
    let limits = Limits::default();
    encode_with_limits(kind, track, listened_at, &limits)
}

/// Encoding is a function of the track, the variant and the injected
/// clock alone: the same inputs always give byte-identical output.
pub proof fn lemma_encode_deterministic(
    kind: SubmissionKind,
    t: TrackView,
    listened_at: u64,
    b1: Seq<u8>,
    b2: Seq<u8>,
)
    requires
        b1 == encoded_json(kind, t, listened_at),
        b2 == encoded_json(kind, t, listened_at),
    ensures
        b1 == b2,
{
}

/// A `playing_now` submission carries no timestamp at all: its wire
/// text is the same whatever the clock reads.
pub proof fn lemma_playing_now_ignores_clock(t: TrackView, ts1: u64, ts2: u64)
    ensures
        encoded_json(SubmissionKind::PlayingNow, t, ts1) == encoded_json(
            SubmissionKind::PlayingNow,
            t,
            ts2,
        ),
{
}

/// A `single` submission opens with the literal text that fixes
/// `listen_type` to `"single"`, wraps the payload in a one-element
/// list and introduces `listened_at`; the bytes right after it are the
/// decimal digits of the timestamp — present and numeric.
pub proof fn lemma_single_shape(t: TrackView, listened_at: u64)
    ensures
        ({
            let b = encoded_json(SubmissionKind::Single, t, listened_at);
            let h = json::single_head();
            let d = json::dec_rep(listened_at as nat);
            &&& b.len() > h.len() + d.len()
            &&& b.subrange(0, h.len() as int) == h
            &&& b.subrange(h.len() as int, (h.len() + d.len()) as int) == d
            &&& forall|i: int|
                h.len() <= i < h.len() + d.len() ==> 48 <= #[trigger] b[i] <= 57
            &&& json::dec_value(b.subrange(h.len() as int, (h.len() + d.len()) as int))
                == listened_at
        }),
{
    json::lemma_dec_rep_digits(listened_at as nat);
    json::lemma_dec_rep_value(listened_at as nat);
    reveal_strlit(",\"track_metadata\":");
    assert(json::meta_key().len() > 0);
    let b = encoded_json(SubmissionKind::Single, t, listened_at);
    let h = json::single_head();
    let d = json::dec_rep(listened_at as nat);
    assert(b.subrange(0, h.len() as int) =~= h);
    assert(b.subrange(h.len() as int, (h.len() + d.len()) as int) =~= d);
    assert forall|i: int| h.len() <= i < h.len() + d.len() implies 48 <= #[trigger] b[i]
        <= 57 by {
        assert(b[i] == d[i - h.len()]);
    }
}

/// The two variants can never be mistaken for one another on the
/// wire: a `single` text and a `playing_now` text always differ,
/// whatever tracks and timestamp they carry.
pub proof fn lemma_kinds_distinguishable(t1: TrackView, t2: TrackView, listened_at: u64)
    ensures
        encoded_json(SubmissionKind::Single, t1, listened_at) != encoded_json(
            SubmissionKind::PlayingNow,
            t2,
            listened_at,
        ),
{
    reveal_strlit("{\"listen_type\":\"single\",\"payload\":[{\"listened_at\":");
    reveal_strlit("{\"listen_type\":\"playing_now\",\"payload\":{\"track_metadata\":");
    let b1 = encoded_json(SubmissionKind::Single, t1, listened_at);
    let b2 = encoded_json(SubmissionKind::PlayingNow, t2, listened_at);
    // The texts part at the first byte of the listen_type value:
    // 's' against 'p'.
    assert(b1[16] == json::single_head()[16]);
    assert(b2[16] == json::now_head()[16]);
    assert(b1[16] == 115 && b2[16] == 112);
}

/// The wire text determines the whole submission: equal encodings can
/// only come from the same variant, the same track fields and — for a
/// completed listen — the same timestamp. Together with
/// [`lemma_escaped_lossless`] this is what makes decoding the text a
/// faithful round trip.
///
/// [`lemma_escaped_lossless`]: crate::json::lemma_escaped_lossless
pub proof fn lemma_encoded_json_injective(
    k1: SubmissionKind,
    t1: TrackView,
    ts1: u64,
    k2: SubmissionKind,
    t2: TrackView,
    ts2: u64,
)
    requires
        encoded_json(k1, t1, ts1) == encoded_json(k2, t2, ts2),
    ensures
        k1 == k2,
        t1.artist == t2.artist,
        t1.title == t2.title,
        t1.album == t2.album,
        k1 is Single ==> ts1 == ts2,
{
    vstd::utf8::encode_utf8_decode_utf8(t1.artist);
    vstd::utf8::encode_utf8_decode_utf8(t1.title);
    vstd::utf8::encode_utf8_decode_utf8(t1.album);
    vstd::utf8::encode_utf8_decode_utf8(t2.artist);
    vstd::utf8::encode_utf8_decode_utf8(t2.title);
    vstd::utf8::encode_utf8_decode_utf8(t2.album);
    let b = encoded_json(k1, t1, ts1);
    match (k1, k2) {
        (SubmissionKind::Single, SubmissionKind::PlayingNow) => {
            lemma_kinds_distinguishable(t1, t2, ts1);
            assert(false);
        },
        (SubmissionKind::PlayingNow, SubmissionKind::Single) => {
            lemma_kinds_distinguishable(t2, t1, ts2);
            assert(false);
        },
        (SubmissionKind::PlayingNow, SubmissionKind::PlayingNow) => {
            let h = json::now_head().len();
            let tj1 = json::track_json(
                encode_utf8(t1.artist),
                encode_utf8(t1.title),
                encode_utf8(t1.album),
            );
            let tj2 = json::track_json(
                encode_utf8(t2.artist),
                encode_utf8(t2.title),
                encode_utf8(t2.album),
            );
            assert(b =~= json::now_head() + (tj1 + json::now_tail()));
            assert(b =~= json::now_head() + (tj2 + json::now_tail()));
            assert(tj1 + json::now_tail() =~= b.skip(h as int));
            assert(tj2 + json::now_tail() =~= b.skip(h as int));
            json::lemma_track_json_prefix_injective(
                encode_utf8(t1.artist),
                encode_utf8(t1.title),
                encode_utf8(t1.album),
                json::now_tail(),
                encode_utf8(t2.artist),
                encode_utf8(t2.title),
                encode_utf8(t2.album),
                json::now_tail(),
            );
        },
        (SubmissionKind::Single, SubmissionKind::Single) => {
            reveal_strlit(",\"track_metadata\":");
            let h = json::single_head().len();
            let d1 = json::dec_rep(ts1 as nat);
            let d2 = json::dec_rep(ts2 as nat);
            let m1 = d1.len();
            let m2 = d2.len();
            json::lemma_dec_rep_digits(ts1 as nat);
            json::lemma_dec_rep_digits(ts2 as nat);
            let mk = json::meta_key();
            assert(mk[0] == 44 && mk.len() > 0);
            let tj1 = json::track_json(
                encode_utf8(t1.artist),
                encode_utf8(t1.title),
                encode_utf8(t1.album),
            );
            let tj2 = json::track_json(
                encode_utf8(t2.artist),
                encode_utf8(t2.title),
                encode_utf8(t2.album),
            );
            let r1 = mk + (tj1 + json::single_tail());
            let r2 = mk + (tj2 + json::single_tail());
            assert(b =~= json::single_head() + d1 + r1);
            assert(b =~= json::single_head() + d2 + r2);
            // The digit runs must end at the same comma, so they are
            // the same digits and denote the same timestamp.
            assert(b[(h + m1) as int] == 44);
            assert(b[(h + m2) as int] == 44);
            if m1 < m2 {
                assert(b[(h + m1) as int] == d2[m1 as int]);
                assert(48 <= d2[m1 as int] <= 57);
                assert(false);
            }
            if m2 < m1 {
                assert(b[(h + m2) as int] == d1[m2 as int]);
                assert(48 <= d1[m2 as int] <= 57);
                assert(false);
            }
            assert(m1 == m2);
            assert(d1 =~= b.subrange(h as int, (h + m1) as int));
            assert(d2 =~= b.subrange(h as int, (h + m1) as int));
            json::lemma_dec_rep_value(ts1 as nat);
            json::lemma_dec_rep_value(ts2 as nat);
            assert(ts1 == ts2);
            assert(r1 =~= b.skip((h + m1) as int));
            assert(r2 =~= b.skip((h + m1) as int));
            assert(tj1 + json::single_tail() =~= r1.skip(mk.len() as int));
            assert(tj2 + json::single_tail() =~= r2.skip(mk.len() as int));
            json::lemma_track_json_prefix_injective(
                encode_utf8(t1.artist),
                encode_utf8(t1.title),
                encode_utf8(t1.album),
                json::single_tail(),
                encode_utf8(t2.artist),
                encode_utf8(t2.title),
                encode_utf8(t2.album),
                json::single_tail(),
            );
        },
    }
}

} // verus!
