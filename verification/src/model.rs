//! The data carried by a submission: the track being played and the
//! variant-dependent wire envelope around it.

use vstd::prelude::*;
use vstd::utf8::encode_utf8;

use crate::json;

verus! {

/// The abstract value of a [`Track`]: its three text fields.
pub struct TrackView {
    pub artist: Seq<char>,
    pub title: Seq<char>,
    pub album: Seq<char>,
}

/// A piece of music being played.
///
/// An immutable value: two tracks with the same fields are
/// interchangeable. The artist and title must be non-empty; the album
/// may be empty when it is unknown.
pub struct Track {
    pub(crate) artist: String,
    pub(crate) title: String,
    pub(crate) album: String,
}

impl View for Track {
    type V = TrackView;

    closed spec fn view(&self) -> TrackView {
        TrackView { artist: self.artist@, title: self.title@, album: self.album@ }
    }
}

impl Track {
    /// Builds a track from its metadata. The artist and title must be
    /// non-empty text; the album may be empty when it is unknown.
    pub fn new(artist: String, title: String, album: String) -> (r: Track)
        requires
            artist@.len() > 0,
            title@.len() > 0,
        ensures
            r@ == (TrackView { artist: artist@, title: title@, album: album@ }),
    {
        Track { artist, title, album }
    }

    /// Wraps the track in a completed-listen envelope, stamped with
    /// `listened_at`: the Unix time (seconds since epoch, UTC) at which
    /// the listen was counted, captured by the caller at encode time.
    pub fn to_single(self, listened_at: u64) -> (r: Listen)
        ensures
            r.wf(),
            r is Single,
            r.track() == self@,
            r.timestamp() == Some(listened_at),
    {
        Listen::Single {
            payload: vec![Payload { listened_at: Some(listened_at), track_metadata: self }],
        }
    }

    /// Wraps the track in a "currently playing" envelope, which carries
    /// no timestamp at all.
    pub fn to_playing_now(self) -> (r: Listen)
        ensures
            r.wf(),
            r is PlayingNow,
            r.track() == self@,
            r.timestamp() == None::<u64>,
    {
        Listen::PlayingNow {
            payload: Payload { listened_at: None, track_metadata: self },
        }
    }
}

/// One listen record: the track, and — for a completed listen only —
/// the Unix timestamp at which it was counted.
pub struct Payload {
    pub(crate) listened_at: Option<u64>,
    pub(crate) track_metadata: Track,
}

/// The wire-level envelope. Its shape depends on the variant:
///
/// * `Single` holds a *list* of exactly one record, which carries a
///   `listened_at` timestamp;
/// * `PlayingNow` holds a single unwrapped record, which carries no
///   `listened_at` field at all.
///
/// Mixing the shapes is a programming error, not a runtime condition:
/// the constructors on [`Track`] are the only way to obtain a
/// well-formed envelope, and the encoder demands [`Listen::wf`].
#[allow(inconsistent_fields)]
pub enum Listen {
    Single { payload: Vec<Payload> },
    PlayingNow { payload: Payload },
}

impl Listen {
    /// Shape invariant: a `Single` envelope holds exactly one record,
    /// with a timestamp; a `PlayingNow` envelope's record has none.
    pub closed spec fn wf(&self) -> bool {
        match self {
            Listen::Single { payload } => payload@.len() == 1 && payload@[0].listened_at is Some,
            Listen::PlayingNow { payload } => payload.listened_at is None,
        }
    }

    /// The track the envelope carries (of a well-formed envelope).
    pub closed spec fn track(&self) -> TrackView {
        match self {
            Listen::Single { payload } => payload@[0].track_metadata@,
            Listen::PlayingNow { payload } => payload.track_metadata@,
        }
    }

    /// The timestamp the envelope carries: `Some` for a completed
    /// listen, `None` for a "currently playing" notice.
    pub closed spec fn timestamp(&self) -> Option<u64> {
        match self {
            Listen::Single { payload } => payload@[0].listened_at,
            Listen::PlayingNow { payload: _ } => None,
        }
    }

    /// The JSON text of a well-formed envelope, as bytes.
    pub open spec fn spec_json(&self) -> Seq<u8> {
        match self.timestamp() {
            Some(ts) => json::single_json(
                encode_utf8(self.track().artist),
                encode_utf8(self.track().title),
                encode_utf8(self.track().album),
                ts,
            ),
            None => json::playing_now_json(
                encode_utf8(self.track().artist),
                encode_utf8(self.track().title),
                encode_utf8(self.track().album),
            ),
        }
    }

    /// Serializes the envelope to its JSON text. Serialization is
    /// total over well-formed envelopes; the size limit is enforced by
    /// the encoder around it.
    pub fn to_json_bytes(&self) -> (r: Vec<u8>)
        requires
            self.wf(),
        ensures
            r@ == self.spec_json(),
    {
        let mut out: Vec<u8> = Vec::new();
        match self {
            Listen::Single { payload } => {
                let rec = &payload[0];
                let ts: u64 = match rec.listened_at {
                    Some(t) => t,
                    // A well-formed Single envelope always has one.
                    None => 0,
                };
                proof {
                    reveal_strlit("{\"listen_type\":\"single\",\"payload\":[{\"listened_at\":");
                    reveal_strlit(",\"track_metadata\":");
                    reveal_strlit("}]}");
                }
                json::push_lit(&mut out, "{\"listen_type\":\"single\",\"payload\":[{\"listened_at\":");
                json::push_dec(&mut out, ts);
                json::push_lit(&mut out, ",\"track_metadata\":");
                push_track_json(&mut out, &rec.track_metadata);
                json::push_lit(&mut out, "}]}");
                proof {
                    assert(out@ =~= self.spec_json());
                }
            },
            Listen::PlayingNow { payload } => {
                proof {
                    reveal_strlit("{\"listen_type\":\"playing_now\",\"payload\":{\"track_metadata\":");
                    reveal_strlit("}}");
                }
                json::push_lit(
                    &mut out,
                    "{\"listen_type\":\"playing_now\",\"payload\":{\"track_metadata\":",
                );
                push_track_json(&mut out, &payload.track_metadata);
                json::push_lit(&mut out, "}}");
                proof {
                    assert(out@ =~= self.spec_json());
                }
            },
        }
        out
    }
}

/// Appends the track-metadata object for `track`.
fn push_track_json(out: &mut Vec<u8>, track: &Track)
    ensures
        final(out)@ == old(out)@ + json::track_json(
            encode_utf8(track@.artist),
            encode_utf8(track@.title),
            encode_utf8(track@.album),
        ),
{
    proof {
        reveal_strlit("{\"artist_name\":\"");
        reveal_strlit("\",\"track_name\":\"");
        reveal_strlit("\",\"release_name\":\"");
        reveal_strlit("\"}");
    }
    json::push_lit(out, "{\"artist_name\":\"");
    json::push_escaped(out, track.artist.as_str().as_bytes());
    json::push_lit(out, "\",\"track_name\":\"");
    json::push_escaped(out, track.title.as_str().as_bytes());
    json::push_lit(out, "\",\"release_name\":\"");
    json::push_escaped(out, track.album.as_str().as_bytes());
    json::push_lit(out, "\"}");
    proof {
        assert(out@ =~= old(out)@ + json::track_json(
            encode_utf8(track@.artist),
            encode_utf8(track@.title),
            encode_utf8(track@.album),
        ));
    }
}

} // verus!
