//! Wire-protocol limits of the listen-tracking service.
//!
//! The values are fixed by the service's published protocol; they are
//! also carried in a [`Limits`] value so that callers (and tests) can
//! inject hypothetical limits without touching the encoder.

use vstd::prelude::*;

verus! {

/// Maximum overall listen size in bytes: the whole serialized payload
/// may not exceed this.
pub const MAX_LISTEN_SIZE: u16 = 10240;

/// The maximum number of listens returned in a single read request.
pub const MAX_ITEMS_PER_GET: u8 = 100;

/// The default number of listens returned in a single read request.
pub const DEFAULT_ITEMS_PER_GET: u8 = 25;

/// The maximum number of tags per listen.
pub const MAX_TAGS_PER_LISTEN: u8 = 50;

/// The maximum length of a tag, in characters.
pub const MAX_TAG_SIZE: u8 = 64;

/// The service's main API entry point. Delivery of an encoded payload
/// to it is the transport collaborator's business, not this crate's.
pub const API_ROOT_URL: &'static str = "https://api.listenbrainz.org";

/// Size and count limits the encoder holds a submission to.
///
/// `Limits::default()` carries the service's documented values; a
/// different set can be passed to the encoder for testing.
#[derive(Clone, Copy, PartialEq, Eq, Structural)]
pub struct Limits {
    /// Cap on the serialized payload, in bytes.
    pub max_listen_size: usize,
    /// Cap on the number of tags a listen may carry.
    pub max_tags_per_listen: usize,
    /// Cap on the length of a single tag.
    pub max_tag_size: usize,
}

impl Limits {
    /// The service's documented limits.
    pub open spec fn spec_default() -> Limits {
        Limits {
            max_listen_size: MAX_LISTEN_SIZE as usize,
            max_tags_per_listen: MAX_TAGS_PER_LISTEN as usize,
            max_tag_size: MAX_TAG_SIZE as usize,
        }
    }
}

impl Default for Limits {
    fn default() -> (r: Limits)
        ensures
            r == Limits::spec_default(),
    {
        Limits {
            max_listen_size: MAX_LISTEN_SIZE as usize,
            max_tags_per_listen: MAX_TAGS_PER_LISTEN as usize,
            max_tag_size: MAX_TAG_SIZE as usize,
        }
    }
}

} // verus!
