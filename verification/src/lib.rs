//! Preparation, validation and encoding of "listen" events for a
//! listen-tracking service.
//!
//! The crate decides whether a play counts as a listen, which wire
//! variant to submit (a completed `single` listen or an ephemeral
//! `playing_now` notice), and produces the exact JSON text the service
//! expects, enforcing its size limits. Delivery of the encoded bytes is
//! the caller's business.

pub mod classify;
pub mod encode;
pub mod json;
pub mod limits;
pub mod model;

pub use classify::{classify, get_submission_time, SubmissionKind};
pub use encode::{encode, encode_with_limits, EncodingError};
pub use limits::Limits;
pub use model::{Listen, Payload, Track, TrackView};
