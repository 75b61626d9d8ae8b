//! Negotiation core of a WebRTC client peer manager.
//!
//! Server events mutate a desired-state snapshot of each peer; a per-peer
//! cooperative state machine turns that snapshot into an ordered series of
//! calls on the peer connection and its media tracks. The machine's
//! transitions are given by the model in `model`, its properties are proved
//! in `laws`, and `peer` and `snapshot` implement it.

pub mod laws;
pub mod model;
pub mod peer;
pub mod proto;
pub mod snapshot;
pub mod sys;
