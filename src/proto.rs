//! Messages of the signalling protocol, as decoded from the server.
use vstd::prelude::*;

verus! {

/// Direction of a media track, seen from this peer.
#[derive(Debug, Clone, Copy, PartialEq, Eq, Structural)]
pub enum Direction {
    Send,
    Recv,
}

/// A media track announced by the server.
#[derive(Debug, Clone)]
pub struct Track {
    pub id: u32,
    pub is_muted: bool,
    pub direction: Direction,
}

/// A partial update of a known track.
#[derive(Debug, Clone)]
pub struct TrackPatch {
    pub id: u32,
    pub is_muted: Option<bool>,
}

/// The part this peer plays in an SDP offer/answer round.
#[derive(Clone, PartialEq, Eq, Debug)]
pub enum NegotiationRole {
    Offerer,
    /// Answer the remote offer carried here.
    Answerer(String),
}

/// One change of a `TrackUpdate` event.
#[derive(Debug, Clone)]
pub enum TrackChange {
    Added(Track),
    Update(TrackPatch),
    IceRestart,
}

} // verus!
