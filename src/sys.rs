//! Handles on the platform collaborators.
//!
//! The collaborators' operations suspend and talk to the platform; the
//! library never performs them itself. It emits them as commands (see
//! `peer::Command`) and the runtime around it carries them out on these
//! handles.
use vstd::prelude::*;

verus! {

/// Handle on a platform media track.
#[derive(Clone, Debug)]
pub struct MediaStreamTrack;

impl MediaStreamTrack {
    pub fn new() -> (r: Self)
        ensures
            r == MediaStreamTrack,
    {
        MediaStreamTrack
    }
}

/// Handle on a platform peer connection.
#[derive(Clone, Debug)]
pub struct RtcPeerConnection;

impl RtcPeerConnection {
    pub fn new() -> (r: Self)
        ensures
            r == RtcPeerConnection,
    {
        RtcPeerConnection
    }
}

} // verus!
