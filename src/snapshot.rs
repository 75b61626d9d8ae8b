//! The room: the desired state of every peer, and the event-handler
//! facade that turns server events into mutations of it.
use vstd::prelude::*;

use crate::model::{Advance, PeerModel};
use crate::peer::Peer;
use crate::proto::{NegotiationRole, Track, TrackChange};

verus! {

/// Every peer of the room, in order of creation.
pub struct Room {
    peers: Vec<Peer>,
}

pub open spec fn peer_views(s: Seq<Peer>) -> Seq<PeerModel> {
    s.map_values(|p: Peer| p@)
}

proof fn lemma_peer_views_update(s: Seq<Peer>, i: int, p: Peer)
    requires
        0 <= i < s.len(),
    ensures
        peer_views(s.update(i, p)) == peer_views(s).update(i, p@),
{
    assert(peer_views(s.update(i, p)) =~= peer_views(s).update(i, p@));
}

impl View for Room {
    type V = Seq<PeerModel>;

    closed spec fn view(&self) -> Seq<PeerModel> {
        peer_views(self.peers@)
    }
}

impl Room {
    pub fn new() -> (r: Room)
        ensures
            r@ == Seq::<PeerModel>::empty(),
    {
        let r = Room { peers: Vec::new() };
        assert(r@ =~= Seq::<PeerModel>::empty());
        r
    }

    /// Every peer state is one that its transitions can reach.
    pub open spec fn wf(&self) -> bool {
        forall|i: int| 0 <= i < self@.len() ==> (#[trigger] self@[i]).inv()
    }

    pub fn len(&self) -> (r: usize)
        ensures
            r == self@.len(),
    {
        self.peers.len()
    }

    pub fn peer(&self, i: usize) -> (r: &Peer)
        requires
            i < self@.len(),
        ensures
            r@ == self@[i as int],
    {
        &self.peers[i]
    }

    fn push(&mut self, p: Peer)
        requires
            old(self).wf(),
            p@.inv(),
        ensures
            final(self)@ == old(self)@.push(p@),
            final(self).wf(),
    {
        self.peers.push(p);
        assert(self@ =~= old(self)@.push(p@));
    }
}

/// Translates server events into mutations of the room's snapshot, and
/// lets the runtime drive each peer's tasks.
pub struct EventHandler {
    snapshot: Room,
}

impl View for EventHandler {
    type V = Seq<PeerModel>;

    closed spec fn view(&self) -> Seq<PeerModel> {
        self.snapshot@
    }
}

impl EventHandler {
    pub closed spec fn wf(&self) -> bool {
        self.snapshot.wf()
    }

    pub fn new() -> (r: EventHandler)
        ensures
            r@ == Seq::<PeerModel>::empty(),
            r.wf(),
    {
        EventHandler { snapshot: Room::new() }
    }

    pub fn snapshot(&self) -> (r: &Room)
        ensures
            r@ == self@,
            self.wf() ==> r.wf(),
    {
        &self.snapshot
    }

    /// `PeerCreated`: a new peer with `tracks`, whose first round is
    /// played in `negotiation_role`.
    pub fn peer_created(&mut self, tracks: Vec<Track>, negotiation_role: NegotiationRole)
        requires
            old(self).wf(),
        ensures
            final(self)@ == old(self)@.push(PeerModel::created(tracks@, negotiation_role)),
            final(self)@.last().rounds_in_flight() == 1,
            final(self).wf(),
    {
        let p = Peer::new(tracks, negotiation_role);
        self.snapshot.push(p);
    }

    /// `TrackUpdate` for the first peer: the changes in list order, then
    /// the role, last, so that a round it starts sees every change.
    pub fn tracks_applied(&mut self, updates: Vec<TrackChange>, negotiation_role: Option<NegotiationRole>)
        requires
            old(self).wf(),
            old(self)@.len() > 0,
        ensures
            final(self)@ == old(self)@.update(0, old(self)@[0].tracks_applied(updates@, negotiation_role)),
            final(self)@[0].negotiation_role is Some ==> final(self)@[0].rounds_in_flight() == 1,
            final(self).wf(),
    {
        assert(self.snapshot.peers@.len() == self@.len());
        let mut i: usize = 0;
        while i < updates.len()
            invariant
                i <= updates.len(),
                self.wf(),
                old(self)@.len() > 0,
                self.snapshot.peers@.len() == old(self)@.len(),
                self@ == old(self)@.update(0, old(self)@[0].changes_applied(updates@.take(i as int))),
            decreases updates.len() - i,
        {
            assert(updates@.take(i + 1).drop_last() =~= updates@.take(i as int));
            let ghost before = self.snapshot.peers@;
            assert(self@[0] == before[0]@);
            assert(self@[0].inv());
            self.snapshot.peers[0].apply_change(&updates[i]);
            proof {
                lemma_peer_views_update(before, 0, self.snapshot.peers@[0]);
                assert(self@ =~= old(self)@.update(0, old(self)@[0].changes_applied(updates@.take(i + 1))));
            }
            i += 1;
        }
        assert(updates@.take(updates.len() as int) =~= updates@);
        let ghost before = self.snapshot.peers@;
        assert(self@[0] == before[0]@);
        assert(self@[0].inv());
        self.snapshot.peers[0].set_negotiation_role(negotiation_role);
        proof {
            lemma_peer_views_update(before, 0, self.snapshot.peers@[0]);
            assert(self@ =~= old(self)@.update(0, old(self)@[0].tracks_applied(updates@, negotiation_role)));
        }
    }

    /// `SdpAnswerMade` for the first peer: the remote SDP is handed to its
    /// remote-offer applier.
    pub fn sdp_answer_made(&mut self, sdp_answer: String)
        requires
            old(self).wf(),
            old(self)@.len() > 0,
        ensures
            final(self)@ == old(self)@.update(0, old(self)@[0].offer_handed_over(sdp_answer)),
            final(self).wf(),
    {
        let ghost before = self.snapshot.peers@;
        assert(self@[0] == before[0]@);
        assert(self@[0].inv());
        self.snapshot.peers[0].hand_over_remote_offer(sdp_answer);
        proof {
            lemma_peer_views_update(before, 0, self.snapshot.peers@[0]);
            assert(self@ =~= old(self)@.update(0, old(self)@[0].offer_handed_over(sdp_answer)));
        }
    }

    /// One scheduling step of the tasks of peer `i`.
    pub fn advance(&mut self, i: usize) -> (r: Advance)
        requires
            old(self).wf(),
            i < old(self)@.len(),
        ensures
            final(self)@ == old(self)@.update(i as int, old(self)@[i as int].advanced().0),
            r == old(self)@[i as int].advanced().1,
            final(self).wf(),
    {
        let ghost before = self.snapshot.peers@;
        assert(self@[i as int] == before[i as int]@);
        assert(self@[i as int].inv());
        let r = self.snapshot.peers[i].advance();
        proof {
            lemma_peer_views_update(before, i as int, self.snapshot.peers@[i as int]);
            assert(self@ =~= old(self)@.update(i as int, old(self)@[i as int].advanced().0));
        }
        r
    }

    /// The outstanding call of peer `i` has returned.
    pub fn complete(&mut self, i: usize)
        requires
            old(self).wf(),
            i < old(self)@.len(),
            old(self)@[i as int].in_flight is Some,
        ensures
            final(self)@ == old(self)@.update(i as int, old(self)@[i as int].completed()),
            final(self).wf(),
    {
        let ghost before = self.snapshot.peers@;
        assert(self@[i as int] == before[i as int]@);
        assert(self@[i as int].inv());
        self.snapshot.peers[i].complete();
        proof {
            lemma_peer_views_update(before, i as int, self.snapshot.peers@[i as int]);
            assert(self@ =~= old(self)@.update(i as int, old(self)@[i as int].completed()));
        }
    }
}

} // verus!
