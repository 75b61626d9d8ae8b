//! The per-peer negotiation state machine.
//!
//! A `Peer` holds the desired state that server events write, and the
//! progress of five cooperative tasks that read it: the negotiation driver,
//! the ICE restart worker, the remote-offer applier, and the sender and
//! receiver workers, plus one mute listener per track. Each `advance` lets
//! the first task that can move take one step; a step that calls out to a
//! collaborator hands the call to the runtime as a `Command`, and the task
//! resumes when the runtime reports the call's end with `complete`.
use vstd::prelude::*;

use crate::model::{
    Advance, Command, DriverStage, NegotiationState, PeerModel, Task, TrackModel,
    after_remote_offer, has_pending, is_first_pending, is_first_with_id, tracks_of,
};
use crate::proto::{Direction, NegotiationRole, Track, TrackChange, TrackPatch};

verus! {

/// A sender or receiver: identity, desired mute state, and its mute listener.
#[derive(Debug)]
pub struct TrackState {
    id: u32,
    is_muted: bool,
    listening: bool,
    pending_mutes: Vec<bool>,
}

impl View for TrackState {
    type V = TrackModel;

    closed spec fn view(&self) -> TrackModel {
        TrackModel {
            id: self.id,
            is_muted: self.is_muted,
            listening: self.listening,
            pending: self.pending_mutes@,
        }
    }
}

pub open spec fn track_views(s: Seq<TrackState>) -> Seq<TrackModel> {
    s.map_values(|t: TrackState| t@)
}

proof fn lemma_views_push(s: Seq<TrackState>, t: TrackState)
    ensures
        track_views(s.push(t)) == track_views(s).push(t@),
{
    assert(track_views(s.push(t)) =~= track_views(s).push(t@));
}

proof fn lemma_views_update(s: Seq<TrackState>, i: int, t: TrackState)
    requires
        0 <= i < s.len(),
    ensures
        track_views(s.update(i, t)) == track_views(s).update(i, t@),
{
    assert(track_views(s.update(i, t)) =~= track_views(s).update(i, t@));
}

impl TrackState {
    fn new(id: u32, is_muted: bool) -> (r: TrackState)
        ensures
            r@ == TrackModel::fresh(id, is_muted),
    {
        TrackState { id, is_muted, listening: false, pending_mutes: Vec::new() }
    }

    pub fn id(&self) -> (r: u32)
        ensures
            r == self@.id,
    {
        self.id
    }

    pub fn is_muted(&self) -> (r: bool)
        ensures
            r == self@.is_muted,
    {
        self.is_muted
    }

    fn set_muted(&mut self, is_muted: bool)
        ensures
            final(self)@ == old(self)@.set_muted(is_muted),
    {
        if is_muted != self.is_muted {
            self.is_muted = is_muted;
            if self.listening {
                self.pending_mutes.push(is_muted);
            }
        }
    }

    fn start_listening(&mut self)
        ensures
            final(self)@ == old(self)@.start_listening(),
    {
        self.listening = true;
        self.pending_mutes = vec![self.is_muted];
        proof {
            assert(self.pending_mutes@ =~= seq![self.is_muted]);
        }
    }

    fn take_pending(&mut self) -> (r: bool)
        requires
            old(self)@.pending.len() > 0,
        ensures
            r == old(self)@.pending[0],
            final(self)@ == (TrackModel { pending: old(self)@.pending.drop_first(), ..old(self)@ }),
    {
        let r = self.pending_mutes.remove(0);
        proof {
            assert(self.pending_mutes@ =~= old(self)@.pending.drop_first());
        }
        r
    }
}

/// The first track of `s` with identity `id`.
fn find_track(s: &Vec<TrackState>, id: u32) -> (r: Option<usize>)
    ensures
        r matches Some(i) ==> is_first_with_id(track_views(s@), id, i as int),
        r is None ==> !exists|i: int| is_first_with_id(track_views(s@), id, i),
{
    let mut i: usize = 0;
    while i < s.len()
        invariant
            i <= s.len(),
            forall|j: int| 0 <= j < i ==> track_views(s@)[j].id != id,
        decreases s.len() - i,
    {
        if s[i].id == id {
            return Some(i);
        }
        i += 1;
    }
    None
}

/// The first listening track of `s` with a mute value to apply.
fn find_pending(s: &Vec<TrackState>) -> (r: Option<usize>)
    ensures
        r matches Some(i) ==> is_first_pending(track_views(s@), i as int),
        r is None ==> !has_pending(track_views(s@)),
{
    let mut i: usize = 0;
    while i < s.len()
        invariant
            i <= s.len(),
            forall|j: int|
                0 <= j < i ==> !(track_views(s@)[j].listening && track_views(s@)[j].pending.len()
                    > 0),
        decreases s.len() - i,
    {
        if s[i].listening && s[i].pending_mutes.len() > 0 {
            return Some(i);
        }
        i += 1;
    }
    None
}

/// How `negotiation_state` moves once a remote offer has been applied.
pub fn after_remote_offer_applied(s: NegotiationState) -> (r: NegotiationState)
    ensures
        r == after_remote_offer(s),
{
    match s {
        NegotiationState::Stable => NegotiationState::HaveRemote,
        NegotiationState::HaveLocal => NegotiationState::Stable,
        NegotiationState::HaveRemote => NegotiationState::HaveRemote,
    }
}

/// One peer: desired state and the progress of its tasks.
pub struct Peer {
    senders: Vec<TrackState>,
    receivers: Vec<TrackState>,
    restart_ice: bool,
    negotiation_role: Option<NegotiationRole>,
    negotiation_state: NegotiationState,
    remote_sdp_offer: Option<String>,
    senders_added: usize,
    sender_waiting: bool,
    receivers_added: usize,
    ice_pending: bool,
    pending_offers: Vec<String>,
    driver: DriverStage,
    in_flight: Option<Task>,
    round_calls: Ghost<Seq<Command>>,
}

impl View for Peer {
    type V = PeerModel;

    closed spec fn view(&self) -> PeerModel {
        PeerModel {
            senders: track_views(self.senders@),
            receivers: track_views(self.receivers@),
            restart_ice: self.restart_ice,
            negotiation_role: self.negotiation_role,
            negotiation_state: self.negotiation_state,
            remote_sdp_offer: self.remote_sdp_offer,
            senders_added: self.senders_added as nat,
            sender_waiting: self.sender_waiting,
            receivers_added: self.receivers_added as nat,
            ice_pending: self.ice_pending,
            pending_offers: self.pending_offers@,
            driver: self.driver,
            in_flight: self.in_flight,
            round_calls: self.round_calls@,
        }
    }
}

impl Peer {
    /// A peer as `PeerCreated` makes it: `tracks` split into senders and
    /// receivers in order, and a negotiation round requested in `role`.
    pub fn new(tracks: Vec<Track>, role: NegotiationRole) -> (r: Peer)
        ensures
            r@ == PeerModel::created(tracks@, role),
            r@.inv(),
    {
        let mut senders: Vec<TrackState> = Vec::new();
        let mut receivers: Vec<TrackState> = Vec::new();
        let mut i: usize = 0;
        while i < tracks.len()
            invariant
                i <= tracks.len(),
                track_views(senders@) == tracks_of(tracks@.take(i as int), Direction::Send),
                track_views(receivers@) == tracks_of(tracks@.take(i as int), Direction::Recv),
            decreases tracks.len() - i,
        {
            let t = &tracks[i];
            let ghost done = tracks@.take(i as int);
            assert(tracks@.take(i + 1).drop_last() =~= done);
            match t.direction {
                Direction::Send => {
                    let ts = TrackState::new(t.id, t.is_muted);
                    proof {
                        lemma_views_push(senders@, ts);
                    }
                    senders.push(ts);
                },
                Direction::Recv => {
                    let ts = TrackState::new(t.id, t.is_muted);
                    proof {
                        lemma_views_push(receivers@, ts);
                    }
                    receivers.push(ts);
                },
            }
            i += 1;
        }
        assert(tracks@.take(tracks.len() as int) =~= tracks@);
        proof {
            crate::model::lemma_created_inv(tracks@, role);
        }
        Peer {
            senders,
            receivers,
            restart_ice: false,
            negotiation_role: Some(role),
            negotiation_state: NegotiationState::Stable,
            remote_sdp_offer: None,
            senders_added: 0,
            sender_waiting: false,
            receivers_added: 0,
            ice_pending: false,
            pending_offers: Vec::new(),
            driver: DriverStage::Idle,
            in_flight: None,
            round_calls: Ghost(Seq::empty()),
        }
    }

    pub fn negotiation_role(&self) -> (r: &Option<NegotiationRole>)
        ensures
            *r == self@.negotiation_role,
    {
        &self.negotiation_role
    }

    pub fn negotiation_state(&self) -> (r: NegotiationState)
        ensures
            r == self@.negotiation_state,
    {
        self.negotiation_state
    }

    pub fn restart_ice(&self) -> (r: bool)
        ensures
            r == self@.restart_ice,
    {
        self.restart_ice
    }

    pub fn remote_sdp_offer(&self) -> (r: &Option<String>)
        ensures
            *r == self@.remote_sdp_offer,
    {
        &self.remote_sdp_offer
    }

    pub fn senders(&self) -> (r: &Vec<TrackState>)
        ensures
            track_views(r@) == self@.senders,
    {
        &self.senders
    }

    pub fn receivers(&self) -> (r: &Vec<TrackState>)
        ensures
            track_views(r@) == self@.receivers,
    {
        &self.receivers
    }

    fn push_track(&mut self, t: &Track)
        ensures
            final(self)@ == old(self)@.track_pushed(*t),
    {
        let ts = TrackState::new(t.id, t.is_muted);
        match t.direction {
            Direction::Send => {
                proof {
                    lemma_views_push(self.senders@, ts);
                }
                self.senders.push(ts);
            },
            Direction::Recv => {
                proof {
                    lemma_views_push(self.receivers@, ts);
                }
                self.receivers.push(ts);
            },
        }
    }

    fn patch_track(&mut self, patch: &TrackPatch)
        ensures
            final(self)@ == old(self)@.track_patched(*patch),
    {
        let ghost m = self@;
        match find_track(&self.senders, patch.id) {
            Some(i) => {
                assert(exists|k: int| is_first_with_id(m.senders, patch.id, k));
                let ghost k = choose|k: int| is_first_with_id(m.senders, patch.id, k);
                assert(k == i);
                if let Some(is_muted) = patch.is_muted {
                    self.senders[i].set_muted(is_muted);
                    proof {
                        lemma_views_update(old(self).senders@, i as int, self.senders@[i as int]);
                    }
                }
                assert(self@ =~= m.track_patched(*patch));
            },
            None => match find_track(&self.receivers, patch.id) {
                Some(i) => {
                    assert(exists|k: int| is_first_with_id(m.receivers, patch.id, k));
                    let ghost k = choose|k: int| is_first_with_id(m.receivers, patch.id, k);
                    assert(k == i);
                    if let Some(is_muted) = patch.is_muted {
                        self.receivers[i].set_muted(is_muted);
                        proof {
                            lemma_views_update(
                                old(self).receivers@,
                                i as int,
                                self.receivers@[i as int],
                            );
                        }
                    }
                    assert(self@ =~= m.track_patched(*patch));
                },
                None => {},
            },
        }
    }

    fn request_ice_restart(&mut self)
        ensures
            final(self)@ == old(self)@.ice_restart_requested(),
    {
        if !self.restart_ice {
            self.restart_ice = true;
            self.ice_pending = true;
        }
    }

    /// Applies one change of a `TrackUpdate` event.
    pub fn apply_change(&mut self, change: &TrackChange)
        requires
            old(self)@.inv(),
        ensures
            final(self)@ == old(self)@.change_applied(*change),
            final(self)@.inv(),
    {
        match change {
            TrackChange::Added(t) => self.push_track(t),
            TrackChange::Update(p) => self.patch_track(p),
            TrackChange::IceRestart => self.request_ice_restart(),
        }
        proof {
            crate::model::lemma_change_inv(old(self)@, *change);
        }
    }

    /// Sets the negotiation role; a role set on an idle driver starts a round.
    pub fn set_negotiation_role(&mut self, role: Option<NegotiationRole>)
        requires
            old(self)@.inv(),
        ensures
            final(self)@ == (PeerModel { negotiation_role: role, ..old(self)@ }),
            final(self)@.inv(),
    {
        self.negotiation_role = role;
    }

    /// Hands a remote SDP to the remote-offer applier, which applies it to
    /// the peer connection in turn, also when it equals the previous one.
    pub fn hand_over_remote_offer(&mut self, sdp: String)
        requires
            old(self)@.inv(),
        ensures
            final(self)@ == old(self)@.offer_handed_over(sdp),
            final(self)@.inv(),
    {
        self.remote_sdp_offer = Some(sdp.clone());
        self.pending_offers.push(sdp);
        proof {
            crate::model::lemma_offer_handed_over_inv(old(self)@, sdp);
        }
    }

    fn call(&mut self, task: Task, c: Command) -> (r: Advance)
        requires
            old(self).in_flight is None,
        ensures
            final(self)@ == old(self)@.calling(task, c),
            r == Advance::Call(c),
    {
        self.in_flight = Some(task);
        self.round_calls = Ghost(self.round_calls@.push(c));
        Advance::Call(c)
    }


    fn sender_step(&mut self) -> (r: Option<Advance>)
        requires
            old(self).in_flight is None,
        ensures
            old(self)@.sender_step() is None ==> r is None && final(self)@ == old(self)@,
            old(self)@.sender_step() matches Some(p) ==> r == Some(p.1) && final(self)@ == p.0,
    {
        if self.senders_added < self.senders.len() && (!self.sender_waiting
            || self.negotiation_state == NegotiationState::HaveRemote) {
            let answering = match &self.negotiation_role {
                Some(NegotiationRole::Answerer(_)) => true,
                _ => false,
            };
            if !self.sender_waiting && answering && self.negotiation_state
                != NegotiationState::HaveRemote {
                self.sender_waiting = true;
                return Some(Advance::Progress);
            }
            let id = self.senders[self.senders_added].id;
            self.sender_waiting = false;
            Some(self.call(Task::SenderAdded, Command::AddTransceiver { direction: Direction::Send, id }))
        } else {
            None
        }
    }

    fn mute_step(&mut self) -> (r: Option<Advance>)
        requires
            old(self).in_flight is None,
        ensures
            old(self)@.mute_step() is None ==> r is None && final(self)@ == old(self)@,
            old(self)@.mute_step() matches Some(p) ==> r == Some(p.1) && final(self)@ == p.0,
    {
        let ghost m = self@;
        match find_pending(&self.senders) {
            Some(i) => {
                let ghost k = crate::model::first_pending(m.senders);
                assert(k == i);
                let muted = self.senders[i].take_pending();
                proof {
                    lemma_views_update(old(self).senders@, i as int, self.senders@[i as int]);
                }
                let id = self.senders[i].id;
                let r = self.call(
                    Task::Muted { direction: Direction::Send, index: i },
                    Command::SetEnabled { direction: Direction::Send, id, enabled: !muted },
                );
                assert(self@ =~= m.mute_step().unwrap().0);
                Some(r)
            },
            None => match find_pending(&self.receivers) {
                Some(i) => {
                    let ghost k = crate::model::first_pending(m.receivers);
                    assert(k == i);
                    let muted = self.receivers[i].take_pending();
                    proof {
                        lemma_views_update(old(self).receivers@, i as int, self.receivers@[i as int]);
                    }
                    let id = self.receivers[i].id;
                    let r = self.call(
                        Task::Muted { direction: Direction::Recv, index: i },
                        Command::SetEnabled { direction: Direction::Recv, id, enabled: !muted },
                    );
                    assert(self@ =~= m.mute_step().unwrap().0);
                    Some(r)
                },
                None => None,
            },
        }
    }

    fn driver_step(&mut self) -> (r: Advance)
        requires
            old(self).in_flight is None,
        ensures
            (final(self)@, r) == old(self)@.driver_step(),
    {
        match &self.driver {
            DriverStage::Idle => match &self.negotiation_role {
                None => Advance::Idle,
                Some(NegotiationRole::Offerer) => {
                    self.driver = DriverStage::OffererAwaitPushes;
                    self.round_calls = Ghost(Seq::empty());
                    Advance::Progress
                },
                Some(NegotiationRole::Answerer(sdp)) => {
                    let sdp = sdp.clone();
                    self.driver = DriverStage::AnswererAwaitReceivers(sdp);
                    self.round_calls = Ghost(Seq::empty());
                    Advance::Progress
                },
            },
            DriverStage::OffererAwaitPushes => {
                if self.senders_added >= self.senders.len() && self.receivers_added
                    >= self.receivers.len() && !self.ice_pending {
                    self.driver = DriverStage::OffererCreating;
                    self.call(Task::Driver, Command::CreateLocalOffer)
                } else {
                    Advance::Idle
                }
            },
            DriverStage::OffererAwaitStable => {
                if self.negotiation_state == NegotiationState::Stable {
                    self.driver = DriverStage::Idle;
                    self.negotiation_role = None;
                    Advance::Progress
                } else {
                    Advance::Idle
                }
            },
            DriverStage::AnswererAwaitReceivers(sdp) => {
                if self.receivers_added >= self.receivers.len() {
                    let sdp = sdp.clone();
                    self.remote_sdp_offer = Some(sdp.clone());
                    self.pending_offers.push(sdp.clone());
                    self.driver = DriverStage::AnswererAwaitSenders(sdp);
                    Advance::Progress
                } else {
                    Advance::Idle
                }
            },
            DriverStage::AnswererAwaitSenders(sdp) => {
                if self.senders_added >= self.senders.len() && !self.ice_pending {
                    let sdp = sdp.clone();
                    self.driver = DriverStage::AnswererCreating(sdp);
                    self.call(Task::Driver, Command::CreateLocalOffer)
                } else {
                    Advance::Idle
                }
            },
            _ => Advance::Idle,
        }
    }

    /// One scheduling step: the first task that can move takes one step.
    pub fn advance(&mut self) -> (r: Advance)
        requires
            old(self)@.inv(),
        ensures
            (final(self)@, r) == old(self)@.advanced(),
            final(self)@.inv(),
    {
        proof {
            crate::model::lemma_advanced_inv(self@);
        }
        if self.in_flight.is_some() {
            return Advance::Idle;
        }
        if self.ice_pending {
            self.ice_pending = false;
            return self.call(Task::IceRestart, Command::RestartIce);
        }
        if self.pending_offers.len() > 0 {
            let sdp = self.pending_offers.remove(0);
            assert(self.pending_offers@ =~= old(self)@.pending_offers.drop_first());
            return self.call(Task::RemoteOffer, Command::SetRemoteOffer(sdp));
        }
        if self.receivers_added < self.receivers.len() {
            let id = self.receivers[self.receivers_added].id;
            return self.call(
                Task::ReceiverAdded,
                Command::AddTransceiver { direction: Direction::Recv, id },
            );
        }
        if let Some(r) = self.sender_step() {
            return r;
        }
        if let Some(r) = self.mute_step() {
            return r;
        }
        self.driver_step()
    }

    /// The outstanding collaborator call has returned: its task resumes.
    pub fn complete(&mut self)
        requires
            old(self)@.inv(),
            old(self)@.in_flight is Some,
        ensures
            final(self)@ == old(self)@.completed(),
            final(self)@.inv(),
    {
        proof {
            crate::model::lemma_completed_inv(self@);
        }
        match self.in_flight {
            Some(Task::IceRestart) => {
                self.restart_ice = false;
            },
            Some(Task::RemoteOffer) => {
                self.negotiation_state = after_remote_offer_applied(self.negotiation_state);
            },
            Some(Task::ReceiverAdded) => {
                let i = self.receivers_added;
                assert(self@.receivers_added < self@.receivers.len());
                assert(i < self.receivers.len());
                self.receivers[i].start_listening();
                proof {
                    lemma_views_update(old(self).receivers@, i as int, self.receivers@[i as int]);
                }
                self.receivers_added = i + 1;
            },
            Some(Task::SenderAdded) => {
                let i = self.senders_added;
                assert(self@.senders_added < self@.senders.len());
                assert(i < self.senders.len());
                self.senders[i].start_listening();
                proof {
                    lemma_views_update(old(self).senders@, i as int, self.senders@[i as int]);
                }
                self.senders_added = i + 1;
            },
            Some(Task::Driver) => {
                if matches!(self.driver, DriverStage::OffererCreating) {
                    self.negotiation_state = NegotiationState::HaveLocal;
                    self.driver = DriverStage::OffererAwaitStable;
                } else {
                    self.negotiation_state = NegotiationState::Stable;
                    self.negotiation_role = None;
                    self.driver = DriverStage::Idle;
                }
            },
            _ => {},
        }
        self.in_flight = None;
    }
}

} // verus!
