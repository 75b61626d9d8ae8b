//! Mathematical model of one peer: its desired state, the progress of its
//! five cooperative tasks, and the transitions that events, scheduling
//! steps and finished collaborator calls make on it.
use vstd::prelude::*;

use crate::proto::{Direction, NegotiationRole, Track, TrackChange, TrackPatch};

verus! {

/// The SDP half of the peer connection's signalling state.
#[derive(Clone, Copy, Debug, PartialEq, Eq, Structural)]
pub enum NegotiationState {
    HaveRemote,
    HaveLocal,
    Stable,
}

/// A call on a collaborator that the peer asks its runtime to perform.
#[derive(Clone, Debug, PartialEq, Eq)]
pub enum Command {
    /// `PeerConnection::add_transceiver` for the track `id` of `direction`.
    AddTransceiver { direction: Direction, id: u32 },
    /// `PeerConnection::set_remote_offer`.
    SetRemoteOffer(String),
    /// `PeerConnection::create_local_offer`.
    CreateLocalOffer,
    /// `PeerConnection::restart_ice`.
    RestartIce,
    /// `MediaStreamTrack::set_enabled` on the track `id` of `direction`.
    SetEnabled { direction: Direction, id: u32, enabled: bool },
}

/// The task whose collaborator call is outstanding.
#[derive(Clone, Copy, Debug, PartialEq, Eq, Structural)]
pub enum Task {
    IceRestart,
    RemoteOffer,
    ReceiverAdded,
    SenderAdded,
    /// The mute listener of track `index` of the sequence of `direction`.
    Muted { direction: Direction, index: usize },
    Driver,
}

/// Where the negotiation driver stands in its round.
#[derive(Clone, Debug, PartialEq, Eq)]
pub enum DriverStage {
    /// No round running; one starts as soon as a role is set.
    Idle,
    /// Offerer: waiting for pushed tracks and the ICE restart to settle.
    OffererAwaitPushes,
    /// Offerer: the local offer is being created.
    OffererCreating,
    /// Offerer: waiting for the remote answer to bring back `Stable`.
    OffererAwaitStable,
    /// Answerer: waiting for pushed receivers before handing over the offer.
    AnswererAwaitReceivers(String),
    /// Answerer: offer handed over; waiting for senders and the ICE restart.
    AnswererAwaitSenders(String),
    /// Answerer: the local answer is being created.
    AnswererCreating(String),
}

/// What one scheduling step of a peer did.
#[derive(Clone, Debug, PartialEq, Eq)]
pub enum Advance {
    /// A task issued this call; report its end with `complete`.
    Call(Command),
    /// A task moved on without calling out; step again.
    Progress,
    /// No task can move until a call ends or an event arrives.
    Idle,
}

/// Model of a sender or receiver: its desired mute state and its mute
/// listener, with the mute values notified to the listener and not yet
/// applied, oldest first.
pub struct TrackModel {
    pub id: u32,
    pub is_muted: bool,
    pub listening: bool,
    pub pending: Seq<bool>,
}

/// Model of a peer.
pub struct PeerModel {
    pub senders: Seq<TrackModel>,
    pub receivers: Seq<TrackModel>,
    pub restart_ice: bool,
    pub negotiation_role: Option<NegotiationRole>,
    pub negotiation_state: NegotiationState,
    pub remote_sdp_offer: Option<String>,
    /// Senders whose transceiver has been added, in push order.
    pub senders_added: nat,
    /// The sender worker is parked until `negotiation_state` is `HaveRemote`.
    pub sender_waiting: bool,
    /// Receivers whose transceiver has been added, in push order.
    pub receivers_added: nat,
    /// A `true` of `restart_ice` not yet taken up by the ICE worker.
    pub ice_pending: bool,
    /// Remote offers handed over and not yet applied, oldest first.
    pub pending_offers: Seq<String>,
    pub driver: DriverStage,
    pub in_flight: Option<Task>,
    /// The calls issued since the current negotiation round started.
    pub round_calls: Seq<Command>,
}

impl TrackModel {
    pub open spec fn fresh(id: u32, is_muted: bool) -> TrackModel {
        TrackModel { id, is_muted, listening: false, pending: seq![] }
    }

    /// Writes the mute state; a listener is notified only of a change.
    pub open spec fn set_muted(self, is_muted: bool) -> TrackModel {
        if is_muted == self.is_muted {
            self
        } else if self.listening {
            TrackModel { is_muted, pending: self.pending.push(is_muted), ..self }
        } else {
            TrackModel { is_muted, ..self }
        }
    }

    /// Spawns the mute listener; its subscription first yields the current value.
    pub open spec fn start_listening(self) -> TrackModel {
        TrackModel { listening: true, pending: seq![self.is_muted], ..self }
    }
}

/// The tracks of `direction` among `tracks`, in order, as fresh track models.
pub open spec fn tracks_of(tracks: Seq<Track>, direction: Direction) -> Seq<TrackModel>
    decreases tracks.len(),
{
    if tracks.len() == 0 {
        seq![]
    } else {
        let rest = tracks_of(tracks.drop_last(), direction);
        let t = tracks.last();
        if t.direction == direction {
            rest.push(TrackModel::fresh(t.id, t.is_muted))
        } else {
            rest
        }
    }
}

/// `i` is the first index of a track with identity `id`.
pub open spec fn is_first_with_id(s: Seq<TrackModel>, id: u32, i: int) -> bool {
    &&& 0 <= i < s.len()
    &&& s[i].id == id
    &&& forall|j: int| 0 <= j < i ==> s[j].id != id
}

/// `i` is the first index of a listening track with a pending mute value.
pub open spec fn is_first_pending(s: Seq<TrackModel>, i: int) -> bool {
    &&& 0 <= i < s.len()
    &&& s[i].listening && s[i].pending.len() > 0
    &&& forall|j: int| 0 <= j < i ==> !(s[j].listening && s[j].pending.len() > 0)
}

pub open spec fn has_pending(s: Seq<TrackModel>) -> bool {
    exists|i: int| is_first_pending(s, i)
}

pub open spec fn first_pending(s: Seq<TrackModel>) -> int {
    choose|i: int| is_first_pending(s, i)
}

/// Number of `CreateLocalOffer` calls in `calls`.
pub open spec fn count_offers(calls: Seq<Command>) -> nat
    decreases calls.len(),
{
    if calls.len() == 0 {
        0
    } else {
        count_offers(calls.drop_last()) + if calls.last() is CreateLocalOffer {
            1nat
        } else {
            0nat
        }
    }
}

/// Transition of `negotiation_state` once a remote offer has been applied.
pub open spec fn after_remote_offer(s: NegotiationState) -> NegotiationState {
    match s {
        NegotiationState::Stable => NegotiationState::HaveRemote,
        NegotiationState::HaveLocal => NegotiationState::Stable,
        NegotiationState::HaveRemote => NegotiationState::HaveRemote,
    }
}

/// Applies `is_muted` of a patch to the track at `i`, if it carries one.
pub open spec fn patch_track(s: Seq<TrackModel>, i: int, patch: TrackPatch) -> Seq<TrackModel> {
    match patch.is_muted {
        Some(m) => s.update(i, s[i].set_muted(m)),
        None => s,
    }
}

impl PeerModel {
    /// A peer as `PeerCreated` makes it: the tracks split by direction and
    /// a round requested in `role`.
    pub open spec fn created(tracks: Seq<Track>, role: NegotiationRole) -> PeerModel {
        PeerModel {
            senders: tracks_of(tracks, Direction::Send),
            receivers: tracks_of(tracks, Direction::Recv),
            restart_ice: false,
            negotiation_role: Some(role),
            negotiation_state: NegotiationState::Stable,
            remote_sdp_offer: None,
            senders_added: 0,
            sender_waiting: false,
            receivers_added: 0,
            ice_pending: false,
            pending_offers: seq![],
            driver: DriverStage::Idle,
            in_flight: None,
            round_calls: seq![],
        }
    }

    pub open spec fn track_pushed(self, t: Track) -> PeerModel {
        match t.direction {
            Direction::Send => PeerModel {
                senders: self.senders.push(TrackModel::fresh(t.id, t.is_muted)),
                ..self
            },
            Direction::Recv => PeerModel {
                receivers: self.receivers.push(TrackModel::fresh(t.id, t.is_muted)),
                ..self
            },
        }
    }

    /// `Update(patch)`: the first sender with the id, else the first
    /// receiver with it; an unknown id changes nothing.
    pub open spec fn track_patched(self, patch: TrackPatch) -> PeerModel {
        if exists|i: int| is_first_with_id(self.senders, patch.id, i) {
            let i = choose|i: int| is_first_with_id(self.senders, patch.id, i);
            PeerModel { senders: patch_track(self.senders, i, patch), ..self }
        } else if exists|i: int| is_first_with_id(self.receivers, patch.id, i) {
            let i = choose|i: int| is_first_with_id(self.receivers, patch.id, i);
            PeerModel { receivers: patch_track(self.receivers, i, patch), ..self }
        } else {
            self
        }
    }

    /// Mute state of the track that an `Update` of `id` addresses.
    pub open spec fn muted_of(self, id: u32) -> Option<bool> {
        if exists|i: int| is_first_with_id(self.senders, id, i) {
            Some(self.senders[choose|i: int| is_first_with_id(self.senders, id, i)].is_muted)
        } else if exists|i: int| is_first_with_id(self.receivers, id, i) {
            Some(self.receivers[choose|i: int| is_first_with_id(self.receivers, id, i)].is_muted)
        } else {
            None
        }
    }

    /// `IceRestart`: the ICE worker is notified only if the flag changes.
    pub open spec fn ice_restart_requested(self) -> PeerModel {
        if self.restart_ice {
            self
        } else {
            PeerModel { restart_ice: true, ice_pending: true, ..self }
        }
    }

    pub open spec fn change_applied(self, c: TrackChange) -> PeerModel {
        match c {
            TrackChange::Added(t) => self.track_pushed(t),
            TrackChange::Update(p) => self.track_patched(p),
            TrackChange::IceRestart => self.ice_restart_requested(),
        }
    }

    pub open spec fn changes_applied(self, cs: Seq<TrackChange>) -> PeerModel
        decreases cs.len(),
    {
        if cs.len() == 0 {
            self
        } else {
            self.changes_applied(cs.drop_last()).change_applied(cs.last())
        }
    }

    /// `TrackUpdate`: the changes in list order, then the role, last.
    pub open spec fn tracks_applied(
        self,
        cs: Seq<TrackChange>,
        role: Option<NegotiationRole>,
    ) -> PeerModel {
        PeerModel { negotiation_role: role, ..self.changes_applied(cs) }
    }

    /// A remote SDP handed to the remote-offer applier.
    pub open spec fn offer_handed_over(self, sdp: String) -> PeerModel {
        PeerModel {
            remote_sdp_offer: Some(sdp),
            pending_offers: self.pending_offers.push(sdp),
            ..self
        }
    }

    pub open spec fn senders_settled(self) -> bool {
        self.senders_added >= self.senders.len()
    }

    pub open spec fn receivers_settled(self) -> bool {
        self.receivers_added >= self.receivers.len()
    }

    /// Issues `c` on behalf of `task`.
    pub open spec fn calling(self, task: Task, c: Command) -> PeerModel {
        PeerModel { in_flight: Some(task), round_calls: self.round_calls.push(c), ..self }
    }

    /// A step of the negotiation driver, which runs when no other task can.
    pub open spec fn driver_step(self) -> (PeerModel, Advance) {
        match self.driver {
            DriverStage::Idle => match self.negotiation_role {
                None => (self, Advance::Idle),
                Some(NegotiationRole::Offerer) => (
                    PeerModel { driver: DriverStage::OffererAwaitPushes, round_calls: seq![], ..self },
                    Advance::Progress,
                ),
                Some(NegotiationRole::Answerer(sdp)) => (
                    PeerModel {
                        driver: DriverStage::AnswererAwaitReceivers(sdp),
                        round_calls: seq![],
                        ..self
                    },
                    Advance::Progress,
                ),
            },
            DriverStage::OffererAwaitPushes => if self.senders_settled()
                && self.receivers_settled() && !self.ice_pending {
                (
                    PeerModel {
                        driver: DriverStage::OffererCreating,
                        ..self.calling(Task::Driver, Command::CreateLocalOffer)
                    },
                    Advance::Call(Command::CreateLocalOffer),
                )
            } else {
                (self, Advance::Idle)
            },
            DriverStage::OffererAwaitStable => if self.negotiation_state
                == NegotiationState::Stable {
                (
                    PeerModel { driver: DriverStage::Idle, negotiation_role: None, ..self },
                    Advance::Progress,
                )
            } else {
                (self, Advance::Idle)
            },
            DriverStage::AnswererAwaitReceivers(sdp) => if self.receivers_settled() {
                (
                    PeerModel {
                        driver: DriverStage::AnswererAwaitSenders(sdp),
                        ..self.offer_handed_over(sdp)
                    },
                    Advance::Progress,
                )
            } else {
                (self, Advance::Idle)
            },
            DriverStage::AnswererAwaitSenders(sdp) => if self.senders_settled()
                && !self.ice_pending {
                (
                    PeerModel {
                        driver: DriverStage::AnswererCreating(sdp),
                        ..self.calling(Task::Driver, Command::CreateLocalOffer)
                    },
                    Advance::Call(Command::CreateLocalOffer),
                )
            } else {
                (self, Advance::Idle)
            },
            _ => (self, Advance::Idle),
        }
    }

    /// A step of the sender worker on the next pushed sender; `None` while
    /// it has nothing to do or stays parked.
    pub open spec fn sender_step(self) -> Option<(PeerModel, Advance)> {
        if self.senders_added < self.senders.len() && (self.sender_waiting ==> self.negotiation_state
            == NegotiationState::HaveRemote) {
            if !self.sender_waiting && (self.negotiation_role matches Some(
                NegotiationRole::Answerer(_),
            )) && self.negotiation_state != NegotiationState::HaveRemote {
                Some((PeerModel { sender_waiting: true, ..self }, Advance::Progress))
            } else {
                let c = Command::AddTransceiver {
                    direction: Direction::Send,
                    id: self.senders[self.senders_added as int].id,
                };
                Some(
                    (
                        PeerModel { sender_waiting: false, ..self.calling(Task::SenderAdded, c) },
                        Advance::Call(c),
                    ),
                )
            }
        } else {
            None
        }
    }

    /// A step of the first mute listener that has a value to apply.
    pub open spec fn mute_step(self) -> Option<(PeerModel, Advance)> {
        if has_pending(self.senders) {
            let i = first_pending(self.senders);
            let t = self.senders[i];
            let c = Command::SetEnabled { direction: Direction::Send, id: t.id, enabled: !t.pending[0] };
            Some(
                (
                    PeerModel {
                        senders: self.senders.update(i, TrackModel { pending: t.pending.drop_first(), ..t }),
                        ..self.calling(Task::Muted { direction: Direction::Send, index: i as usize }, c)
                    },
                    Advance::Call(c),
                ),
            )
        } else if has_pending(self.receivers) {
            let i = first_pending(self.receivers);
            let t = self.receivers[i];
            let c = Command::SetEnabled { direction: Direction::Recv, id: t.id, enabled: !t.pending[0] };
            Some(
                (
                    PeerModel {
                        receivers: self.receivers.update(i, TrackModel { pending: t.pending.drop_first(), ..t }),
                        ..self.calling(Task::Muted { direction: Direction::Recv, index: i as usize }, c)
                    },
                    Advance::Call(c),
                ),
            )
        } else {
            None
        }
    }

    /// One scheduling step. Nothing moves while a call is outstanding.
    /// Otherwise the first task that can move does, in this order: the ICE
    /// worker, the remote-offer applier, the receiver worker, the sender
    /// worker, the mute listeners, and last the negotiation driver.
    pub open spec fn advanced(self) -> (PeerModel, Advance) {
        if self.in_flight is Some {
            (self, Advance::Idle)
        } else if self.ice_pending {
            (
                PeerModel { ice_pending: false, ..self.calling(Task::IceRestart, Command::RestartIce) },
                Advance::Call(Command::RestartIce),
            )
        } else if self.pending_offers.len() > 0 {
            let sdp = self.pending_offers[0];
            (
                PeerModel {
                    pending_offers: self.pending_offers.drop_first(),
                    ..self.calling(Task::RemoteOffer, Command::SetRemoteOffer(sdp))
                },
                Advance::Call(Command::SetRemoteOffer(sdp)),
            )
        } else if self.receivers_added < self.receivers.len() {
            let c = Command::AddTransceiver {
                direction: Direction::Recv,
                id: self.receivers[self.receivers_added as int].id,
            };
            (self.calling(Task::ReceiverAdded, c), Advance::Call(c))
        } else if self.sender_step() is Some {
            self.sender_step().unwrap()
        } else if self.mute_step() is Some {
            self.mute_step().unwrap()
        } else {
            self.driver_step()
        }
    }

    /// The outstanding call has returned; its task takes its next step.
    pub open spec fn completed(self) -> PeerModel {
        let done = PeerModel { in_flight: None, ..self };
        match self.in_flight {
            Some(Task::IceRestart) => PeerModel { restart_ice: false, ..done },
            Some(Task::RemoteOffer) => PeerModel {
                negotiation_state: after_remote_offer(self.negotiation_state),
                ..done
            },
            Some(Task::ReceiverAdded) => PeerModel {
                receivers: self.receivers.update(
                    self.receivers_added as int,
                    self.receivers[self.receivers_added as int].start_listening(),
                ),
                receivers_added: self.receivers_added + 1,
                ..done
            },
            Some(Task::SenderAdded) => PeerModel {
                senders: self.senders.update(
                    self.senders_added as int,
                    self.senders[self.senders_added as int].start_listening(),
                ),
                senders_added: self.senders_added + 1,
                ..done
            },
            Some(Task::Driver) => match self.driver {
                DriverStage::OffererCreating => PeerModel {
                    negotiation_state: NegotiationState::HaveLocal,
                    driver: DriverStage::OffererAwaitStable,
                    ..done
                },
                _ => PeerModel {
                    negotiation_state: NegotiationState::Stable,
                    negotiation_role: None,
                    driver: DriverStage::Idle,
                    ..done
                },
            },
            _ => done,
        }
    }

    /// Negotiation-driver iterations in flight: the running round, or the
    /// one a set role makes the idle driver start.
    pub open spec fn rounds_in_flight(self) -> nat {
        if self.driver != DriverStage::Idle {
            1
        } else if self.negotiation_role is Some {
            1
        } else {
            0
        }
    }

    /// The invariant that every reachable peer state keeps.
    pub open spec fn inv(self) -> bool {
        &&& self.senders_added <= self.senders.len()
        &&& self.receivers_added <= self.receivers.len()
        &&& self.sender_waiting ==> self.senders_added < self.senders.len()
        &&& self.restart_ice ==> (self.ice_pending || self.in_flight == Some(Task::IceRestart))
        &&& self.in_flight == Some(Task::ReceiverAdded) ==> self.receivers_added < self.receivers.len()
        &&& self.in_flight == Some(Task::SenderAdded) ==> self.senders_added < self.senders.len()
            && !self.sender_waiting
        &&& (self.in_flight == Some(Task::Driver) <==> (self.driver == DriverStage::OffererCreating
            || self.driver is AnswererCreating))
        &&& match self.driver {
            DriverStage::Idle => true,
            DriverStage::OffererAwaitPushes => count_offers(self.round_calls) == 0,
            DriverStage::AnswererAwaitReceivers(_) => count_offers(self.round_calls) == 0,
            DriverStage::AnswererAwaitSenders(sdp) => {
                &&& count_offers(self.round_calls) == 0
                &&& (self.pending_offers.contains(sdp) || self.round_calls.contains(
                    Command::SetRemoteOffer(sdp),
                ))
            },
            DriverStage::AnswererCreating(sdp) => {
                &&& count_offers(self.round_calls) == 1
                &&& self.round_calls.contains(Command::SetRemoteOffer(sdp))
            },
            _ => count_offers(self.round_calls) == 1,
        }
    }
}

proof fn lemma_count_push(s: Seq<Command>, c: Command)
    ensures
        count_offers(s.push(c)) == count_offers(s) + if c is CreateLocalOffer {
            1nat
        } else {
            0nat
        },
{
    assert(s.push(c).drop_last() =~= s);
}

proof fn lemma_contains_push<T>(s: Seq<T>, x: T, y: T)
    requires
        s.contains(x),
    ensures
        s.push(y).contains(x),
{
    let i = choose|i: int| 0 <= i < s.len() && s[i] == x;
    assert(s.push(y)[i] == x);
}

/// A freshly created peer satisfies the invariant.
pub proof fn lemma_created_inv(tracks: Seq<Track>, role: NegotiationRole)
    ensures
        PeerModel::created(tracks, role).inv(),
{
}

/// Each change of a `TrackUpdate` keeps the invariant.
pub proof fn lemma_change_inv(m: PeerModel, c: TrackChange)
    requires
        m.inv(),
    ensures
        m.change_applied(c).inv(),
{
}

/// Handing over a remote offer keeps the invariant.
pub proof fn lemma_offer_handed_over_inv(m: PeerModel, sdp: String)
    requires
        m.inv(),
    ensures
        m.offer_handed_over(sdp).inv(),
{
    if let DriverStage::AnswererAwaitSenders(d) = m.driver {
        if m.pending_offers.contains(d) {
            lemma_contains_push(m.pending_offers, d, sdp);
        }
    }
}

/// A scheduling step keeps the invariant.
pub proof fn lemma_advanced_inv(m: PeerModel)
    requires
        m.inv(),
    ensures
        m.advanced().0.inv(),
{
    let (n, a) = m.advanced();
    if a is Call {
        let c = a->Call_0;
        lemma_count_push(m.round_calls, c);
        match m.driver {
            DriverStage::AnswererAwaitSenders(d) => {
                if m.round_calls.contains(Command::SetRemoteOffer(d)) {
                    lemma_contains_push(m.round_calls, Command::SetRemoteOffer(d), c);
                } else if m.in_flight is None && !m.ice_pending && m.pending_offers.len() > 0 {
                    let i = choose|i: int|
                        0 <= i < m.pending_offers.len() && m.pending_offers[i] == d;
                    if i == 0 {
                        assert(n.round_calls[m.round_calls.len() as int] == Command::SetRemoteOffer(
                            d,
                        ));
                    } else {
                        assert(n.pending_offers[i - 1] == d);
                    }
                }
            },
            DriverStage::AnswererCreating(d) => {
                lemma_contains_push(m.round_calls, Command::SetRemoteOffer(d), c);
            },
            _ => {},
        }
    } else if a is Progress {
        if let DriverStage::AnswererAwaitReceivers(d) = m.driver {
            if n.driver == DriverStage::AnswererAwaitSenders(d) {
                assert(n.pending_offers[n.pending_offers.len() - 1] == d);
            }
        }
    }
}

/// The end of the outstanding call keeps the invariant.
pub proof fn lemma_completed_inv(m: PeerModel)
    requires
        m.inv(),
        m.in_flight is Some,
    ensures
        m.completed().inv(),
{
}

} // verus!
