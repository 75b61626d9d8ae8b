//! Properties of the peer state machine over all reachable states.
use vstd::prelude::*;

use crate::model::{
    Advance, Command, DriverStage, NegotiationState, PeerModel, count_offers, first_pending,
};
use crate::proto::{Direction, NegotiationRole, TrackChange, TrackPatch};

verus! {

/// No local offer or answer is created while an ICE restart is requested
/// and not yet carried out.
pub proof fn lemma_no_offer_during_ice_restart(m: PeerModel)
    requires
        m.inv(),
        m.advanced().1 == Advance::Call(Command::CreateLocalOffer),
    ensures
        !m.restart_ice,
        !m.advanced().0.restart_ice,
{
}

/// When answering, the remote offer of the round has been applied to the
/// peer connection before the answer is created.
pub proof fn lemma_remote_offer_before_answer(m: PeerModel, sdp: String)
    requires
        m.inv(),
        m.driver == DriverStage::AnswererAwaitSenders(sdp),
        m.advanced().1 == Advance::Call(Command::CreateLocalOffer),
    ensures
        m.advanced().0.round_calls.last() == Command::CreateLocalOffer,
        m.advanced().0.round_calls.drop_last().contains(Command::SetRemoteOffer(sdp)),
{
    let n = m.advanced().0;
    assert(n.round_calls.drop_last() =~= m.round_calls);
}

/// When answering, no sender's transceiver is added before the remote
/// offer has brought the peer connection to `HaveRemote`.
pub proof fn lemma_sender_waits_for_remote_offer(m: PeerModel, id: u32)
    requires
        m.advanced().1 == Advance::Call(Command::AddTransceiver { direction: Direction::Send, id }),
        m.negotiation_role matches Some(NegotiationRole::Answerer(_)),
    ensures
        m.negotiation_state == NegotiationState::HaveRemote,
{
}

/// A round that the driver ends, either by a scheduling step or once its
/// answer is created, has issued exactly one `CreateLocalOffer`.
pub proof fn lemma_one_offer_per_round(m: PeerModel)
    requires
        m.inv(),
        m.negotiation_role is Some,
    ensures
        m.advanced().0.negotiation_role is None ==> count_offers(m.advanced().0.round_calls) == 1,
        m.in_flight is Some && m.completed().negotiation_role is None ==> count_offers(
            m.completed().round_calls,
        ) == 1,
{
}

/// Pushed tracks are taken up in push order, and an offer is created only
/// once the handler of every pushed track has returned.
pub proof fn lemma_pushes_in_order(m: PeerModel, direction: Direction, id: u32)
    requires
        m.inv(),
    ensures
        m.advanced().1 == Advance::Call(Command::AddTransceiver { direction: Direction::Send, id })
            ==> m.senders[m.senders_added as int].id == id,
        m.advanced().1 == Advance::Call(Command::AddTransceiver { direction: Direction::Recv, id })
            ==> m.receivers[m.receivers_added as int].id == id,
        m.advanced().1 == Advance::Call(Command::CreateLocalOffer) ==> {
            &&& m.senders_added == m.senders.len()
            &&& m.receivers_added == m.receivers.len()
            &&& m.in_flight is None
        },
{
}

/// A mute listener applies the values notified to it oldest first: the
/// call it issues carries its oldest pending value, which it then drops.
pub proof fn lemma_mute_values_in_order(m: PeerModel, direction: Direction, id: u32, enabled: bool)
    requires
        m.advanced().1 == Advance::Call(Command::SetEnabled { direction, id, enabled }),
    ensures
        ({
            let n = m.advanced().0;
            let (before, after) = match direction {
                Direction::Send => (m.senders, n.senders),
                Direction::Recv => (m.receivers, n.receivers),
            };
            let i = first_pending(before);
            &&& 0 <= i < before.len()
            &&& before[i].id == id
            &&& before[i].pending[0] == !enabled
            &&& after[i].pending == before[i].pending.drop_first()
        }),
{
}

/// Muting a track to the state it already has changes nothing: no call
/// on its media track follows from it.
pub proof fn lemma_same_mute_is_noop(m: PeerModel, id: u32, x: bool)
    requires
        m.muted_of(id) == Some(x),
    ensures
        m.change_applied(TrackChange::Update(TrackPatch { id, is_muted: Some(x) })) == m,
{
    let n = m.change_applied(TrackChange::Update(TrackPatch { id, is_muted: Some(x) }));
    if exists|i: int| crate::model::is_first_with_id(m.senders, id, i) {
        let i = choose|i: int| crate::model::is_first_with_id(m.senders, id, i);
        assert(n.senders =~= m.senders);
    } else {
        let i = choose|i: int| crate::model::is_first_with_id(m.receivers, id, i);
        assert(n.receivers =~= m.receivers);
    }
}

} // verus!
