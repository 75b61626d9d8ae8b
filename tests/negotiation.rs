use peer_negotiation::model::{Advance, Command, NegotiationState};
use peer_negotiation::peer::after_remote_offer_applied;
use peer_negotiation::proto::{Direction, NegotiationRole, Track, TrackChange, TrackPatch};
use peer_negotiation::snapshot::EventHandler;

/// Runs the first peer's tasks until none can move, performing each call at
/// once, and returns the calls in the order they were issued. Along the
/// way it checks the orderings that every call must respect.
fn run(h: &mut EventHandler) -> Vec<Command> {
    let mut calls = Vec::new();
    loop {
        let answering = matches!(
            h.snapshot().peer(0).negotiation_role(),
            Some(NegotiationRole::Answerer(_))
        );
        let state = h.snapshot().peer(0).negotiation_state();
        match h.advance(0) {
            Advance::Call(c) => {
                if c == Command::CreateLocalOffer {
                    assert!(!h.snapshot().peer(0).restart_ice());
                }
                if let Command::AddTransceiver { direction: Direction::Send, .. } = c {
                    if answering {
                        assert_eq!(state, NegotiationState::HaveRemote);
                    }
                }
                calls.push(c);
                h.complete(0);
            }
            Advance::Progress => {}
            Advance::Idle => return calls,
        }
    }
}

fn track(id: u32, direction: Direction) -> Track {
    Track { id, is_muted: false, direction }
}

fn add(id: u32, direction: Direction) -> Command {
    Command::AddTransceiver { direction, id }
}

fn enable(id: u32, direction: Direction, enabled: bool) -> Command {
    Command::SetEnabled { direction, id, enabled }
}

fn offer(sdp: &str) -> Command {
    Command::SetRemoteOffer(sdp.to_string())
}

fn position(calls: &[Command], c: &Command) -> usize {
    calls.iter().position(|x| x == c).expect("call issued")
}

fn count(calls: &[Command], c: &Command) -> usize {
    calls.iter().filter(|x| *x == c).count()
}

fn role_is_none(h: &EventHandler) -> bool {
    h.snapshot().peer(0).negotiation_role().is_none()
}

/// The peer of the initial offerer round, with the round finished.
fn initial_round() -> (EventHandler, Vec<Command>) {
    let mut h = EventHandler::new();
    h.peer_created(
        vec![track(0, Direction::Send), track(1, Direction::Recv)],
        NegotiationRole::Offerer,
    );
    let mut calls = run(&mut h);
    assert!(!role_is_none(&h));
    h.sdp_answer_made("aaa".to_string());
    calls.extend(run(&mut h));
    (h, calls)
}

#[test]
fn initial_offerer_round() {
    let (h, calls) = initial_round();
    let negotiation: Vec<Command> = calls
        .iter()
        .filter(|c| !matches!(c, Command::SetEnabled { .. }))
        .cloned()
        .collect();
    assert_eq!(
        negotiation,
        vec![
            add(1, Direction::Recv),
            add(0, Direction::Send),
            Command::CreateLocalOffer,
            offer("aaa"),
        ]
    );
    assert_eq!(count(&calls, &enable(0, Direction::Send, true)), 1);
    assert_eq!(count(&calls, &enable(1, Direction::Recv, true)), 1);
    assert!(role_is_none(&h));
    assert_eq!(h.snapshot().peer(0).negotiation_state(), NegotiationState::Stable);
}

#[test]
fn offerer_parks_until_the_answer() {
    let mut h = EventHandler::new();
    h.peer_created(
        vec![track(0, Direction::Send), track(1, Direction::Recv)],
        NegotiationRole::Offerer,
    );
    let calls = run(&mut h);
    assert_eq!(calls.last(), Some(&Command::CreateLocalOffer));
    assert_eq!(h.snapshot().peer(0).negotiation_state(), NegotiationState::HaveLocal);
    assert!(run(&mut h).is_empty());
    assert!(!role_is_none(&h));
}

#[test]
fn answerer_with_ice_restart_and_mutes() {
    let (mut h, _) = initial_round();
    h.tracks_applied(
        vec![
            TrackChange::IceRestart,
            TrackChange::Update(TrackPatch { id: 0, is_muted: Some(true) }),
            TrackChange::Update(TrackPatch { id: 1, is_muted: Some(true) }),
        ],
        Some(NegotiationRole::Answerer("asdkj".to_string())),
    );
    let calls = run(&mut h);
    assert_eq!(
        calls,
        vec![
            Command::RestartIce,
            enable(0, Direction::Send, false),
            enable(1, Direction::Recv, false),
            offer("asdkj"),
            Command::CreateLocalOffer,
        ]
    );
    assert!(role_is_none(&h));
    assert!(!h.snapshot().peer(0).restart_ice());
    assert!(h.snapshot().peer(0).senders()[0].is_muted());
    assert!(h.snapshot().peer(0).receivers()[0].is_muted());
}

#[test]
fn pure_ice_restart_answerer() {
    let (mut h, _) = initial_round();
    h.tracks_applied(
        vec![TrackChange::IceRestart],
        Some(NegotiationRole::Answerer("asdkj".to_string())),
    );
    let calls = run(&mut h);
    assert_eq!(calls, vec![Command::RestartIce, offer("asdkj"), Command::CreateLocalOffer]);
    assert!(role_is_none(&h));
    assert_eq!(h.snapshot().peer(0).negotiation_state(), NegotiationState::Stable);
}

#[test]
fn answerer_adding_tracks() {
    let (mut h, _) = initial_round();
    h.tracks_applied(
        vec![
            TrackChange::Added(track(0, Direction::Recv)),
            TrackChange::Added(track(1, Direction::Send)),
        ],
        Some(NegotiationRole::Answerer("aasd".to_string())),
    );
    let calls = run(&mut h);
    let negotiation: Vec<Command> = calls
        .iter()
        .filter(|c| !matches!(c, Command::SetEnabled { .. }))
        .cloned()
        .collect();
    assert_eq!(
        negotiation,
        vec![
            add(0, Direction::Recv),
            offer("aasd"),
            add(1, Direction::Send),
            Command::CreateLocalOffer,
        ]
    );
    assert!(role_is_none(&h));
}

#[test]
fn offerer_adding_tracks_then_remote_offer() {
    let (mut h, _) = initial_round();
    h.tracks_applied(
        vec![
            TrackChange::Added(track(0, Direction::Recv)),
            TrackChange::Added(track(1, Direction::Send)),
        ],
        Some(NegotiationRole::Offerer),
    );
    let calls = run(&mut h);
    let create = position(&calls, &Command::CreateLocalOffer);
    assert!(position(&calls, &add(0, Direction::Recv)) < create);
    assert!(position(&calls, &add(1, Direction::Send)) < create);
    assert_eq!(create, calls.len() - 1);
    assert_eq!(h.snapshot().peer(0).negotiation_state(), NegotiationState::HaveLocal);
    assert!(!role_is_none(&h));
    h.sdp_answer_made("aaa".to_string());
    assert_eq!(run(&mut h), vec![offer("aaa")]);
    assert_eq!(h.snapshot().peer(0).negotiation_state(), NegotiationState::Stable);
    assert!(role_is_none(&h));
}

#[test]
fn ice_restart_concurrent_with_offer() {
    let (mut h, _) = initial_round();
    h.tracks_applied(
        vec![TrackChange::IceRestart, TrackChange::Added(track(2, Direction::Send))],
        Some(NegotiationRole::Offerer),
    );
    let calls = run(&mut h);
    let restart = position(&calls, &Command::RestartIce);
    let create = position(&calls, &Command::CreateLocalOffer);
    assert!(restart < create);
    assert!(position(&calls, &add(2, Direction::Send)) < create);
    h.sdp_answer_made("aaa".to_string());
    assert_eq!(run(&mut h), vec![offer("aaa")]);
    assert!(role_is_none(&h));
}

#[test]
fn one_round_per_requested_role() {
    let (mut h, _) = initial_round();
    h.tracks_applied(vec![], Some(NegotiationRole::Answerer("x".to_string())));
    assert!(!role_is_none(&h));
    let calls = run(&mut h);
    assert_eq!(count(&calls, &Command::CreateLocalOffer), 1);
    assert!(role_is_none(&h));
    assert!(run(&mut h).is_empty());
}

#[test]
fn no_role_starts_no_round() {
    let (mut h, _) = initial_round();
    h.tracks_applied(vec![TrackChange::IceRestart], None);
    assert_eq!(run(&mut h), vec![Command::RestartIce]);
    assert!(role_is_none(&h));
}

#[test]
fn senders_are_taken_up_in_push_order() {
    let mut h = EventHandler::new();
    h.peer_created(
        vec![track(5, Direction::Send), track(3, Direction::Send), track(4, Direction::Send)],
        NegotiationRole::Offerer,
    );
    let calls = run(&mut h);
    let adds: Vec<Command> =
        calls.iter().filter(|c| matches!(c, Command::AddTransceiver { .. })).cloned().collect();
    assert_eq!(
        adds,
        vec![add(5, Direction::Send), add(3, Direction::Send), add(4, Direction::Send)]
    );
    assert_eq!(calls.last(), Some(&Command::CreateLocalOffer));
}

#[test]
fn mute_values_are_applied_in_order() {
    let (mut h, _) = initial_round();
    h.tracks_applied(
        vec![
            TrackChange::Update(TrackPatch { id: 0, is_muted: Some(true) }),
            TrackChange::Update(TrackPatch { id: 0, is_muted: Some(false) }),
            TrackChange::Update(TrackPatch { id: 0, is_muted: Some(true) }),
        ],
        None,
    );
    assert_eq!(
        run(&mut h),
        vec![
            enable(0, Direction::Send, false),
            enable(0, Direction::Send, true),
            enable(0, Direction::Send, false),
        ]
    );
}

#[test]
fn same_mute_state_emits_nothing() {
    let (mut h, _) = initial_round();
    h.tracks_applied(
        vec![
            TrackChange::Update(TrackPatch { id: 0, is_muted: Some(false) }),
            TrackChange::Update(TrackPatch { id: 1, is_muted: Some(false) }),
        ],
        None,
    );
    assert!(run(&mut h).is_empty());
    h.tracks_applied(
        vec![TrackChange::Update(TrackPatch { id: 1, is_muted: Some(true) })],
        None,
    );
    h.tracks_applied(
        vec![TrackChange::Update(TrackPatch { id: 1, is_muted: Some(true) })],
        None,
    );
    assert_eq!(run(&mut h), vec![enable(1, Direction::Recv, false)]);
}

#[test]
fn unknown_track_update_is_ignored() {
    let (mut h, _) = initial_round();
    h.tracks_applied(
        vec![
            TrackChange::Update(TrackPatch { id: 9, is_muted: Some(true) }),
            TrackChange::Update(TrackPatch { id: 0, is_muted: None }),
        ],
        None,
    );
    assert!(run(&mut h).is_empty());
    assert!(!h.snapshot().peer(0).senders()[0].is_muted());
}

#[test]
fn mute_before_transceiver_applies_latest_value_once() {
    let mut h = EventHandler::new();
    h.peer_created(vec![track(7, Direction::Recv)], NegotiationRole::Offerer);
    h.tracks_applied(
        vec![TrackChange::Update(TrackPatch { id: 7, is_muted: Some(true) })],
        Some(NegotiationRole::Offerer),
    );
    let calls = run(&mut h);
    assert_eq!(
        calls,
        vec![add(7, Direction::Recv), enable(7, Direction::Recv, false), Command::CreateLocalOffer]
    );
}

#[test]
fn repeated_ice_restart_requests_restart_once() {
    let (mut h, _) = initial_round();
    h.tracks_applied(vec![TrackChange::IceRestart, TrackChange::IceRestart], None);
    assert!(h.snapshot().peer(0).restart_ice());
    assert_eq!(run(&mut h), vec![Command::RestartIce]);
    assert!(!h.snapshot().peer(0).restart_ice());
}

#[test]
fn peer_without_tracks() {
    let mut h = EventHandler::new();
    h.peer_created(vec![], NegotiationRole::Answerer("sdp".to_string()));
    assert_eq!(run(&mut h), vec![offer("sdp"), Command::CreateLocalOffer]);
    assert!(role_is_none(&h));
    assert_eq!(h.snapshot().len(), 1);
}

#[test]
fn remote_offer_state_table() {
    assert_eq!(after_remote_offer_applied(NegotiationState::Stable), NegotiationState::HaveRemote);
    assert_eq!(after_remote_offer_applied(NegotiationState::HaveLocal), NegotiationState::Stable);
    assert_eq!(
        after_remote_offer_applied(NegotiationState::HaveRemote),
        NegotiationState::HaveRemote
    );
}

#[test]
fn repeated_remote_offer_keeps_have_remote() {
    let (mut h, _) = initial_round();
    h.sdp_answer_made("one".to_string());
    h.sdp_answer_made("one".to_string());
    assert_eq!(run(&mut h), vec![offer("one"), offer("one")]);
    assert_eq!(h.snapshot().peer(0).negotiation_state(), NegotiationState::HaveRemote);
    assert_eq!(h.snapshot().peer(0).remote_sdp_offer(), &Some("one".to_string()));
}
