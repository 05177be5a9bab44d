//! Concrete-value checks of the engine's laws and error taxonomy.

use mpc_websocket::notify::filter_clients;
use mpc_websocket::services::threshold;
use mpc_websocket::{
    handle_request, Event, MethodCall, Notification, Parameters, Reply, ServiceError,
    SessionKind, State,
};

fn new_state(conns: &[usize]) -> State {
    let mut state = State::new();
    for c in conns {
        state.register_connection(*c);
    }
    state
}

fn group_create(state: &mut State, conn: usize, parties: u16, threshold: u16) -> String {
    match handle_request(
        state,
        conn,
        &MethodCall::GroupCreate {
            label: "g".to_string(),
            parameters: Parameters { parties, threshold },
        },
    ) {
        (Ok(Reply::GroupId(gid)), _) => gid,
        other => panic!("unexpected outcome: {:?}", other),
    }
}

fn join(state: &mut State, conn: usize, gid: &str) -> Result<Reply, ServiceError> {
    handle_request(state, conn, &MethodCall::GroupJoin { group_id: gid.to_string() }).0
}

fn session_create(state: &mut State, conn: usize, gid: &str, kind: SessionKind) -> String {
    match handle_request(
        state,
        conn,
        &MethodCall::SessionCreate { group_id: gid.to_string(), kind, value: None },
    ) {
        (Ok(Reply::SessionInfo { uuid, .. }), _) => uuid,
        other => panic!("unexpected outcome: {:?}", other),
    }
}

fn signup(state: &mut State, conn: usize, gid: &str, sid: &str, kind: SessionKind) -> (u16, Notification) {
    match handle_request(
        state,
        conn,
        &MethodCall::SessionSignup {
            group_id: gid.to_string(),
            session_id: sid.to_string(),
            kind,
        },
    ) {
        (Ok(Reply::PartyNumber(n)), notif) => (n, notif),
        other => panic!("unexpected outcome: {:?}", other),
    }
}

fn load(
    state: &mut State,
    conn: usize,
    gid: &str,
    sid: &str,
    kind: SessionKind,
    party: u16,
) -> (Result<Reply, ServiceError>, Notification) {
    handle_request(
        state,
        conn,
        &MethodCall::SessionLoad {
            group_id: gid.to_string(),
            session_id: sid.to_string(),
            kind,
            party_number: party,
        },
    )
}

#[test]
fn create_validation_errors() {
    // Each invalid parameter combination gets its own error.
    let mut state = new_state(&[1]);
    let attempt = |state: &mut State, parties: u16, threshold: u16| {
        handle_request(
            state,
            1,
            &MethodCall::GroupCreate {
                label: "g".to_string(),
                parameters: Parameters { parties, threshold },
            },
        )
        .0
    };
    assert!(matches!(attempt(&mut state, 1, 1), Err(ServiceError::PartiesTooSmall)));
    assert!(matches!(attempt(&mut state, 3, 0), Err(ServiceError::ThresholdTooSmall)));
    assert!(matches!(attempt(&mut state, 3, 3), Err(ServiceError::ThresholdRange)));
    assert!(matches!(attempt(&mut state, 3, 4), Err(ServiceError::ThresholdRange)));
    assert_eq!(state.groups.len(), 0);
    assert!(attempt(&mut state, 2, 1).is_ok());
}

#[test]
fn join_is_idempotent() {
    // A repeated join changes nothing: the clients stay as the first
    // join left them, and the group still has room for one more
    // distinct client.  Once the group is at capacity, even a member's
    // join is refused: the capacity check comes first.
    let mut state = new_state(&[1, 2, 3]);
    let gid = group_create(&mut state, 1, 3, 1);
    assert!(join(&mut state, 2, &gid).is_ok());
    assert!(join(&mut state, 2, &gid).is_ok());
    assert_eq!(state.groups[0].clients, vec![1, 2]);
    assert!(join(&mut state, 3, &gid).is_ok());
    assert_eq!(state.groups[0].clients, vec![1, 2, 3]);
    assert!(matches!(join(&mut state, 2, &gid), Err(ServiceError::GroupFull(_))));
}

#[test]
fn signup_numbers_are_contiguous() {
    // With no load in between, k signups are numbered 1..k, even when
    // a connection signs up more than once.
    let mut state = new_state(&[1, 2]);
    let gid = group_create(&mut state, 1, 5, 1);
    assert!(join(&mut state, 2, &gid).is_ok());
    let sid = session_create(&mut state, 1, &gid, SessionKind::Keygen);
    let mut numbers = Vec::new();
    for conn in [1, 2, 1, 2] {
        let (n, _) = signup(&mut state, conn, &gid, &sid, SessionKind::Keygen);
        numbers.push(n);
    }
    assert_eq!(numbers, vec![1, 2, 3, 4]);
}

#[test]
fn signup_after_load_takes_next_free_above_max() {
    // A signup after a load continues one above the largest number.
    let mut state = new_state(&[1, 2]);
    let gid = group_create(&mut state, 1, 5, 2);
    assert!(join(&mut state, 2, &gid).is_ok());
    let sid = session_create(&mut state, 1, &gid, SessionKind::Keygen);
    let (r, _) = load(&mut state, 1, &gid, &sid, SessionKind::Keygen, 4);
    assert!(matches!(r, Ok(Reply::PartyNumber(4))));
    let (n, _) = signup(&mut state, 2, &gid, &sid, SessionKind::Keygen);
    assert_eq!(n, 5);
}

#[test]
fn load_validation_errors() {
    // Loads outside the valid range, into taken slots, or into signing
    // sessions are refused with their specific errors.
    let mut state = new_state(&[1, 2]);
    let gid = group_create(&mut state, 1, 3, 1);
    assert!(join(&mut state, 2, &gid).is_ok());
    let keygen = session_create(&mut state, 1, &gid, SessionKind::Keygen);
    let sign = session_create(&mut state, 1, &gid, SessionKind::Sign);

    let (r, _) = load(&mut state, 1, &gid, &keygen, SessionKind::Keygen, 0);
    assert!(matches!(r, Err(ServiceError::PartyNumberOutOfRange(0))));
    let (r, _) = load(&mut state, 1, &gid, &keygen, SessionKind::Keygen, 4);
    assert!(matches!(r, Err(ServiceError::PartyNumberOutOfRange(4))));
    let (r, _) = load(&mut state, 1, &gid, &keygen, SessionKind::Keygen, 2);
    assert!(r.is_ok());
    let (r, _) = load(&mut state, 2, &gid, &keygen, SessionKind::Keygen, 2);
    assert!(matches!(r, Err(ServiceError::PartyNumberInUse(2))));
    let (r, _) = load(&mut state, 1, &gid, &sign, SessionKind::Sign, 1);
    assert!(matches!(r, Err(ServiceError::KeygenSessionExpected)));
}

#[test]
fn load_threshold_event_fires_once() {
    // The sessionLoad event fires exactly on the load that brings the
    // count to `parties`.
    let mut state = new_state(&[1, 2]);
    let gid = group_create(&mut state, 1, 2, 1);
    assert!(join(&mut state, 2, &gid).is_ok());
    let sid = session_create(&mut state, 1, &gid, SessionKind::Keygen);
    let (r, n1) = load(&mut state, 1, &gid, &sid, SessionKind::Keygen, 1);
    assert!(r.is_ok());
    assert!(matches!(n1, Notification::Noop));
    let (r, n2) = load(&mut state, 2, &gid, &sid, SessionKind::Keygen, 2);
    assert!(r.is_ok());
    assert!(matches!(
        n2,
        Notification::Session { event: Event::SessionLoad(_), .. }
    ));
}

#[test]
fn signup_beyond_threshold_is_silent() {
    // Once the threshold event has fired, further signups fire nothing.
    let mut state = new_state(&[1, 2, 3]);
    let gid = group_create(&mut state, 1, 3, 1);
    assert!(join(&mut state, 2, &gid).is_ok());
    assert!(join(&mut state, 3, &gid).is_ok());
    let sid = session_create(&mut state, 1, &gid, SessionKind::Sign);
    let (_, e1) = signup(&mut state, 1, &gid, &sid, SessionKind::Sign);
    let (_, e2) = signup(&mut state, 2, &gid, &sid, SessionKind::Sign);
    let (_, e3) = signup(&mut state, 3, &gid, &sid, SessionKind::Sign);
    assert!(matches!(e1, Notification::Noop));
    assert!(matches!(e2, Notification::Session { .. }));
    assert!(matches!(e3, Notification::Noop));
}

#[test]
fn membership_and_addressing_errors() {
    // A non-member is refused; an unresolvable peer receiver is
    // refused; an unknown party number cannot finish.
    let mut state = new_state(&[1, 2, 9]);
    let gid = group_create(&mut state, 1, 3, 1);
    assert!(join(&mut state, 2, &gid).is_ok());
    let sid = session_create(&mut state, 1, &gid, SessionKind::Keygen);

    let req = MethodCall::SessionCreate {
        group_id: gid.clone(),
        kind: SessionKind::Keygen,
        value: None,
    };
    assert!(matches!(
        handle_request(&mut state, 9, &req).0,
        Err(ServiceError::BadConnection(9, _))
    ));

    let (n, _) = signup(&mut state, 1, &gid, &sid, SessionKind::Keygen);
    assert_eq!(n, 1);
    let req = MethodCall::SessionMessage {
        group_id: gid.clone(),
        session_id: sid.clone(),
        kind: SessionKind::Keygen,
        message: mpc_websocket::Message {
            round: 1,
            sender: 1,
            receiver: Some(5),
            uuid: sid.clone(),
            body: "{}".to_string(),
        },
    };
    assert!(matches!(
        handle_request(&mut state, 1, &req).0,
        Err(ServiceError::BadPeerReceiver(5))
    ));

    let req = MethodCall::SessionFinish {
        group_id: gid.clone(),
        session_id: sid.clone(),
        party_number: 9,
    };
    assert!(matches!(
        handle_request(&mut state, 1, &req).0,
        Err(ServiceError::PartyDoesNotExist(9))
    ));
}

#[test]
fn participant_mapping_resolves_receiver() {
    // In a signing session the receiver index is mapped through the
    // participants table before the connection is resolved.
    let mut state = new_state(&[1, 2, 3]);
    let gid = group_create(&mut state, 1, 3, 1);
    assert!(join(&mut state, 2, &gid).is_ok());
    let sid = session_create(&mut state, 1, &gid, SessionKind::Sign);
    let (n1, _) = signup(&mut state, 1, &gid, &sid, SessionKind::Sign);
    let (n2, _) = signup(&mut state, 2, &gid, &sid, SessionKind::Sign);
    assert_eq!((n1, n2), (1, 2));

    // Party index 7 stands for party number 2 (held by connection 2).
    let req = MethodCall::SessionParticipant {
        group_id: gid.clone(),
        session_id: sid.clone(),
        party_index: 7,
        party_number: 2,
    };
    assert!(matches!(handle_request(&mut state, 2, &req).0, Ok(Reply::Ack)));

    let req = MethodCall::SessionMessage {
        group_id: gid.clone(),
        session_id: sid.clone(),
        kind: SessionKind::Sign,
        message: mpc_websocket::Message {
            round: 2,
            sender: 1,
            receiver: Some(7),
            uuid: sid.clone(),
            body: "{}".to_string(),
        },
    };
    let (reply, notif) = handle_request(&mut state, 1, &req);
    assert!(matches!(reply, Ok(Reply::Null)));
    match notif {
        Notification::Relay { messages } => {
            assert_eq!(messages.len(), 1);
            assert_eq!(messages[0].0, 2);
        }
        other => panic!("unexpected notification: {:?}", other),
    }
}

#[test]
fn proposal_and_signed_notifications() {
    // A proposal goes to everyone else in the group; the signed
    // outcome goes to the group members outside the session.
    let mut state = new_state(&[1, 2, 3]);
    let gid = group_create(&mut state, 1, 3, 1);
    assert!(join(&mut state, 2, &gid).is_ok());
    assert!(join(&mut state, 3, &gid).is_ok());
    let sid = session_create(&mut state, 1, &gid, SessionKind::Sign);

    let req = MethodCall::NotifyProposal {
        group_id: gid.clone(),
        session_id: sid.clone(),
        proposal_id: "p-1".to_string(),
        message: "spend it all".to_string(),
    };
    let (reply, notif) = handle_request(&mut state, 1, &req);
    assert!(matches!(reply, Ok(Reply::Ack)));
    match &notif {
        Notification::Group { group_id, filter, event: Event::NotifyProposal(p) } => {
            assert_eq!(group_id, &gid);
            assert_eq!(filter.as_deref(), Some(&[1usize][..]));
            assert_eq!(p.session_id, sid);
            assert_eq!(p.proposal_id, "p-1");
            assert_eq!(p.message, "spend it all");
        }
        other => panic!("unexpected notification: {:?}", other),
    }
    assert_eq!(state.notification_targets(&notif), vec![2, 3]);

    // Parties 1 and 2 sign; client 3 learns the outcome.
    signup(&mut state, 1, &gid, &sid, SessionKind::Sign);
    signup(&mut state, 2, &gid, &sid, SessionKind::Sign);
    let req = MethodCall::NotifySigned {
        group_id: gid.clone(),
        session_id: sid.clone(),
        value: "0xsig".to_string(),
    };
    let (reply, notif) = handle_request(&mut state, 1, &req);
    assert!(matches!(reply, Ok(Reply::Ack)));
    match &notif {
        Notification::Group { filter, event: Event::NotifySigned(v), .. } => {
            assert_eq!(filter.as_deref(), Some(&[1usize, 2][..]));
            assert_eq!(v, "0xsig");
        }
        other => panic!("unexpected notification: {:?}", other),
    }
    assert_eq!(state.notification_targets(&notif), vec![3]);
}

#[test]
fn filter_clients_subtracts_every_filtered_connection() {
    assert_eq!(
        filter_clients(vec![1, 2, 3, 4], Some(vec![2, 4])),
        vec![1, 3]
    );
    assert_eq!(filter_clients(vec![1, 2], None), vec![1, 2]);
    assert_eq!(filter_clients(vec![], Some(vec![1])), Vec::<usize>::new());
}

#[test]
fn threshold_rule_per_kind() {
    let params = Parameters { parties: 3, threshold: 1 };
    assert!(threshold(&SessionKind::Keygen, &params, 3));
    assert!(!threshold(&SessionKind::Keygen, &params, 2));
    assert!(threshold(&SessionKind::Sign, &params, 2));
    assert!(!threshold(&SessionKind::Sign, &params, 3));
}

#[test]
fn default_parameters_and_kind() {
    let p = Parameters::default();
    assert_eq!((p.parties, p.threshold), (3, 1));
    assert!(matches!(SessionKind::default(), SessionKind::Keygen));
}

#[test]
fn disconnect_does_not_prune_signups() {
    // A disconnect removes the client from its groups but leaves the
    // session's party signups alone: a reconnecting client cannot
    // reclaim its old slot.
    let mut state = new_state(&[1, 2]);
    let gid = group_create(&mut state, 1, 3, 1);
    assert!(join(&mut state, 2, &gid).is_ok());
    let sid = session_create(&mut state, 1, &gid, SessionKind::Keygen);
    signup(&mut state, 1, &gid, &sid, SessionKind::Keygen);
    signup(&mut state, 2, &gid, &sid, SessionKind::Keygen);

    state.remove_connection(2);

    assert_eq!(state.groups[0].clients, vec![1]);
    assert_eq!(state.groups[0].sessions[0].party_signups, vec![(1, 1), (2, 2)]);
}

#[test]
fn session_value_is_kept() {
    // The opaque payload given at session creation is returned to
    // later joiners.
    let mut state = new_state(&[1, 2]);
    let gid = group_create(&mut state, 1, 3, 1);
    assert!(join(&mut state, 2, &gid).is_ok());
    let req = MethodCall::SessionCreate {
        group_id: gid.clone(),
        kind: SessionKind::Sign,
        value: Some("\"message to sign\"".to_string()),
    };
    let sid = match handle_request(&mut state, 1, &req) {
        (Ok(Reply::SessionInfo { uuid, value, .. }), _) => {
            assert_eq!(value.as_deref(), Some("\"message to sign\""));
            uuid
        }
        other => panic!("unexpected outcome: {:?}", other),
    };
    let req = MethodCall::SessionJoin {
        group_id: gid.clone(),
        session_id: sid.clone(),
        kind: SessionKind::Sign,
    };
    match handle_request(&mut state, 2, &req) {
        (Ok(Reply::SessionInfo { uuid, value, kind }), _) => {
            assert_eq!(uuid, sid);
            assert_eq!(value.as_deref(), Some("\"message to sign\""));
            assert!(matches!(kind, SessionKind::Sign));
        }
        other => panic!("unexpected outcome: {:?}", other),
    }
}
