//! End-to-end scenarios driving the coordination engine the way the
//! transport would: one state, several connections, requests in order.

use mpc_websocket::{
    handle_request, Event, MethodCall, Notification, Parameters, Reply, ServiceError,
    SessionKind, State,
};

fn new_state(conns: &[usize]) -> State {
    let mut state = State::new();
    for c in conns {
        state.register_connection(*c);
    }
    state
}

fn group_create(state: &mut State, conn: usize, label: &str, parties: u16, threshold: u16) -> String {
    let req = MethodCall::GroupCreate {
        label: label.to_string(),
        parameters: Parameters { parties, threshold },
    };
    match handle_request(state, conn, &req) {
        (Ok(Reply::GroupId(gid)), Notification::Noop) => gid,
        other => panic!("unexpected outcome: {:?}", other),
    }
}

fn session_create(state: &mut State, conn: usize, gid: &str, kind: SessionKind) -> (String, Notification) {
    let req = MethodCall::SessionCreate {
        group_id: gid.to_string(),
        kind,
        value: None,
    };
    match handle_request(state, conn, &req) {
        (Ok(Reply::SessionInfo { uuid, .. }), n) => (uuid, n),
        other => panic!("unexpected outcome: {:?}", other),
    }
}

fn signup(state: &mut State, conn: usize, gid: &str, sid: &str, kind: SessionKind) -> (u16, Notification) {
    let req = MethodCall::SessionSignup {
        group_id: gid.to_string(),
        session_id: sid.to_string(),
        kind,
    };
    match handle_request(state, conn, &req) {
        (Ok(Reply::PartyNumber(n)), notif) => (n, notif),
        other => panic!("unexpected outcome: {:?}", other),
    }
}

fn finish(state: &mut State, conn: usize, gid: &str, sid: &str, party: u16) -> (Result<Reply, ServiceError>, Notification) {
    let req = MethodCall::SessionFinish {
        group_id: gid.to_string(),
        session_id: sid.to_string(),
        party_number: party,
    };
    handle_request(state, conn, &req)
}

#[test]
fn keygen_happy_path() {
    // Three clients run a whole keygen ceremony: create, join, create
    // session, sign up, finish.
    let (c_a, c_b, c_c) = (1usize, 2usize, 3usize);
    let mut state = new_state(&[c_a, c_b, c_c]);

    let gid = group_create(&mut state, c_a, "demo", 3, 1);
    assert_eq!(gid.len(), 36);

    for conn in [c_b, c_c] {
        let req = MethodCall::GroupJoin { group_id: gid.clone() };
        match handle_request(&mut state, conn, &req) {
            (Ok(Reply::GroupInfo { uuid, label, parameters }), Notification::Noop) => {
                assert_eq!(uuid, gid);
                assert_eq!(label, "demo");
                assert_eq!(parameters.parties, 3);
                assert_eq!(parameters.threshold, 1);
            }
            other => panic!("unexpected outcome: {:?}", other),
        }
    }

    // Session create notifies everyone else in the group.
    let (sid, notif) = session_create(&mut state, c_a, &gid, SessionKind::Keygen);
    match &notif {
        Notification::Group { group_id, filter, event: Event::SessionCreate(info) } => {
            assert_eq!(group_id, &gid);
            assert_eq!(filter.as_deref(), Some(&[c_a][..]));
            assert_eq!(info.uuid, sid);
            assert!(matches!(info.kind, SessionKind::Keygen));
        }
        other => panic!("unexpected notification: {:?}", other),
    }
    assert_eq!(state.notification_targets(&notif), vec![c_b, c_c]);

    // Three signups are numbered 1, 2, 3; only the third one fires the
    // sessionSignup event, to all three parties.
    let (n1, e1) = signup(&mut state, c_a, &gid, &sid, SessionKind::Keygen);
    let (n2, e2) = signup(&mut state, c_b, &gid, &sid, SessionKind::Keygen);
    let (n3, e3) = signup(&mut state, c_c, &gid, &sid, SessionKind::Keygen);
    assert_eq!((n1, n2, n3), (1, 2, 3));
    assert!(matches!(e1, Notification::Noop));
    assert!(matches!(e2, Notification::Noop));
    match &e3 {
        Notification::Session { group_id, session_id, filter, event: Event::SessionSignup(sid2) } => {
            assert_eq!(group_id, &gid);
            assert_eq!(session_id, &sid);
            assert!(filter.is_none());
            assert_eq!(sid2, &sid);
        }
        other => panic!("unexpected notification: {:?}", other),
    }
    assert_eq!(state.notification_targets(&e3), vec![c_a, c_b, c_c]);

    // Finishes close the session on the third call only.
    let (r1, f1) = finish(&mut state, c_a, &gid, &sid, 1);
    let (r2, f2) = finish(&mut state, c_b, &gid, &sid, 2);
    assert!(r1.is_ok() && r2.is_ok());
    assert!(matches!(f1, Notification::Noop));
    assert!(matches!(f2, Notification::Noop));
    let (r3, f3) = finish(&mut state, c_c, &gid, &sid, 3);
    assert!(r3.is_ok());
    match &f3 {
        Notification::Session { group_id, session_id, filter, event: Event::SessionClosed(done) } => {
            assert_eq!(group_id, &gid);
            assert_eq!(session_id, &sid);
            assert!(filter.is_none());
            assert_eq!(done, &vec![1, 2, 3]);
        }
        other => panic!("unexpected notification: {:?}", other),
    }
    assert_eq!(state.notification_targets(&f3), vec![c_a, c_b, c_c]);
}

#[test]
fn sign_broadcast_then_peer_relay() {
    // Two of three clients sign up a signing session; the threshold
    // event fires at threshold + 1 = 2.  A broadcast reaches the other
    // signer only; a peer to peer message reaches its receiver only.
    let (c_1, c_2, c_3) = (1usize, 2usize, 3usize);
    let mut state = new_state(&[c_1, c_2, c_3]);
    let gid = group_create(&mut state, c_1, "demo", 3, 1);
    for conn in [c_2, c_3] {
        let req = MethodCall::GroupJoin { group_id: gid.clone() };
        assert!(handle_request(&mut state, conn, &req).0.is_ok());
    }
    let (sid, notif) = session_create(&mut state, c_1, &gid, SessionKind::Sign);
    assert!(matches!(notif, Notification::Noop));

    let (n1, e1) = signup(&mut state, c_1, &gid, &sid, SessionKind::Sign);
    assert_eq!(n1, 1);
    assert!(matches!(e1, Notification::Noop));
    let (n2, e2) = signup(&mut state, c_2, &gid, &sid, SessionKind::Sign);
    assert_eq!(n2, 2);
    match &e2 {
        Notification::Session { event: Event::SessionSignup(sid2), filter, .. } => {
            assert_eq!(sid2, &sid);
            assert!(filter.is_none());
        }
        other => panic!("unexpected notification: {:?}", other),
    }
    assert_eq!(state.notification_targets(&e2), vec![c_1, c_2]);

    // Broadcast round: everyone in the session but the sender.
    let req = MethodCall::SessionMessage {
        group_id: gid.clone(),
        session_id: sid.clone(),
        kind: SessionKind::Sign,
        message: mpc_websocket::Message {
            round: 1,
            sender: 1,
            receiver: None,
            uuid: sid.clone(),
            body: "{\"x\":1}".to_string(),
        },
    };
    let (reply, notif) = handle_request(&mut state, c_1, &req);
    assert!(matches!(reply, Ok(Reply::Ack)));
    match &notif {
        Notification::Session { filter, event: Event::SessionMessage(m), .. } => {
            assert_eq!(filter.as_deref(), Some(&[c_1][..]));
            assert_eq!(m.round, 1);
            assert_eq!(m.body, "{\"x\":1}");
        }
        other => panic!("unexpected notification: {:?}", other),
    }
    assert_eq!(state.notification_targets(&notif), vec![c_2]);

    // Peer to peer: only the receiver gets it; the caller gets a null
    // reply.
    let req = MethodCall::SessionMessage {
        group_id: gid.clone(),
        session_id: sid.clone(),
        kind: SessionKind::Sign,
        message: mpc_websocket::Message {
            round: 1,
            sender: 1,
            receiver: Some(2),
            uuid: sid.clone(),
            body: "{\"x\":1}".to_string(),
        },
    };
    let (reply, notif) = handle_request(&mut state, c_1, &req);
    assert!(matches!(reply, Ok(Reply::Null)));
    match &notif {
        Notification::Relay { messages } => {
            assert_eq!(messages.len(), 1);
            assert_eq!(messages[0].0, c_2);
            assert!(matches!(messages[0].1, Event::SessionMessage(_)));
        }
        other => panic!("unexpected notification: {:?}", other),
    }
    assert_eq!(state.notification_targets(&notif), vec![c_2]);
}

#[test]
fn group_full_closes_connection() {
    // A third client joining a two-party group is refused and told to
    // close its connection.
    let (c_1, c_2, c_3) = (1usize, 2usize, 3usize);
    let mut state = new_state(&[c_1, c_2, c_3]);
    let gid = group_create(&mut state, c_1, "pair", 2, 1);
    let req = MethodCall::GroupJoin { group_id: gid.clone() };
    assert!(handle_request(&mut state, c_2, &req).0.is_ok());
    match handle_request(&mut state, c_3, &req).0 {
        Err(err) => {
            assert!(matches!(&err, ServiceError::GroupFull(g) if g == &gid));
            assert!(err.requires_close());
        }
        other => panic!("unexpected outcome: {:?}", other),
    }
    // The teardown the refused client performs.
    state.remove_connection(c_3);
}

#[test]
fn bad_party_on_finish() {
    // Finishing with a party number owned by someone else is refused
    // and leaves the session open.
    let (c_1, c_2) = (1usize, 2usize);
    let mut state = new_state(&[c_1, c_2]);
    let gid = group_create(&mut state, c_1, "pair", 2, 1);
    let req = MethodCall::GroupJoin { group_id: gid.clone() };
    assert!(handle_request(&mut state, c_2, &req).0.is_ok());
    let (sid, _) = session_create(&mut state, c_1, &gid, SessionKind::Keygen);
    let (n1, _) = signup(&mut state, c_1, &gid, &sid, SessionKind::Keygen);
    let (n2, _) = signup(&mut state, c_2, &gid, &sid, SessionKind::Keygen);
    assert_eq!((n1, n2), (1, 2));

    let (r, notif) = finish(&mut state, c_1, &gid, &sid, 2);
    assert!(matches!(r, Err(ServiceError::BadParty(2))));
    assert!(matches!(notif, Notification::Noop));

    // The session is unchanged: both finishes are still needed.
    let (r1, f1) = finish(&mut state, c_1, &gid, &sid, 1);
    assert!(r1.is_ok());
    assert!(matches!(f1, Notification::Noop));
    let (r2, f2) = finish(&mut state, c_2, &gid, &sid, 2);
    assert!(r2.is_ok());
    assert!(matches!(
        f2,
        Notification::Session { event: Event::SessionClosed(_), .. }
    ));
}

#[test]
fn unknown_ids_are_refused() {
    // Any method naming a nonexistent identifier gets the matching
    // error and creates nothing.
    let c_1 = 1usize;
    let mut state = new_state(&[c_1]);

    let req = MethodCall::GroupJoin { group_id: "missing".to_string() };
    assert!(matches!(
        handle_request(&mut state, c_1, &req).0,
        Err(ServiceError::GroupDoesNotExist(_))
    ));

    let gid = group_create(&mut state, c_1, "demo", 3, 1);
    let req = MethodCall::SessionSignup {
        group_id: gid.clone(),
        session_id: "missing".to_string(),
        kind: SessionKind::Keygen,
    };
    assert!(matches!(
        handle_request(&mut state, c_1, &req).0,
        Err(ServiceError::SessionDoesNotExist(_))
    ));

    let req = MethodCall::SessionCreate {
        group_id: "missing".to_string(),
        kind: SessionKind::Keygen,
        value: None,
    };
    assert!(matches!(
        handle_request(&mut state, c_1, &req).0,
        Err(ServiceError::GroupDoesNotExist(_))
    ));

    // Only the one group exists; nothing was created along the way.
    assert_eq!(state.groups.len(), 1);
    assert_eq!(state.groups[0].sessions.len(), 0);
}

#[test]
fn disconnect_deletes_empty_group() {
    // A group whose only client disconnects disappears; a group with
    // other clients survives without the leaver.
    let (c_1, c_2) = (1usize, 2usize);
    let mut state = new_state(&[c_1, c_2]);
    let lone = group_create(&mut state, c_1, "lone", 3, 1);
    let shared = group_create(&mut state, c_2, "shared", 3, 1);
    let req = MethodCall::GroupJoin { group_id: shared.clone() };
    assert!(handle_request(&mut state, c_1, &req).0.is_ok());
    assert_eq!(state.groups.len(), 2);

    state.remove_connection(c_1);

    assert_eq!(state.groups.len(), 1);
    assert_eq!(state.groups[0].uuid, shared);
    assert_eq!(state.groups[0].clients, vec![c_2]);
    assert!(!state.groups.iter().any(|g| g.uuid == lone));
    assert_eq!(state.clients, vec![c_2]);
}
