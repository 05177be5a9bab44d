//! Notification intents and their fan-out resolution.
//!
//! After a request has been handled, a notification intent says which
//! connections must be told what.  The dispatcher resolves the intent
//! against the current state into a list of target connections; the
//! transport then writes one frame per target.

use vstd::prelude::*;

use crate::group::Group;
use crate::session::{conns_of, Message, SessionKind};
use crate::state::{group_index, has_group, State};

verus! {

/// The public face of a session, as carried in replies and events.
#[derive(Debug, Clone)]
pub struct SessionInfo {
    /// Unique identifier for the session.
    pub uuid: String,
    /// Kind of the session.
    pub kind: SessionKind,
    /// Optional opaque payload fixed at creation.
    pub value: Option<String>,
}

/// A signing proposal forwarded to a group.
#[derive(Debug, Clone)]
pub struct Proposal {
    /// The session the proposal concerns.
    pub session_id: String,
    /// Client-chosen identifier for the proposal.
    pub proposal_id: String,
    /// The proposal text.
    pub message: String,
}

/// An event sent to connected clients, as an event name with a payload.
#[derive(Debug, Clone)]
pub enum Event {
    /// A key generation session was created.
    SessionCreate(SessionInfo),
    /// Enough parties signed up to a session; carries the session id.
    SessionSignup(String),
    /// Enough parties were loaded into a session; carries the session id.
    SessionLoad(String),
    /// A broadcast or peer to peer round message.
    SessionMessage(Message),
    /// Every signed-up party reported completion; carries the sorted
    /// party numbers.
    SessionClosed(Vec<u16>),
    /// A proposal to sign something.
    NotifyProposal(Proposal),
    /// A proposal was signed; carries the opaque outcome.
    NotifySigned(String),
}

/// Notification sent by the server to multiple connected clients.
#[derive(Debug)]
pub enum Notification {
    /// Indicates that no notification messages should be sent.
    ///
    /// This is used when testing a threshold for sending notifications;
    /// before a threshold has been reached we want to return a response
    /// but not actually send any notifications.
    Noop,
    /// Sends the event to all clients in the group.
    Group {
        /// The group identifier.
        group_id: String,
        /// Ignore these clients.
        filter: Option<Vec<usize>>,
        /// The event to deliver.
        event: Event,
    },
    /// Sends the event to all clients in the session.
    Session {
        /// The group identifier.
        group_id: String,
        /// The session identifier.
        session_id: String,
        /// Ignore these clients.
        filter: Option<Vec<usize>>,
        /// The event to deliver.
        event: Event,
    },
    /// Relay events to specific clients, used for peer to peer messages.
    Relay {
        /// Mapping of client connection identifiers to events.
        messages: Vec<(usize, Event)>,
    },
}

/// True when the connection list mentions this connection.
pub fn contains_conn(clients: &Vec<usize>, conn: usize) -> (r: bool)
    ensures
        r == clients@.contains(conn),
{
    let n = clients.len();
    let mut i: usize = 0;
    while i < n
        invariant
            0 <= i <= n,
            n == clients@.len(),
            forall|j: int| 0 <= j < i ==> clients@[j] != conn,
        decreases n - i,
    {
        if clients[i] == conn {
            return true;
        }
        i += 1;
    }
    proof {
        if clients@.contains(conn) {
            let j = choose|j: int| 0 <= j < n && clients@[j] == conn;
            assert(clients@[j] != conn);
        }
    }
    false
}

/// The ghost value of an optional filter list.
pub open spec fn filter_view(filter: Option<Vec<usize>>) -> Option<Seq<usize>> {
    match filter {
        Some(f) => Some(f@),
        None => None,
    }
}

/// The connections a filtered broadcast reaches.
pub open spec fn filtered(clients: Seq<usize>, filter: Option<Seq<usize>>) -> Seq<usize> {
    match filter {
        Some(f) => clients.filter(|c: usize| !f.contains(c)),
        None => clients,
    }
}

/// Subtract the filtered connections from a broadcast's target list.
pub fn filter_clients(clients: Vec<usize>, filter: Option<Vec<usize>>) -> (r: Vec<usize>)
    ensures
        r@ == filtered(clients@, filter_view(filter)),
{
    match filter {
        Some(f) => {
            let ghost c0 = clients@;
            let ghost fv = f@;
            let ghost pred = |c: usize| !fv.contains(c);
            let n = clients.len();
            let mut out: Vec<usize> = Vec::new();
            let mut i: usize = 0;
            proof {
                reveal(Seq::filter);
                assert(c0.take(0) =~= Seq::<usize>::empty());
                assert(c0.take(0).filter(pred) =~= Seq::<usize>::empty());
            }
            while i < n
                invariant
                    0 <= i <= n,
                    n == clients@.len(),
                    out@ == clients@.take(i as int).filter(pred),
                decreases n - i,
            {
                proof {
                    assert(c0.take(i + 1).drop_last() =~= c0.take(i as int));
                    assert(c0.take(i + 1).last() == c0[i as int]);
                    reveal(Seq::filter);
                }
                let c = clients[i];
                if !contains_conn(&f, c) {
                    out.push(c);
                }
                i += 1;
            }
            proof {
                assert(c0.take(n as int) =~= c0);
                assert(filtered(clients@, filter_view(Some(f))) == clients@.filter(pred));
            }
            out
        },
        None => clients,
    }
}

/// The target connections of a session-wide broadcast: the connection
/// column of the party signups, minus the filter.
pub open spec fn session_targets(g: Group, session_id: Seq<char>, filter: Option<Seq<usize>>) -> Seq<
    usize,
> {
    if g.has_session(session_id) {
        filtered(conns_of(g.sessions@[g.session_index(session_id)].party_signups@), filter)
    } else {
        Seq::empty()
    }
}

/// The target connections of a group-wide broadcast: the group's
/// clients, minus the filter.
pub open spec fn group_targets(s: State, group_id: Seq<char>, filter: Option<Seq<usize>>) -> Seq<
    usize,
> {
    if has_group(s.groups@, group_id) {
        filtered(s.groups@[group_index(s.groups@, group_id)].clients@, filter)
    } else {
        Seq::empty()
    }
}

impl State {
    /// Resolve a notification intent to the connections it reaches, in
    /// delivery order.  A relay reaches the connections its messages
    /// name; a missing group or session resolves to no targets.
    pub fn notification_targets(&self, notification: &Notification) -> (r: Vec<usize>)
        requires
            self.wf(),
        ensures
            r@ == match *notification {
                Notification::Noop => Seq::<usize>::empty(),
                Notification::Group { group_id, filter, .. } => group_targets(
                    *self,
                    group_id@,
                    filter_view(filter),
                ),
                Notification::Session { group_id, session_id, filter, .. } => {
                    if has_group(self.groups@, group_id@) {
                        session_targets(
                            self.groups@[group_index(self.groups@, group_id@)],
                            session_id@,
                            filter_view(filter),
                        )
                    } else {
                        Seq::empty()
                    }
                },
                Notification::Relay { messages } => messages@.map_values(
                    |m: (usize, Event)| m.0,
                ),
            },
    {
        match notification {
            Notification::Noop => Vec::new(),
            Notification::Group { group_id, filter, .. } => {
                match self.find_group(group_id) {
                    Some(i) => {
                        let g = &self.groups[i];
                        let clients = copy_conns(&g.clients);
                        filter_clients(clients, copy_filter(filter))
                    },
                    None => Vec::new(),
                }
            },
            Notification::Session { group_id, session_id, filter, .. } => {
                match self.find_group(group_id) {
                    Some(i) => {
                        let g = &self.groups[i];
                        match g.find_session(session_id) {
                            Some(j) => {
                                let s = &g.sessions[j];
                                let n = s.party_signups.len();
                                let mut conns: Vec<usize> = Vec::new();
                                let mut k: usize = 0;
                                while k < n
                                    invariant
                                        0 <= k <= n,
                                        n == s.party_signups@.len(),
                                        conns@ =~= conns_of(
                                            s.party_signups@.take(k as int),
                                        ),
                                    decreases n - k,
                                {
                                    conns.push(s.party_signups[k].1);
                                    k += 1;
                                }
                                proof {
                                    assert(s.party_signups@.take(n as int) =~= s
                                        .party_signups@);
                                }
                                filter_clients(conns, copy_filter(filter))
                            },
                            None => Vec::new(),
                        }
                    },
                    None => Vec::new(),
                }
            },
            Notification::Relay { messages } => {
                let n = messages.len();
                let mut out: Vec<usize> = Vec::new();
                let mut k: usize = 0;
                while k < n
                    invariant
                        0 <= k <= n,
                        n == messages@.len(),
                        out@ =~= messages@.take(k as int).map_values(|m: (usize, Event)| m.0),
                    decreases n - k,
                {
                    out.push(messages[k].0);
                    k += 1;
                }
                proof {
                    assert(messages@.take(n as int) =~= messages@);
                }
                out
            },
        }
    }
}

/// Copy a list of connection identifiers.
fn copy_conns(clients: &Vec<usize>) -> (r: Vec<usize>)
    ensures
        r@ == clients@,
{
    let n = clients.len();
    let mut out: Vec<usize> = Vec::new();
    let mut i: usize = 0;
    while i < n
        invariant
            0 <= i <= n,
            n == clients@.len(),
            out@ =~= clients@.take(i as int),
        decreases n - i,
    {
        out.push(clients[i]);
        i += 1;
    }
    proof {
        assert(clients@.take(n as int) =~= clients@);
    }
    out
}

/// Copy an optional filter list.
fn copy_filter(filter: &Option<Vec<usize>>) -> (r: Option<Vec<usize>>)
    ensures
        filter_view(r) == filter_view(*filter),
{
    match filter {
        Some(f) => Some(copy_conns(f)),
        None => None,
    }
}

} // verus!
