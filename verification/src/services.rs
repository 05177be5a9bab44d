//! Request handling: the mutating service pass and the read-only
//! notification pass.
//!
//! Every inbound request is processed by two services in sequence.  The
//! service handler validates inputs, applies the state mutation and
//! produces the direct reply to the caller; it is the sole writer.  The
//! notify handler then re-inspects the post-mutation state and produces
//! a notification intent; it never writes the state.  The split
//! guarantees that notifications observe the state after the caller's
//! mutation, so a signup threshold count is tested on the value the
//! mutation produced.

use vstd::prelude::*;

use crate::errors::ServiceError;
use crate::group::Group;
use crate::notify::{filter_view, Event, Notification, Proposal, SessionInfo};
use crate::params::Parameters;
use crate::session::{
    conns_of, max_number, numbers_of, signup_conn, Message, Session, SessionKind,
};
use crate::state::{group_index, group_ids, has_group, State};

verus! {

/// A request from a client: one of the methods of the wire protocol,
/// with its positional parameters already decoded into plain values.
#[derive(Debug)]
pub enum MethodCall {
    /// Create a group; the caller joins it implicitly.
    GroupCreate {
        /// Human-readable tag for the group.
        label: String,
        /// Key generation parameters.
        parameters: Parameters,
    },
    /// Register the caller as a member of a group.
    GroupJoin {
        /// The group to join.
        group_id: String,
    },
    /// Create a session inside a group.
    SessionCreate {
        /// The enclosing group.
        group_id: String,
        /// Kind of the session.
        kind: SessionKind,
        /// Optional opaque payload stored with the session.
        value: Option<String>,
    },
    /// Fetch an existing session.
    SessionJoin {
        /// The enclosing group.
        group_id: String,
        /// The session to fetch.
        session_id: String,
        /// Kind of the session, as the client believes it.
        kind: SessionKind,
    },
    /// Register as a co-operating party and receive a party number.
    SessionSignup {
        /// The enclosing group.
        group_id: String,
        /// The session to sign up to.
        session_id: String,
        /// Kind of the session, used for the threshold rule.
        kind: SessionKind,
    },
    /// Load a previously issued party number into a session.
    SessionLoad {
        /// The enclosing group.
        group_id: String,
        /// The session to load into.
        session_id: String,
        /// Kind of the session; only key generation accepts a load.
        kind: SessionKind,
        /// The party number to claim.
        party_number: u16,
    },
    /// Map a client party index to a server-issued party number.
    SessionParticipant {
        /// The enclosing group.
        group_id: String,
        /// The session the mapping belongs to.
        session_id: String,
        /// The client-supplied party index.
        party_index: u16,
        /// The server-issued party number it stands for.
        party_number: u16,
    },
    /// Broadcast a round message or relay it to a single peer.
    SessionMessage {
        /// The enclosing group.
        group_id: String,
        /// The session the message belongs to.
        session_id: String,
        /// Kind of the session.
        kind: SessionKind,
        /// The message to deliver.
        message: Message,
    },
    /// Report that the caller's party finished the session.
    SessionFinish {
        /// The enclosing group.
        group_id: String,
        /// The session being finished.
        session_id: String,
        /// The caller's party number.
        party_number: u16,
    },
    /// Propose something to sign to the whole group.
    NotifyProposal {
        /// The group to notify.
        group_id: String,
        /// The session the proposal concerns.
        session_id: String,
        /// Client-chosen identifier for the proposal.
        proposal_id: String,
        /// The proposal text.
        message: String,
    },
    /// Announce the outcome of a signing session to the non-signers.
    NotifySigned {
        /// The group to notify.
        group_id: String,
        /// The session that signed.
        session_id: String,
        /// The opaque outcome.
        value: String,
    },
}

/// A direct reply to the calling client.
#[derive(Debug)]
pub enum Reply {
    /// The identifier of a newly created group.
    GroupId(String),
    /// The public fields of a group.
    GroupInfo {
        /// Unique identifier for the group.
        uuid: String,
        /// Human-readable tag.
        label: String,
        /// Key generation parameters.
        parameters: Parameters,
    },
    /// The public fields of a session.
    SessionInfo {
        /// Unique identifier for the session.
        uuid: String,
        /// Kind of the session.
        kind: SessionKind,
        /// Optional opaque payload stored at creation.
        value: Option<String>,
    },
    /// A party signup number.
    PartyNumber(u16),
    /// A plain acknowledgement with no payload.
    Ack,
    /// An intentionally empty reply, sent for relayed peer to peer
    /// messages which are never echoed back.
    Null,
}

/// The number of signed-up parties at which the threshold event fires:
/// every party for key generation, one more than the signing threshold
/// for signing.
pub open spec fn required_entries(kind: SessionKind, params: Parameters) -> int {
    match kind {
        SessionKind::Keygen => params.parties as int,
        SessionKind::Sign => params.threshold as int + 1,
    }
}

/// Helper to determine if a session's party count meets the threshold.
pub fn threshold(kind: &SessionKind, params: &Parameters, num_entries: usize) -> (r: bool)
    ensures
        r == (num_entries as int == required_entries(*kind, *params)),
{
    match kind {
        SessionKind::Keygen => num_entries == params.parties as usize,
        SessionKind::Sign => num_entries == params.threshold as usize + 1,
    }
}

/// The caller is a member of the group with this identifier.
pub open spec fn member_group(s: State, group_id: Seq<char>, conn: usize) -> bool {
    &&& has_group(s.groups@, group_id)
    &&& s.groups@[group_index(s.groups@, group_id)].clients@.contains(conn)
}

/// Locate a group and verify the connection belongs to it.
fn get_group(state: &State, conn: usize, group_id: &String) -> (r: Result<usize, ServiceError>)
    requires
        state.wf(),
    ensures
        match r {
            Ok(i) => i < state.groups@.len() && i == group_index(state.groups@, group_id@)
                && state.groups@[i as int].uuid@ == group_id@ && state.groups@[
                i as int
            ].clients@.contains(conn),
            Err(ServiceError::GroupDoesNotExist(gid)) => gid@ == group_id@ && !has_group(
                state.groups@,
                group_id@,
            ),
            Err(ServiceError::BadConnection(c, gid)) => c == conn && gid@ == group_id@
                && has_group(state.groups@, group_id@) && !member_group(*state, group_id@, conn),
            Err(_) => false,
        },
{
    match state.find_group(group_id) {
        Some(i) => {
            let g = &state.groups[i];
            if g.is_member(conn) {
                Ok(i)
            } else {
                Err(ServiceError::BadConnection(conn, group_id.clone()))
            }
        },
        None => Err(ServiceError::GroupDoesNotExist(group_id.clone())),
    }
}

/// Locate a group and one of its sessions, verifying membership.
fn get_group_session(
    state: &State,
    conn: usize,
    group_id: &String,
    session_id: &String,
) -> (r: Result<(usize, usize), ServiceError>)
    requires
        state.wf(),
    ensures
        match r {
            Ok((i, j)) => {
                &&& i < state.groups@.len()
                &&& i == group_index(state.groups@, group_id@)
                &&& state.groups@[i as int].uuid@ == group_id@
                &&& state.groups@[i as int].clients@.contains(conn)
                &&& j < state.groups@[i as int].sessions@.len()
                &&& j == state.groups@[i as int].session_index(session_id@)
                &&& state.groups@[i as int].sessions@[j as int].uuid@ == session_id@
            },
            Err(ServiceError::GroupDoesNotExist(gid)) => gid@ == group_id@ && !has_group(
                state.groups@,
                group_id@,
            ),
            Err(ServiceError::BadConnection(c, gid)) => c == conn && gid@ == group_id@
                && has_group(state.groups@, group_id@) && !member_group(*state, group_id@, conn),
            Err(ServiceError::SessionDoesNotExist(sid)) => sid@ == session_id@ && member_group(
                *state,
                group_id@,
                conn,
            ) && !state.groups@[group_index(state.groups@, group_id@)].has_session(session_id@),
            Err(_) => false,
        },
{
    let i = get_group(state, conn, group_id)?;
    let g = &state.groups[i];
    match g.find_session(session_id) {
        Some(j) => Ok((i, j)),
        None => Err(ServiceError::SessionDoesNotExist(session_id.clone())),
    }
}

/// The group at the matching index carries the caller's fresh group:
/// same identifier, the given label and parameters, the caller as only
/// client and no sessions yet.
pub open spec fn fresh_group(
    g: Group,
    conn: usize,
    label: String,
    params: Parameters,
    gid: String,
) -> bool {
    &&& g.uuid == gid
    &&& g.label == label
    &&& g.params == params
    &&& g.clients@ =~= seq![conn]
    &&& g.sessions@.len() == 0
}

/// A group was inserted: appended when its identifier is new, replacing
/// the group with the same identifier otherwise.
pub open spec fn inserted_group(pre: Seq<Group>, post: Seq<Group>, g: Group) -> bool {
    post == if has_group(pre, g.uuid@) {
        pre.update(group_index(pre, g.uuid@), g)
    } else {
        pre.push(g)
    }
}

/// What `Group.create` guarantees: parameters are validated with one
/// specific error each, and on success a fresh group holding only the
/// caller is inserted and its identifier returned.
pub open spec fn group_create_post(
    pre: State,
    post: State,
    conn: usize,
    label: String,
    params: Parameters,
    r: Result<Reply, ServiceError>,
) -> bool {
    match r {
        Ok(Reply::GroupId(gid)) => {
            &&& params.valid()
            &&& post.clients == pre.clients
            &&& ({
                let g = if has_group(pre.groups@, gid@) {
                    post.groups@[group_index(pre.groups@, gid@)]
                } else {
                    post.groups@.last()
                };
                &&& fresh_group(g, conn, label, params, gid)
                &&& inserted_group(pre.groups@, post.groups@, g)
            })
        },
        Ok(_) => false,
        Err(ServiceError::PartiesTooSmall) => params.parties <= 1 && post == pre,
        Err(ServiceError::ThresholdTooSmall) => params.parties >= 2 && params.threshold == 0
            && post == pre,
        Err(ServiceError::ThresholdRange) => params.parties >= 2 && params.threshold >= 1
            && params.threshold >= params.parties && post == pre,
        Err(_) => false,
    }
}

/// The second group is the first with the connection joined to its
/// clients (idempotently) and everything else untouched.
pub open spec fn joined_group(g0: Group, g1: Group, conn: usize) -> bool {
    &&& g1.uuid == g0.uuid
    &&& g1.label == g0.label
    &&& g1.params == g0.params
    &&& g1.sessions == g0.sessions
    &&& g1.clients@ == if g0.clients@.contains(conn) {
        g0.clients@
    } else {
        g0.clients@.push(conn)
    }
}

/// What `Group.join` guarantees: an unknown group or a full group is
/// refused with the specific error, otherwise the caller is appended to
/// the clients (never twice) and the group's public fields returned.
pub open spec fn group_join_post(
    pre: State,
    post: State,
    conn: usize,
    group_id: String,
    r: Result<Reply, ServiceError>,
) -> bool {
    match r {
        Ok(Reply::GroupInfo { uuid, label, parameters }) => {
            &&& has_group(pre.groups@, group_id@)
            &&& post.clients == pre.clients
            &&& ({
                let i = group_index(pre.groups@, group_id@);
                let g0 = pre.groups@[i];
                &&& !g0.full()
                &&& uuid@ == g0.uuid@
                &&& label@ == g0.label@
                &&& parameters == g0.params
                &&& post.groups@ == pre.groups@.update(i, post.groups@[i])
                &&& joined_group(g0, post.groups@[i], conn)
            })
        },
        Ok(_) => false,
        Err(ServiceError::GroupDoesNotExist(gid)) => gid@ == group_id@ && !has_group(
            pre.groups@,
            group_id@,
        ) && post == pre,
        Err(ServiceError::GroupFull(gid)) => gid@ == group_id@ && has_group(
            pre.groups@,
            group_id@,
        ) && pre.groups@[group_index(pre.groups@, group_id@)].full() && post == pre,
        Err(_) => false,
    }
}

impl State {
    /// Create a new group after validating the parameters; the caller
    /// becomes its first client.
    pub fn group_create(
        &mut self,
        conn: usize,
        label: String,
        parameters: Parameters,
    ) -> (r: Result<Reply, ServiceError>)
        requires
            old(self).wf(),
        ensures
            group_create_post(*old(self), *final(self), conn, label, parameters, r),
            r is Ok <==> parameters.valid(),
            final(self).wf(),
    {
        if parameters.parties <= 1 {
            return Err(ServiceError::PartiesTooSmall);
        }
        if parameters.threshold == 0 {
            return Err(ServiceError::ThresholdTooSmall);
        }
        if parameters.threshold >= parameters.parties {
            return Err(ServiceError::ThresholdRange);
        }
        let group = Group::new(conn, parameters, label);
        let gid = group.uuid.clone();
        self.insert_group(group);
        Ok(Reply::GroupId(gid))
    }

    /// Join an existing group, unless it is already at capacity.
    pub fn group_join(&mut self, conn: usize, group_id: &String) -> (r: Result<
        Reply,
        ServiceError,
    >)
        requires
            old(self).wf(),
        ensures
            group_join_post(*old(self), *final(self), conn, *group_id, r),
            final(self).wf(),
    {
        let i = match self.find_group(group_id) {
            Some(i) => i,
            None => {
                return Err(ServiceError::GroupDoesNotExist(group_id.clone()));
            },
        };
        let ghost g0seq = self.groups@;
        {
            let g = &self.groups[i];
            if g.clients.len() == g.params.parties as usize {
                return Err(ServiceError::GroupFull(group_id.clone()));
            }
        }
        let mut g = self.groups.remove(i);
        g.join(conn);
        let reply = Reply::GroupInfo {
            uuid: g.uuid.clone(),
            label: g.label.clone(),
            parameters: g.params,
        };
        self.groups.insert(i, g);
        proof {
            assert(self.groups@ =~= g0seq.update(i as int, self.groups@[i as int]));
            assert(group_ids(self.groups@) =~= group_ids(g0seq));
        }
        Ok(reply)
    }
}

/// The second group matches the first on everything but its sessions.
pub open spec fn same_group_but_sessions(g0: Group, g1: Group) -> bool {
    &&& g1.uuid == g0.uuid
    &&& g1.label == g0.label
    &&& g1.params == g0.params
    &&& g1.clients == g0.clients
}

/// The second session matches the first on everything but its signups.
pub open spec fn same_session_but_signups(s0: Session, s1: Session) -> bool {
    &&& s1.uuid == s0.uuid
    &&& s1.kind == s0.kind
    &&& s1.value == s0.value
    &&& s1.participants == s0.participants
    &&& s1.finished == s0.finished
}

/// The second session matches the first on everything but its
/// participant mappings.
pub open spec fn same_session_but_participants(s0: Session, s1: Session) -> bool {
    &&& s1.uuid == s0.uuid
    &&& s1.kind == s0.kind
    &&& s1.value == s0.value
    &&& s1.party_signups == s0.party_signups
    &&& s1.finished == s0.finished
}

/// The second session matches the first on everything but its finished
/// set.
pub open spec fn same_session_but_finished(s0: Session, s1: Session) -> bool {
    &&& s1.uuid == s0.uuid
    &&& s1.kind == s0.kind
    &&& s1.value == s0.value
    &&& s1.party_signups == s0.party_signups
    &&& s1.participants == s0.participants
}

/// The post state is the pre state with exactly one session of one
/// group replaced (the group's other fields untouched).
pub open spec fn state_with_updated_session(pre: State, post: State, i: int, j: int) -> bool {
    &&& post.clients == pre.clients
    &&& 0 <= i < pre.groups@.len()
    &&& post.groups@ == pre.groups@.update(i, post.groups@[i])
    &&& same_group_but_sessions(pre.groups@[i], post.groups@[i])
    &&& 0 <= j < pre.groups@[i].sessions@.len()
    &&& post.groups@[i].sessions@ == pre.groups@[i].sessions@.update(
        j,
        post.groups@[i].sessions@[j],
    )
}

/// Replacing one session of one group by a consistent session with the
/// same identifier keeps the whole state consistent.
proof fn lemma_session_update_preserves_wf(pre: State, post: State, i: int, j: int)
    requires
        pre.wf(),
        state_with_updated_session(pre, post, i, j),
        post.groups@[i].sessions@[j].uuid == pre.groups@[i].sessions@[j].uuid,
        post.groups@[i].sessions@[j].wf(),
    ensures
        post.wf(),
{
    let g0 = pre.groups@[i];
    let g1 = post.groups@[i];
    assert(group_ids(post.groups@) =~= group_ids(pre.groups@));
    assert(crate::group::session_ids(g1.sessions@) =~= crate::group::session_ids(g0.sessions@));
    assert forall|k: int| 0 <= k < post.groups@.len() implies (#[trigger] post.groups@[k]).wf() by {
        if k == i {
            assert(g0.wf());
            assert forall|l: int|
                0 <= l < g1.sessions@.len() implies (#[trigger] g1.sessions@[l]).wf() by {
                if l != j {
                    assert(g1.sessions@[l] == g0.sessions@[l]);
                }
            }
        } else {
            assert(post.groups@[k] == pre.groups@[k]);
        }
    }
}

/// The shared lookup errors of the session-level methods: unknown
/// group, caller not a member, unknown session.
pub open spec fn lookup_error(
    pre: State,
    conn: usize,
    group_id: String,
    session_id: String,
    e: ServiceError,
) -> bool {
    match e {
        ServiceError::GroupDoesNotExist(gid) => gid@ == group_id@ && !has_group(
            pre.groups@,
            group_id@,
        ),
        ServiceError::BadConnection(c, gid) => c == conn && gid@ == group_id@ && has_group(
            pre.groups@,
            group_id@,
        ) && !member_group(pre, group_id@, conn),
        ServiceError::SessionDoesNotExist(sid) => sid@ == session_id@ && member_group(
            pre,
            group_id@,
            conn,
        ) && !pre.groups@[group_index(pre.groups@, group_id@)].has_session(session_id@),
        _ => false,
    }
}

/// A freshly created session: the requested kind and payload, and
/// nobody signed up, mapped or finished yet.
pub open spec fn fresh_session(s: Session, kind: SessionKind, value: Option<String>) -> bool {
    &&& s.kind == kind
    &&& s.value == value
    &&& s.party_signups@.len() == 0
    &&& s.participants@.len() == 0
    &&& s.finished@.len() == 0
}

/// What `Session.create` guarantees: for a member of an existing group
/// a fresh session is inserted and its public fields returned.
pub open spec fn session_create_post(
    pre: State,
    post: State,
    conn: usize,
    group_id: String,
    kind: SessionKind,
    value: Option<String>,
    r: Result<Reply, ServiceError>,
) -> bool {
    match r {
        Ok(Reply::SessionInfo { uuid: sid, kind: k, value: v }) => {
            &&& member_group(pre, group_id@, conn)
            &&& k == kind
            &&& v == value
            &&& post.clients == pre.clients
            &&& ({
                let i = group_index(pre.groups@, group_id@);
                let g0 = pre.groups@[i];
                let g1 = post.groups@[i];
                &&& post.groups@ == pre.groups@.update(i, g1)
                &&& same_group_but_sessions(g0, g1)
                &&& ({
                    let s = if g0.has_session(sid@) {
                        g1.sessions@[g0.session_index(sid@)]
                    } else {
                        g1.sessions@.last()
                    };
                    &&& s.uuid == sid
                    &&& fresh_session(s, kind, value)
                    &&& g1.sessions@ == if g0.has_session(sid@) {
                        g0.sessions@.update(g0.session_index(sid@), s)
                    } else {
                        g0.sessions@.push(s)
                    }
                })
            })
        },
        Ok(_) => false,
        Err(ServiceError::GroupDoesNotExist(gid)) => gid@ == group_id@ && !has_group(
            pre.groups@,
            group_id@,
        ) && post == pre,
        Err(ServiceError::BadConnection(c, gid)) => c == conn && gid@ == group_id@ && has_group(
            pre.groups@,
            group_id@,
        ) && !member_group(pre, group_id@, conn) && post == pre,
        Err(_) => false,
    }
}

/// What `Session.join` guarantees: the session's public fields are
/// returned and nothing changes.
pub open spec fn session_join_post(
    pre: State,
    post: State,
    conn: usize,
    group_id: String,
    session_id: String,
    r: Result<Reply, ServiceError>,
) -> bool {
    &&& post == pre
    &&& match r {
        Ok(Reply::SessionInfo { uuid: sid, kind: k, value: v }) => {
            &&& member_group(pre, group_id@, conn)
            &&& ({
                let g = pre.groups@[group_index(pre.groups@, group_id@)];
                &&& g.has_session(session_id@)
                &&& ({
                    let s = g.sessions@[g.session_index(session_id@)];
                    sid@ == s.uuid@ && k == s.kind && v == s.value
                })
            })
        },
        Ok(_) => false,
        Err(e) => lookup_error(pre, conn, group_id, session_id, e),
    }
}

/// What `Session.signup` guarantees: the caller is appended to the
/// party signups under a number one greater than the largest number
/// already present, and that number is returned.
pub open spec fn session_signup_post(
    pre: State,
    post: State,
    conn: usize,
    group_id: String,
    session_id: String,
    r: Result<Reply, ServiceError>,
) -> bool {
    match r {
        Ok(Reply::PartyNumber(n)) => {
            &&& member_group(pre, group_id@, conn)
            &&& ({
                let i = group_index(pre.groups@, group_id@);
                let g0 = pre.groups@[i];
                &&& g0.has_session(session_id@)
                &&& ({
                    let j = g0.session_index(session_id@);
                    let s0 = g0.sessions@[j];
                    let s1 = post.groups@[i].sessions@[j];
                    &&& n == max_number(s0.party_signups@) + 1
                    &&& s1.party_signups@ == s0.party_signups@.push((n, conn))
                    &&& same_session_but_signups(s0, s1)
                    &&& state_with_updated_session(pre, post, i, j)
                })
            })
        },
        Ok(_) => false,
        Err(e) => post == pre && lookup_error(pre, conn, group_id, session_id, e),
    }
}

/// Every session that the signup method could touch still has room for
/// one more party number.
pub open spec fn signup_room(s: State, group_id: Seq<char>, session_id: Seq<char>) -> bool {
    has_group(s.groups@, group_id) ==> {
        let g = s.groups@[group_index(s.groups@, group_id)];
        g.has_session(session_id) ==> max_number(
            g.sessions@[g.session_index(session_id)].party_signups@,
        ) < u16::MAX
    }
}

/// What `Session.load` guarantees: only key generation sessions accept
/// a load; a free in-range number is recorded for the caller and
/// returned, anything else is refused with the specific error.
pub open spec fn session_load_post(
    pre: State,
    post: State,
    conn: usize,
    group_id: String,
    session_id: String,
    kind: SessionKind,
    party_number: u16,
    r: Result<Reply, ServiceError>,
) -> bool {
    match r {
        Ok(Reply::PartyNumber(n)) => {
            &&& kind == SessionKind::Keygen
            &&& n == party_number
            &&& member_group(pre, group_id@, conn)
            &&& ({
                let i = group_index(pre.groups@, group_id@);
                let g0 = pre.groups@[i];
                &&& g0.has_session(session_id@)
                &&& ({
                    let j = g0.session_index(session_id@);
                    let s0 = g0.sessions@[j];
                    let s1 = post.groups@[i].sessions@[j];
                    &&& 1 <= party_number <= g0.params.parties
                    &&& !numbers_of(s0.party_signups@).contains(party_number)
                    &&& s1.party_signups@ == s0.party_signups@.push((party_number, conn))
                    &&& same_session_but_signups(s0, s1)
                    &&& state_with_updated_session(pre, post, i, j)
                })
            })
        },
        Ok(_) => false,
        Err(ServiceError::KeygenSessionExpected) => kind != SessionKind::Keygen && post == pre,
        Err(ServiceError::PartyNumberOutOfRange(n)) => {
            &&& post == pre
            &&& kind == SessionKind::Keygen
            &&& n == party_number
            &&& member_group(pre, group_id@, conn)
            &&& ({
                let g0 = pre.groups@[group_index(pre.groups@, group_id@)];
                g0.has_session(session_id@) && (party_number == 0 || party_number
                    > g0.params.parties)
            })
        },
        Err(ServiceError::PartyNumberInUse(n)) => {
            &&& post == pre
            &&& kind == SessionKind::Keygen
            &&& n == party_number
            &&& member_group(pre, group_id@, conn)
            &&& ({
                let g0 = pre.groups@[group_index(pre.groups@, group_id@)];
                &&& g0.has_session(session_id@)
                &&& 1 <= party_number <= g0.params.parties
                &&& numbers_of(
                    g0.sessions@[g0.session_index(session_id@)].party_signups@,
                ).contains(party_number)
            })
        },
        Err(e) => post == pre && kind == SessionKind::Keygen && lookup_error(
            pre,
            conn,
            group_id,
            session_id,
            e,
        ),
    }
}

/// What `Session.participant` guarantees: the mapping from the party
/// index to the party number is recorded, overwriting any previous
/// mapping for that index and leaving every other index untouched.
pub open spec fn session_participant_post(
    pre: State,
    post: State,
    conn: usize,
    group_id: String,
    session_id: String,
    party_index: u16,
    party_number: u16,
    r: Result<Reply, ServiceError>,
) -> bool {
    match r {
        Ok(Reply::Ack) => {
            &&& member_group(pre, group_id@, conn)
            &&& ({
                let i = group_index(pre.groups@, group_id@);
                let g0 = pre.groups@[i];
                &&& g0.has_session(session_id@)
                &&& ({
                    let j = g0.session_index(session_id@);
                    let s0 = g0.sessions@[j];
                    let s1 = post.groups@[i].sessions@[j];
                    &&& crate::session::participant_number(s1.participants@, party_index)
                        == Some(party_number)
                    &&& forall|k: u16|
                        k != party_index ==> #[trigger] crate::session::participant_number(
                            s1.participants@,
                            k,
                        ) == crate::session::participant_number(s0.participants@, k)
                    &&& same_session_but_participants(s0, s1)
                    &&& state_with_updated_session(pre, post, i, j)
                })
            })
        },
        Ok(_) => false,
        Err(e) => post == pre && lookup_error(pre, conn, group_id, session_id, e),
    }
}

/// What `Session.message` guarantees: the state never changes; a
/// broadcast is acknowledged, a resolvable peer to peer message gets an
/// empty reply, an unresolvable receiver is refused.
pub open spec fn session_message_post(
    pre: State,
    post: State,
    conn: usize,
    group_id: String,
    session_id: String,
    message: Message,
    r: Result<Reply, ServiceError>,
) -> bool {
    &&& post == pre
    &&& ({
        let i = group_index(pre.groups@, group_id@);
        let g = pre.groups@[i];
        match r {
            Ok(Reply::Null) => {
                &&& member_group(pre, group_id@, conn)
                &&& g.has_session(session_id@)
                &&& ({
                    let s = g.sessions@[g.session_index(session_id@)];
                    message.receiver matches Some(recv) && signup_conn(
                        s.party_signups@,
                        s.mapped_receiver(recv),
                    ) is Some
                })
            },
            Ok(Reply::Ack) => {
                &&& member_group(pre, group_id@, conn)
                &&& g.has_session(session_id@)
                &&& message.receiver is None
            },
            Ok(_) => false,
            Err(ServiceError::BadPeerReceiver(recv)) => {
                &&& member_group(pre, group_id@, conn)
                &&& g.has_session(session_id@)
                &&& message.receiver == Some(recv)
                &&& ({
                    let s = g.sessions@[g.session_index(session_id@)];
                    signup_conn(s.party_signups@, s.mapped_receiver(recv)) is None
                })
            },
            Err(e) => lookup_error(pre, conn, group_id, session_id, e),
        }
    })
}

/// What `Session.finish` guarantees: only the party number's owner may
/// report completion, and the number is added to the finished set.
pub open spec fn session_finish_post(
    pre: State,
    post: State,
    conn: usize,
    group_id: String,
    session_id: String,
    party_number: u16,
    r: Result<Reply, ServiceError>,
) -> bool {
    match r {
        Ok(Reply::Ack) => {
            &&& member_group(pre, group_id@, conn)
            &&& ({
                let i = group_index(pre.groups@, group_id@);
                let g0 = pre.groups@[i];
                &&& g0.has_session(session_id@)
                &&& ({
                    let j = g0.session_index(session_id@);
                    let s0 = g0.sessions@[j];
                    let s1 = post.groups@[i].sessions@[j];
                    &&& signup_conn(s0.party_signups@, party_number) == Some(conn)
                    &&& s1.finished@.to_set() == s0.finished@.to_set().insert(party_number)
                    &&& same_session_but_finished(s0, s1)
                    &&& state_with_updated_session(pre, post, i, j)
                })
            })
        },
        Ok(_) => false,
        Err(ServiceError::PartyDoesNotExist(n)) => {
            &&& post == pre
            &&& n == party_number
            &&& member_group(pre, group_id@, conn)
            &&& ({
                let g0 = pre.groups@[group_index(pre.groups@, group_id@)];
                &&& g0.has_session(session_id@)
                &&& signup_conn(
                    g0.sessions@[g0.session_index(session_id@)].party_signups@,
                    party_number,
                ) is None
            })
        },
        Err(ServiceError::BadParty(n)) => {
            &&& post == pre
            &&& n == party_number
            &&& member_group(pre, group_id@, conn)
            &&& ({
                let g0 = pre.groups@[group_index(pre.groups@, group_id@)];
                &&& g0.has_session(session_id@)
                &&& ({
                    let c = signup_conn(
                        g0.sessions@[g0.session_index(session_id@)].party_signups@,
                        party_number,
                    );
                    c is Some && c != Some(conn)
                })
            })
        },
        Err(e) => post == pre && lookup_error(pre, conn, group_id, session_id, e),
    }
}

/// Copy an optional opaque payload.
fn clone_opt_string(v: &Option<String>) -> (r: Option<String>)
    ensures
        r == *v,
{
    match v {
        Some(s) => Some(s.clone()),
        None => None,
    }
}

impl State {
    /// Create a new session inside a group the caller belongs to.
    pub fn session_create(
        &mut self,
        conn: usize,
        group_id: &String,
        kind: SessionKind,
        value: Option<String>,
    ) -> (r: Result<Reply, ServiceError>)
        requires
            old(self).wf(),
        ensures
            session_create_post(*old(self), *final(self), conn, *group_id, kind, value, r),
            final(self).wf(),
    {
        let i = match get_group(self, conn, group_id) {
            Ok(i) => i,
            Err(e) => {
                return Err(e);
            },
        };
        let ghost pre = *self;
        let ghost g0seq = self.groups@;
        let mut g = self.groups.remove(i);
        let ghost g0 = g;
        let session = Session::new(kind, value);
        let reply = Reply::SessionInfo {
            uuid: session.uuid.clone(),
            kind: session.kind,
            value: clone_opt_string(&session.value),
        };
        g.insert_session(session);
        self.groups.insert(i, g);
        proof {
            assert(self.groups@ =~= g0seq.update(i as int, self.groups@[i as int]));
            assert(group_ids(self.groups@) =~= group_ids(g0seq));
            assert forall|k: int|
                0 <= k < self.groups@.len() implies (#[trigger] self.groups@[k]).wf() by {
                if k != i {
                    assert(self.groups@[k] == g0seq[k]);
                }
            }
        }
        Ok(reply)
    }

    /// Fetch the public fields of an existing session.
    pub fn session_join(&mut self, conn: usize, group_id: &String, session_id: &String) -> (r:
        Result<Reply, ServiceError>)
        requires
            old(self).wf(),
        ensures
            session_join_post(*old(self), *final(self), conn, *group_id, *session_id, r),
            final(self).wf(),
    {
        let (i, j) = match get_group_session(self, conn, group_id, session_id) {
            Ok(p) => p,
            Err(e) => {
                return Err(e);
            },
        };
        let g = &self.groups[i];
        let s = &g.sessions[j];
        Ok(Reply::SessionInfo {
            uuid: s.uuid.clone(),
            kind: s.kind,
            value: clone_opt_string(&s.value),
        })
    }

    /// Sign the caller up to a session and issue a fresh party number.
    pub fn session_signup(&mut self, conn: usize, group_id: &String, session_id: &String) -> (r:
        Result<Reply, ServiceError>)
        requires
            old(self).wf(),
            signup_room(*old(self), group_id@, session_id@),
        ensures
            session_signup_post(*old(self), *final(self), conn, *group_id, *session_id, r),
            final(self).wf(),
    {
        let (i, j) = match get_group_session(self, conn, group_id, session_id) {
            Ok(p) => p,
            Err(e) => {
                return Err(e);
            },
        };
        let ghost pre = *self;
        let mut g = self.groups.remove(i);
        let mut s = g.sessions.remove(j);
        let num = s.signup(conn);
        g.sessions.insert(j, s);
        self.groups.insert(i, g);
        proof {
            assert(self.groups@ =~= pre.groups@.update(i as int, self.groups@[i as int]));
            assert(self.groups@[i as int].sessions@ =~= pre.groups@[i as int].sessions@.update(
                j as int,
                self.groups@[i as int].sessions@[j as int],
            ));
            lemma_session_update_preserves_wf(pre, *self, i as int, j as int);
        }
        Ok(Reply::PartyNumber(num))
    }

    /// Load a previously issued party number into a key generation
    /// session.
    pub fn session_load(
        &mut self,
        conn: usize,
        group_id: &String,
        session_id: &String,
        kind: SessionKind,
        party_number: u16,
    ) -> (r: Result<Reply, ServiceError>)
        requires
            old(self).wf(),
        ensures
            session_load_post(
                *old(self),
                *final(self),
                conn,
                *group_id,
                *session_id,
                kind,
                party_number,
                r,
            ),
            final(self).wf(),
    {
        match kind {
            SessionKind::Keygen => {},
            SessionKind::Sign => {
                return Err(ServiceError::KeygenSessionExpected);
            },
        }
        let (i, j) = match get_group_session(self, conn, group_id, session_id) {
            Ok(p) => p,
            Err(e) => {
                return Err(e);
            },
        };
        {
            let g = &self.groups[i];
            if party_number == 0 || party_number > g.params.parties {
                return Err(ServiceError::PartyNumberOutOfRange(party_number));
            }
            let s = &g.sessions[j];
            if s.contains_number(party_number) {
                return Err(ServiceError::PartyNumberInUse(party_number));
            }
        }
        let ghost pre = *self;
        let parameters = self.groups[i].params;
        let mut g = self.groups.remove(i);
        let mut s = g.sessions.remove(j);
        let outcome = s.load(&parameters, conn, party_number);
        g.sessions.insert(j, s);
        self.groups.insert(i, g);
        proof {
            assert(self.groups@ =~= pre.groups@.update(i as int, self.groups@[i as int]));
            assert(self.groups@[i as int].sessions@ =~= pre.groups@[i as int].sessions@.update(
                j as int,
                self.groups@[i as int].sessions@[j as int],
            ));
            lemma_session_update_preserves_wf(pre, *self, i as int, j as int);
        }
        match outcome {
            Ok(()) => Ok(Reply::PartyNumber(party_number)),
            Err(e) => {
                proof {
                    assert(false);
                }
                Err(e)
            },
        }
    }

    /// Record the mapping from a client party index to a server-issued
    /// party number for a signing session.
    pub fn session_participant(
        &mut self,
        conn: usize,
        group_id: &String,
        session_id: &String,
        party_index: u16,
        party_number: u16,
    ) -> (r: Result<Reply, ServiceError>)
        requires
            old(self).wf(),
        ensures
            session_participant_post(
                *old(self),
                *final(self),
                conn,
                *group_id,
                *session_id,
                party_index,
                party_number,
                r,
            ),
            final(self).wf(),
    {
        let (i, j) = match get_group_session(self, conn, group_id, session_id) {
            Ok(p) => p,
            Err(e) => {
                return Err(e);
            },
        };
        let ghost pre = *self;
        let mut g = self.groups.remove(i);
        let mut s = g.sessions.remove(j);
        s.set_participant(party_index, party_number);
        g.sessions.insert(j, s);
        self.groups.insert(i, g);
        proof {
            assert(self.groups@ =~= pre.groups@.update(i as int, self.groups@[i as int]));
            assert(self.groups@[i as int].sessions@ =~= pre.groups@[i as int].sessions@.update(
                j as int,
                self.groups@[i as int].sessions@[j as int],
            ));
            lemma_session_update_preserves_wf(pre, *self, i as int, j as int);
        }
        Ok(Reply::Ack)
    }

    /// Validate a round message and decide the reply it earns; the
    /// state never changes and the fan-out happens in the notify pass.
    pub fn session_message(
        &mut self,
        conn: usize,
        group_id: &String,
        session_id: &String,
        message: &Message,
    ) -> (r: Result<Reply, ServiceError>)
        requires
            old(self).wf(),
        ensures
            session_message_post(
                *old(self),
                *final(self),
                conn,
                *group_id,
                *session_id,
                *message,
                r,
            ),
            final(self).wf(),
    {
        let (i, j) = match get_group_session(self, conn, group_id, session_id) {
            Ok(p) => p,
            Err(e) => {
                return Err(e);
            },
        };
        let g = &self.groups[i];
        let s = &g.sessions[j];
        match message.receiver {
            Some(recv) => {
                match s.resolve(recv) {
                    Some(_) => Ok(Reply::Null),
                    None => Err(ServiceError::BadPeerReceiver(recv)),
                }
            },
            None => Ok(Reply::Ack),
        }
    }

    /// Record that the calling party finished the session.
    pub fn session_finish(
        &mut self,
        conn: usize,
        group_id: &String,
        session_id: &String,
        party_number: u16,
    ) -> (r: Result<Reply, ServiceError>)
        requires
            old(self).wf(),
        ensures
            session_finish_post(
                *old(self),
                *final(self),
                conn,
                *group_id,
                *session_id,
                party_number,
                r,
            ),
            final(self).wf(),
    {
        let (i, j) = match get_group_session(self, conn, group_id, session_id) {
            Ok(p) => p,
            Err(e) => {
                return Err(e);
            },
        };
        {
            let g = &self.groups[i];
            let s = &g.sessions[j];
            match s.lookup_signup(party_number) {
                Some(owner) => {
                    if owner != conn {
                        return Err(ServiceError::BadParty(party_number));
                    }
                },
                None => {
                    return Err(ServiceError::PartyDoesNotExist(party_number));
                },
            }
        }
        let ghost pre = *self;
        let mut g = self.groups.remove(i);
        let mut s = g.sessions.remove(j);
        proof {
            crate::session::lemma_signup_conn_some(s.party_signups@, party_number);
        }
        s.finish(party_number);
        g.sessions.insert(j, s);
        self.groups.insert(i, g);
        proof {
            assert(self.groups@ =~= pre.groups@.update(i as int, self.groups@[i as int]));
            assert(self.groups@[i as int].sessions@ =~= pre.groups@[i as int].sessions@.update(
                j as int,
                self.groups@[i as int].sessions@[j as int],
            ));
            lemma_session_update_preserves_wf(pre, *self, i as int, j as int);
        }
        Ok(Reply::Ack)
    }
}

/// What the notify pass emits after `Session.create`: for a key
/// generation session by a group member, the newest session is
/// announced to everyone else in the group.
pub open spec fn notify_session_create_post(
    s: State,
    conn: usize,
    group_id: String,
    kind: SessionKind,
    r: Notification,
) -> bool {
    if kind == SessionKind::Keygen && member_group(s, group_id@, conn) && s.groups@[group_index(
        s.groups@,
        group_id@,
    )].sessions@.len() > 0 {
        let sess = s.groups@[group_index(s.groups@, group_id@)].sessions@.last();
        r matches Notification::Group { group_id: gid, filter, event: Event::SessionCreate(info) }
            && gid@ == group_id@ && filter_view(filter) == Some(seq![conn]) && info.uuid@
            == sess.uuid@ && info.kind == sess.kind && info.value == sess.value
    } else {
        r is Noop
    }
}

/// What the notify pass emits after `Session.signup` or `Session.load`:
/// exactly when the session's party count equals the required count,
/// everyone in the session is told; `sign_up` selects which of the two
/// event names is used.
pub open spec fn notify_threshold_post(
    s: State,
    conn: usize,
    group_id: String,
    session_id: String,
    kind: SessionKind,
    sign_up: bool,
    r: Notification,
) -> bool {
    if member_group(s, group_id@, conn) && s.groups@[group_index(
        s.groups@,
        group_id@,
    )].has_session(session_id@) && ({
        let g = s.groups@[group_index(s.groups@, group_id@)];
        g.sessions@[g.session_index(session_id@)].party_signups@.len() == required_entries(
            kind,
            g.params,
        )
    }) {
        if sign_up {
            r matches Notification::Session {
                group_id: gid,
                session_id: sid,
                filter: None,
                event: Event::SessionSignup(sid2),
            } && gid@ == group_id@ && sid@ == session_id@ && sid2@ == session_id@
        } else {
            r matches Notification::Session {
                group_id: gid,
                session_id: sid,
                filter: None,
                event: Event::SessionLoad(sid2),
            } && gid@ == group_id@ && sid@ == session_id@ && sid2@ == session_id@
        }
    } else {
        r is Noop
    }
}

/// What the notify pass emits after `Session.message`: a resolvable
/// peer to peer message is relayed to its receiver alone, a broadcast
/// goes to every other session member.
pub open spec fn notify_session_message_post(
    s: State,
    conn: usize,
    group_id: String,
    session_id: String,
    message: Message,
    r: Notification,
) -> bool {
    if member_group(s, group_id@, conn) && s.groups@[group_index(
        s.groups@,
        group_id@,
    )].has_session(session_id@) {
        let g = s.groups@[group_index(s.groups@, group_id@)];
        let sess = g.sessions@[g.session_index(session_id@)];
        match message.receiver {
            Some(recv) => {
                match signup_conn(sess.party_signups@, sess.mapped_receiver(recv)) {
                    Some(c) => r matches Notification::Relay { messages } && messages@.len() == 1
                        && messages@[0].0 == c && messages@[0].1
                        == Event::SessionMessage(message),
                    None => r is Noop,
                }
            },
            None => r matches Notification::Session {
                group_id: gid,
                session_id: sid,
                filter,
                event: Event::SessionMessage(m),
            } && gid@ == group_id@ && sid@ == session_id@ && filter_view(filter) == Some(
                seq![conn],
            ) && m == message,
        }
    } else {
        r is Noop
    }
}

/// What the notify pass emits after `Session.finish`: exactly when the
/// finished set has come to cover every signed-up party number, the
/// sorted list of finished numbers is announced to the whole session.
pub open spec fn notify_session_finish_post(
    s: State,
    conn: usize,
    group_id: String,
    session_id: String,
    r: Notification,
) -> bool {
    if member_group(s, group_id@, conn) && s.groups@[group_index(
        s.groups@,
        group_id@,
    )].has_session(session_id@) && ({
        let g = s.groups@[group_index(s.groups@, group_id@)];
        g.sessions@[g.session_index(session_id@)].closed()
    }) {
        let g = s.groups@[group_index(s.groups@, group_id@)];
        let sess = g.sessions@[g.session_index(session_id@)];
        r matches Notification::Session {
            group_id: gid,
            session_id: sid,
            filter: None,
            event: Event::SessionClosed(done),
        } && gid@ == group_id@ && sid@ == session_id@ && done@ == sess.finished@
    } else {
        r is Noop
    }
}

/// What the notify pass emits after `Notify.proposal`: the proposal is
/// forwarded to everyone else in the group, unconditionally.
pub open spec fn notify_proposal_post(
    conn: usize,
    group_id: String,
    session_id: String,
    proposal_id: String,
    message: String,
    r: Notification,
) -> bool {
    r matches Notification::Group { group_id: gid, filter, event: Event::NotifyProposal(p) }
        && gid@ == group_id@ && filter_view(filter) == Some(seq![conn]) && p.session_id@
        == session_id@ && p.proposal_id@ == proposal_id@ && p.message@ == message@
}

/// What the notify pass emits after `Notify.signed`: the outcome goes
/// to the group members that did not take part in the session.
pub open spec fn notify_signed_post(
    s: State,
    conn: usize,
    group_id: String,
    session_id: String,
    value: String,
    r: Notification,
) -> bool {
    if member_group(s, group_id@, conn) && s.groups@[group_index(
        s.groups@,
        group_id@,
    )].has_session(session_id@) {
        let g = s.groups@[group_index(s.groups@, group_id@)];
        let sess = g.sessions@[g.session_index(session_id@)];
        r matches Notification::Group { group_id: gid, filter, event: Event::NotifySigned(v) }
            && gid@ == group_id@ && filter_view(filter) == Some(conns_of(sess.party_signups@))
            && v@ == value@
    } else {
        r is Noop
    }
}

/// What the notify pass emits for each method on the state it reads.
pub open spec fn notify_post(s: State, conn: usize, req: MethodCall, r: Notification) -> bool {
    match req {
        MethodCall::SessionCreate { group_id, kind, .. } => notify_session_create_post(
            s,
            conn,
            group_id,
            kind,
            r,
        ),
        MethodCall::SessionSignup { group_id, session_id, kind } => notify_threshold_post(
            s,
            conn,
            group_id,
            session_id,
            kind,
            true,
            r,
        ),
        MethodCall::SessionLoad { group_id, session_id, kind, .. } => notify_threshold_post(
            s,
            conn,
            group_id,
            session_id,
            kind,
            false,
            r,
        ),
        MethodCall::SessionMessage { group_id, session_id, message, .. } => {
            notify_session_message_post(s, conn, group_id, session_id, message, r)
        },
        MethodCall::SessionFinish { group_id, session_id, .. } => notify_session_finish_post(
            s,
            conn,
            group_id,
            session_id,
            r,
        ),
        MethodCall::NotifyProposal { group_id, session_id, proposal_id, message } => {
            notify_proposal_post(conn, group_id, session_id, proposal_id, message, r)
        },
        MethodCall::NotifySigned { group_id, session_id, value } => notify_signed_post(
            s,
            conn,
            group_id,
            session_id,
            value,
            r,
        ),
        _ => r is Noop,
    }
}

/// Copy a list of party numbers.
fn copy_numbers(numbers: &Vec<u16>) -> (r: Vec<u16>)
    ensures
        r@ == numbers@,
{
    let n = numbers.len();
    let mut out: Vec<u16> = Vec::new();
    let mut i: usize = 0;
    while i < n
        invariant
            0 <= i <= n,
            n == numbers@.len(),
            out@ =~= numbers@.take(i as int),
        decreases n - i,
    {
        out.push(numbers[i]);
        i += 1;
    }
    proof {
        assert(numbers@.take(n as int) =~= numbers@);
    }
    out
}

/// Service for broadcasting notifications to connected clients.
///
/// It runs after the mutating pass, reads the post-mutation state and
/// never writes it.
pub struct NotifyHandler;

impl NotifyHandler {
    /// Decide the notification intent a request earns, by inspecting
    /// the state left behind by the mutating pass.
    pub fn handle(state: &State, conn: usize, req: &MethodCall) -> (r: Notification)
        requires
            state.wf(),
        ensures
            notify_post(*state, conn, *req, r),
    {
        match req {
            MethodCall::SessionCreate { group_id, kind, .. } => {
                match *kind {
                    SessionKind::Keygen => {},
                    SessionKind::Sign => {
                        return Notification::Noop;
                    },
                }
                let i = match find_member_group(state, conn, group_id) {
                    Some(i) => i,
                    None => {
                        return Notification::Noop;
                    },
                };
                let g = &state.groups[i];
                let n = g.sessions.len();
                if n == 0 {
                    return Notification::Noop;
                }
                let sess = &g.sessions[n - 1];
                let info = SessionInfo {
                    uuid: sess.uuid.clone(),
                    kind: sess.kind,
                    value: clone_opt_string(&sess.value),
                };
                let mut only_caller: Vec<usize> = Vec::new();
                only_caller.push(conn);
                proof {
                    assert(only_caller@ =~= seq![conn]);
                }
                Notification::Group {
                    group_id: group_id.clone(),
                    filter: Some(only_caller),
                    event: Event::SessionCreate(info),
                }
            },
            MethodCall::SessionSignup { group_id, session_id, kind } => {
                threshold_notify(state, conn, group_id, session_id, kind, true)
            },
            MethodCall::SessionLoad { group_id, session_id, kind, .. } => {
                threshold_notify(state, conn, group_id, session_id, kind, false)
            },
            MethodCall::SessionMessage { group_id, session_id, message, .. } => {
                let (i, j) = match find_member_session(state, conn, group_id, session_id) {
                    Some(p) => p,
                    None => {
                        return Notification::Noop;
                    },
                };
                let sess = &state.groups[i].sessions[j];
                match message.receiver {
                    Some(recv) => {
                        match sess.resolve(recv) {
                            Some((_, target)) => {
                                let mut messages: Vec<(usize, Event)> = Vec::new();
                                messages.push(
                                    (target, Event::SessionMessage(message.duplicate())),
                                );
                                Notification::Relay { messages }
                            },
                            None => Notification::Noop,
                        }
                    },
                    None => {
                        let mut only_caller: Vec<usize> = Vec::new();
                        only_caller.push(conn);
                        proof {
                            assert(only_caller@ =~= seq![conn]);
                        }
                        Notification::Session {
                            group_id: group_id.clone(),
                            session_id: session_id.clone(),
                            filter: Some(only_caller),
                            event: Event::SessionMessage(message.duplicate()),
                        }
                    },
                }
            },
            MethodCall::SessionFinish { group_id, session_id, .. } => {
                let (i, j) = match find_member_session(state, conn, group_id, session_id) {
                    Some(p) => p,
                    None => {
                        return Notification::Noop;
                    },
                };
                let sess = &state.groups[i].sessions[j];
                proof {
                    crate::session::lemma_closed_iff_len(*sess);
                }
                if sess.finished.len() == sess.party_signups.len() {
                    Notification::Session {
                        group_id: group_id.clone(),
                        session_id: session_id.clone(),
                        filter: None,
                        event: Event::SessionClosed(copy_numbers(&sess.finished)),
                    }
                } else {
                    Notification::Noop
                }
            },
            MethodCall::NotifyProposal { group_id, session_id, proposal_id, message } => {
                let proposal = Proposal {
                    session_id: session_id.clone(),
                    proposal_id: proposal_id.clone(),
                    message: message.clone(),
                };
                let mut only_caller: Vec<usize> = Vec::new();
                only_caller.push(conn);
                proof {
                    assert(only_caller@ =~= seq![conn]);
                }
                Notification::Group {
                    group_id: group_id.clone(),
                    filter: Some(only_caller),
                    event: Event::NotifyProposal(proposal),
                }
            },
            MethodCall::NotifySigned { group_id, session_id, value } => {
                let (i, j) = match find_member_session(state, conn, group_id, session_id) {
                    Some(p) => p,
                    None => {
                        return Notification::Noop;
                    },
                };
                let sess = &state.groups[i].sessions[j];
                let n = sess.party_signups.len();
                let mut participants: Vec<usize> = Vec::new();
                let mut k: usize = 0;
                while k < n
                    invariant
                        0 <= k <= n,
                        n == sess.party_signups@.len(),
                        participants@ =~= conns_of(sess.party_signups@.take(k as int)),
                    decreases n - k,
                {
                    participants.push(sess.party_signups[k].1);
                    k += 1;
                }
                proof {
                    assert(sess.party_signups@.take(n as int) =~= sess.party_signups@);
                }
                Notification::Group {
                    group_id: group_id.clone(),
                    filter: Some(participants),
                    event: Event::NotifySigned(value.clone()),
                }
            },
            _ => Notification::Noop,
        }
    }
}

/// Locate a group the connection belongs to, silently: the notify pass
/// never reports errors.
fn find_member_group(state: &State, conn: usize, group_id: &String) -> (r: Option<usize>)
    requires
        state.wf(),
    ensures
        match r {
            Some(i) => i < state.groups@.len() && i == group_index(state.groups@, group_id@)
                && member_group(*state, group_id@, conn),
            None => !member_group(*state, group_id@, conn),
        },
{
    match state.find_group(group_id) {
        Some(i) => {
            let g = &state.groups[i];
            if g.is_member(conn) {
                Some(i)
            } else {
                None
            }
        },
        None => None,
    }
}

/// Locate a group the connection belongs to and one of its sessions,
/// silently.
fn find_member_session(
    state: &State,
    conn: usize,
    group_id: &String,
    session_id: &String,
) -> (r: Option<(usize, usize)>)
    requires
        state.wf(),
    ensures
        match r {
            Some((i, j)) => {
                &&& i < state.groups@.len()
                &&& i == group_index(state.groups@, group_id@)
                &&& member_group(*state, group_id@, conn)
                &&& j < state.groups@[i as int].sessions@.len()
                &&& j == state.groups@[i as int].session_index(session_id@)
                &&& state.groups@[i as int].has_session(session_id@)
            },
            None => !member_group(*state, group_id@, conn) || !state.groups@[group_index(
                state.groups@,
                group_id@,
            )].has_session(session_id@),
        },
{
    let i = match find_member_group(state, conn, group_id) {
        Some(i) => i,
        None => {
            return None;
        },
    };
    let g = &state.groups[i];
    match g.find_session(session_id) {
        Some(j) => Some((i, j)),
        None => None,
    }
}

/// The threshold test shared by the signup and load notify passes.
fn threshold_notify(
    state: &State,
    conn: usize,
    group_id: &String,
    session_id: &String,
    kind: &SessionKind,
    sign_up: bool,
) -> (r: Notification)
    requires
        state.wf(),
    ensures
        notify_threshold_post(*state, conn, *group_id, *session_id, *kind, sign_up, r),
{
    let (i, j) = match find_member_session(state, conn, group_id, session_id) {
        Some(p) => p,
        None => {
            return Notification::Noop;
        },
    };
    let g = &state.groups[i];
    let sess = &g.sessions[j];
    if threshold(kind, &g.params, sess.party_signups.len()) {
        let event = if sign_up {
            Event::SessionSignup(session_id.clone())
        } else {
            Event::SessionLoad(session_id.clone())
        };
        Notification::Session {
            group_id: group_id.clone(),
            session_id: session_id.clone(),
            filter: None,
            event,
        }
    } else {
        Notification::Noop
    }
}

/// What the mutating pass guarantees, for each method.
pub open spec fn service_post(
    pre: State,
    post: State,
    conn: usize,
    req: MethodCall,
    r: Result<Reply, ServiceError>,
) -> bool {
    match req {
        MethodCall::GroupCreate { label, parameters } => group_create_post(
            pre,
            post,
            conn,
            label,
            parameters,
            r,
        ),
        MethodCall::GroupJoin { group_id } => group_join_post(pre, post, conn, group_id, r),
        MethodCall::SessionCreate { group_id, kind, value } => session_create_post(
            pre,
            post,
            conn,
            group_id,
            kind,
            value,
            r,
        ),
        MethodCall::SessionJoin { group_id, session_id, .. } => session_join_post(
            pre,
            post,
            conn,
            group_id,
            session_id,
            r,
        ),
        MethodCall::SessionSignup { group_id, session_id, .. } => session_signup_post(
            pre,
            post,
            conn,
            group_id,
            session_id,
            r,
        ),
        MethodCall::SessionLoad { group_id, session_id, kind, party_number } => {
            session_load_post(pre, post, conn, group_id, session_id, kind, party_number, r)
        },
        MethodCall::SessionParticipant { group_id, session_id, party_index, party_number } => {
            session_participant_post(
                pre,
                post,
                conn,
                group_id,
                session_id,
                party_index,
                party_number,
                r,
            )
        },
        MethodCall::SessionMessage { group_id, session_id, message, .. } => {
            session_message_post(pre, post, conn, group_id, session_id, message, r)
        },
        MethodCall::SessionFinish { group_id, session_id, party_number } => session_finish_post(
            pre,
            post,
            conn,
            group_id,
            session_id,
            party_number,
            r,
        ),
        MethodCall::NotifyProposal { .. } => post == pre && r matches Ok(Reply::Ack),
        MethodCall::NotifySigned { .. } => post == pre && r matches Ok(Reply::Ack),
    }
}

/// The party count of a session, or minus one when the group or the
/// session does not exist.
pub open spec fn session_count(s: State, group_id: Seq<char>, session_id: Seq<char>) -> int {
    if has_group(s.groups@, group_id) {
        let g = s.groups@[group_index(s.groups@, group_id)];
        if g.has_session(session_id) {
            g.sessions@[g.session_index(session_id)].party_signups@.len() as int
        } else {
            -1
        }
    } else {
        -1
    }
}

/// The one machine-limit precondition of the pipeline: a session that
/// is signed up to must still have room for one more party number.
pub open spec fn signup_precondition(s: State, req: MethodCall) -> bool {
    req matches MethodCall::SessionSignup { group_id, session_id, .. } ==> signup_room(
        s,
        group_id@,
        session_id@,
    )
}

/// Service for replying to client requests: the mutating pass.
pub struct ServiceHandler;

impl ServiceHandler {
    /// Validate and apply one request, returning the direct reply to
    /// the caller.
    pub fn handle(state: &mut State, conn: usize, req: &MethodCall) -> (r: Result<
        Reply,
        ServiceError,
    >)
        requires
            old(state).wf(),
            signup_precondition(*old(state), *req),
        ensures
            service_post(*old(state), *final(state), conn, *req, r),
            final(state).wf(),
    {
        match req {
            MethodCall::GroupCreate { label, parameters } => {
                state.group_create(conn, label.clone(), *parameters)
            },
            MethodCall::GroupJoin { group_id } => state.group_join(conn, group_id),
            MethodCall::SessionCreate { group_id, kind, value } => {
                state.session_create(conn, group_id, *kind, clone_opt_string(value))
            },
            MethodCall::SessionJoin { group_id, session_id, .. } => {
                state.session_join(conn, group_id, session_id)
            },
            MethodCall::SessionSignup { group_id, session_id, .. } => {
                state.session_signup(conn, group_id, session_id)
            },
            MethodCall::SessionLoad { group_id, session_id, kind, party_number } => {
                state.session_load(conn, group_id, session_id, *kind, *party_number)
            },
            MethodCall::SessionParticipant {
                group_id,
                session_id,
                party_index,
                party_number,
            } => state.session_participant(
                conn,
                group_id,
                session_id,
                *party_index,
                *party_number,
            ),
            MethodCall::SessionMessage { group_id, session_id, message, .. } => {
                state.session_message(conn, group_id, session_id, message)
            },
            MethodCall::SessionFinish { group_id, session_id, party_number } => {
                state.session_finish(conn, group_id, session_id, *party_number)
            },
            MethodCall::NotifyProposal { .. } => Ok(Reply::Ack),
            MethodCall::NotifySigned { .. } => Ok(Reply::Ack),
        }
    }
}

/// The methods that get a notify pass after the mutating pass.
pub open spec fn needs_notify(req: MethodCall) -> bool {
    match req {
        MethodCall::SessionCreate { .. } => true,
        MethodCall::SessionSignup { .. } => true,
        MethodCall::SessionLoad { .. } => true,
        MethodCall::SessionMessage { .. } => true,
        MethodCall::SessionFinish { .. } => true,
        MethodCall::NotifyProposal { .. } => true,
        MethodCall::NotifySigned { .. } => true,
        _ => false,
    }
}

/// Whether a request gets a notify pass.
fn requires_notify(req: &MethodCall) -> (r: bool)
    ensures
        r == needs_notify(*req),
{
    match req {
        MethodCall::SessionCreate { .. } => true,
        MethodCall::SessionSignup { .. } => true,
        MethodCall::SessionLoad { .. } => true,
        MethodCall::SessionMessage { .. } => true,
        MethodCall::SessionFinish { .. } => true,
        MethodCall::NotifyProposal { .. } => true,
        MethodCall::NotifySigned { .. } => true,
        _ => false,
    }
}

/// Process one inbound request through the whole pipeline: the
/// mutating pass first, then — for the methods that fan out, and only
/// when the mutation succeeded — the notify pass over the post-mutation
/// state.  The two passes are atomic with respect to other requests:
/// nothing interleaves between a mutation and its notify decision.
pub fn handle_request(state: &mut State, conn: usize, req: &MethodCall) -> (r: (
    Result<Reply, ServiceError>,
    Notification,
))
    requires
        old(state).wf(),
        signup_precondition(*old(state), *req),
    ensures
        service_post(*old(state), *final(state), conn, *req, r.0),
        final(state).wf(),
        r.0 is Ok && needs_notify(*req) ==> notify_post(*final(state), conn, *req, r.1),
        !(r.0 is Ok && needs_notify(*req)) ==> r.1 is Noop,
{
    let reply = ServiceHandler::handle(state, conn, req);
    let notification = if reply.is_ok() && requires_notify(req) {
        NotifyHandler::handle(state, conn, req)
    } else {
        Notification::Noop
    };
    (reply, notification)
}

} // verus!
