//! Groups: long-lived cohorts of connected clients sharing key
//! generation parameters and hosting sessions.

use vstd::prelude::*;

use crate::ids::new_uuid;
use crate::params::Parameters;
use crate::session::Session;

verus! {

/// Group is a collection of connected websocket clients.
#[derive(Debug, Clone)]
pub struct Group {
    /// Unique identifier for the group.
    pub uuid: String,
    /// Parameters for key generation.
    pub params: Parameters,
    /// Human-readable label for the group.
    pub label: String,
    /// Collection of client connection identifiers, in join order.
    pub clients: Vec<usize>,
    /// Sessions belonging to this group.
    pub sessions: Vec<Session>,
}

/// The sequence of session identifiers hosted by a list of sessions.
pub open spec fn session_ids(sessions: Seq<Session>) -> Seq<Seq<char>> {
    sessions.map_values(|s: Session| s.uuid@)
}

impl Group {
    /// Internal consistency of a group: parameters are acceptable, no
    /// client appears twice, the group never exceeds its number of
    /// parties, session identifiers are distinct and every session is
    /// itself consistent.
    pub open spec fn wf(self) -> bool {
        &&& self.params.valid()
        &&& self.clients@.no_duplicates()
        &&& self.clients@.len() <= self.params.parties
        &&& session_ids(self.sessions@).no_duplicates()
        &&& forall|i: int|
            0 <= i < self.sessions@.len() ==> (#[trigger] self.sessions@[i]).wf()
    }

    /// A session with this identifier exists in the group.
    pub open spec fn has_session(self, session_id: Seq<char>) -> bool {
        exists|i: int| 0 <= i < self.sessions@.len() && self.sessions@[i].uuid@ == session_id
    }

    /// The index of the session with this identifier.
    pub open spec fn session_index(self, session_id: Seq<char>) -> int {
        choose|i: int| 0 <= i < self.sessions@.len() && self.sessions@[i].uuid@ == session_id
    }

    /// The group is at capacity: as many clients as parties.
    pub open spec fn full(self) -> bool {
        self.clients@.len() == self.params.parties
    }

    /// Create a new group with a fresh identifier.
    ///
    /// The connection identifier `conn` becomes the initial client of
    /// the group.
    pub fn new(conn: usize, params: Parameters, label: String) -> (g: Group)
        requires
            params.valid(),
        ensures
            g.params == params,
            g.label == label,
            g.clients@ =~= seq![conn],
            g.sessions@ =~= Seq::<Session>::empty(),
            g.wf(),
    {
        let mut clients: Vec<usize> = Vec::new();
        clients.push(conn);
        let g = Group { uuid: new_uuid(), params, label, clients, sessions: Vec::new() };
        proof {
            assert(session_ids(g.sessions@) =~= Seq::<Seq<char>>::empty());
        }
        g
    }

    /// True when the connection is a member of this group.
    pub fn is_member(&self, conn: usize) -> (r: bool)
        ensures
            r == self.clients@.contains(conn),
    {
        let n = self.clients.len();
        let mut i: usize = 0;
        while i < n
            invariant
                0 <= i <= n,
                n == self.clients@.len(),
                forall|j: int| 0 <= j < i ==> self.clients@[j] != conn,
            decreases n - i,
        {
            if self.clients[i] == conn {
                return true;
            }
            i += 1;
        }
        proof {
            if self.clients@.contains(conn) {
                let j = choose|j: int| 0 <= j < n && self.clients@[j] == conn;
                assert(self.clients@[j] != conn);
            }
        }
        false
    }

    /// Add the connection to the group's clients.
    ///
    /// Joining is idempotent: a connection that is already a member
    /// leaves the clients unchanged.
    pub fn join(&mut self, conn: usize)
        requires
            old(self).wf(),
            old(self).clients@.contains(conn) || !old(self).full(),
        ensures
            final(self).clients@ == if old(self).clients@.contains(conn) {
                old(self).clients@
            } else {
                old(self).clients@.push(conn)
            },
            final(self).uuid == old(self).uuid,
            final(self).params == old(self).params,
            final(self).label == old(self).label,
            final(self).sessions == old(self).sessions,
            final(self).wf(),
    {
        if !self.is_member(conn) {
            self.clients.push(conn);
        }
    }

    /// Remove the connection from the group's clients, if present.
    pub fn remove_client(&mut self, conn: usize)
        requires
            old(self).wf(),
        ensures
            final(self).clients@ == old(self).clients@.remove_value(conn),
            !final(self).clients@.contains(conn),
            final(self).uuid == old(self).uuid,
            final(self).params == old(self).params,
            final(self).label == old(self).label,
            final(self).sessions == old(self).sessions,
            final(self).wf(),
    {
        let ghost c0 = self.clients@;
        let n = self.clients.len();
        let mut i: usize = 0;
        while i < n
            invariant
                0 <= i <= n,
                n == self.clients@.len(),
                *self == *old(self),
                forall|j: int| 0 <= j < i ==> self.clients@[j] != conn,
            decreases n - i,
        {
            if self.clients[i] == conn {
                self.clients.remove(i);
                proof {
                    c0.index_of_first_ensures(conn);
                    assert(c0.index_of_first(conn) == Some(i as int));
                    let c1 = self.clients@;
                    assert(c1 =~= c0.remove(i as int));
                    assert(!c1.contains(conn)) by {
                        if c1.contains(conn) {
                            let j = choose|j: int| 0 <= j < c1.len() && c1[j] == conn;
                            if j < i {
                                assert(c0[j] == conn);
                            } else {
                                assert(c0[j + 1] == conn);
                                assert(c0[i as int] == conn);
                            }
                        }
                    }
                    assert forall|a: int, b: int|
                        0 <= a < b < c1.len() implies c1[a] != c1[b] by {
                        let a0: int = if a < i { a } else { a + 1 };
                        let b0: int = if b < i { b } else { b + 1 };
                        assert(c1[a] == c0[a0]);
                        assert(c1[b] == c0[b0]);
                    }
                }
                return ;
            }
            i += 1;
        }
        proof {
            assert(!c0.contains(conn)) by {
                if c0.contains(conn) {
                    let j = choose|j: int| 0 <= j < c0.len() && c0[j] == conn;
                    assert(c0[j] != conn);
                }
            }
            c0.index_of_first_ensures(conn);
            assert(c0.remove_value(conn) == c0);
        }
    }

    /// The index of the session with this identifier, if it exists.
    pub fn find_session(&self, session_id: &String) -> (r: Option<usize>)
        requires
            self.wf(),
        ensures
            match r {
                Some(i) => i < self.sessions@.len() && self.sessions@[i as int].uuid@
                    == session_id@ && i == self.session_index(session_id@),
                None => !self.has_session(session_id@),
            },
    {
        let n = self.sessions.len();
        let mut i: usize = 0;
        while i < n
            invariant
                0 <= i <= n,
                n == self.sessions@.len(),
                forall|j: int| 0 <= j < i ==> self.sessions@[j].uuid@ != session_id@,
            decreases n - i,
        {
            if self.sessions[i].uuid.eq(session_id) {
                proof {
                    let k = self.session_index(session_id@);
                    assert(session_ids(self.sessions@)[i as int] == session_id@);
                    assert(self.has_session(session_id@));
                    assert(session_ids(self.sessions@)[k] == session_id@);
                }
                return Some(i);
            }
            i += 1;
        }
        proof {
            if self.has_session(session_id@) {
                let j = choose|j: int|
                    0 <= j < n && self.sessions@[j].uuid@ == session_id@;
                assert(self.sessions@[j].uuid@ != session_id@);
            }
        }
        None
    }

    /// Insert a session, replacing any session that already carries the
    /// same identifier.
    pub fn insert_session(&mut self, session: Session)
        requires
            old(self).wf(),
            session.wf(),
        ensures
            final(self).sessions@ == if old(self).has_session(session.uuid@) {
                old(self).sessions@.update(old(self).session_index(session.uuid@), session)
            } else {
                old(self).sessions@.push(session)
            },
            final(self).uuid == old(self).uuid,
            final(self).params == old(self).params,
            final(self).label == old(self).label,
            final(self).clients == old(self).clients,
            final(self).wf(),
    {
        let ghost s0 = self.sessions@;
        let r = self.find_session(&session.uuid);
        match r {
            Some(i) => {
                self.sessions.remove(i);
                self.sessions.insert(i, session);
                proof {
                    let s1 = self.sessions@;
                    assert(s1 =~= s0.update(i as int, session));
                    assert(session_ids(s1) =~= session_ids(s0));
                }
            },
            None => {
                self.sessions.push(session);
                proof {
                    let s1 = self.sessions@;
                    assert(session_ids(s1) =~= session_ids(s0).push(session.uuid@));
                    assert forall|a: int, b: int|
                        0 <= a < b < session_ids(s1).len() implies session_ids(s1)[a]
                        != session_ids(s1)[b] by {
                        if b == session_ids(s1).len() - 1 {
                            assert(s0[a].uuid@ != session.uuid@) by {
                                if s0[a].uuid@ == session.uuid@ {
                                    assert(old(self).has_session(session.uuid@));
                                }
                            }
                            assert(session_ids(s1)[a] == s0[a].uuid@);
                        }
                    }
                }
            },
        }
    }
}

} // verus!
