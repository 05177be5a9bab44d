//! The global server state: connected clients and groups.

use vstd::prelude::*;

use crate::group::Group;

verus! {

/// A group survives a disconnect when it still has a client after the
/// disconnecting connection is removed.
pub open spec fn survives(g: Group, conn: usize) -> bool {
    g.clients@.remove_value(conn).len() > 0
}

/// The second group is the first with the disconnecting connection
/// removed from its clients and everything else untouched.
pub open spec fn without_client(g0: Group, g1: Group, conn: usize) -> bool {
    &&& g1.uuid == g0.uuid
    &&& g1.params == g0.params
    &&& g1.label == g0.label
    &&& g1.sessions == g0.sessions
    &&& g1.clients@ == g0.clients@.remove_value(conn)
}

/// The groups that keep at least one client when this connection goes
/// away, in their original order and still holding the old clients.
pub open spec fn surviving(groups: Seq<Group>, conn: usize) -> Seq<Group> {
    groups.filter(|g: Group| survives(g, conn))
}

/// The sequence of group identifiers of a list of groups.
pub open spec fn group_ids(groups: Seq<Group>) -> Seq<Seq<char>> {
    groups.map_values(|g: Group| g.uuid@)
}

/// A group with this identifier exists.
pub open spec fn has_group(groups: Seq<Group>, group_id: Seq<char>) -> bool {
    exists|i: int| 0 <= i < groups.len() && groups[i].uuid@ == group_id
}

/// The index of the group with this identifier.
pub open spec fn group_index(groups: Seq<Group>, group_id: Seq<char>) -> int {
    choose|i: int| 0 <= i < groups.len() && groups[i].uuid@ == group_id
}

/// Collection of clients and groups managed by the server.
#[derive(Debug)]
pub struct State {
    /// Identifiers of the connected clients, in connection order.  The
    /// transport owns one outbound queue per identifier.
    pub clients: Vec<usize>,
    /// Groups in creation order, with distinct identifiers.
    pub groups: Vec<Group>,
}

impl State {
    /// Internal consistency of the whole server state: no connection is
    /// registered twice, group identifiers are distinct and every group
    /// is itself consistent.
    pub open spec fn wf(self) -> bool {
        &&& self.clients@.no_duplicates()
        &&& group_ids(self.groups@).no_duplicates()
        &&& forall|i: int| 0 <= i < self.groups@.len() ==> (#[trigger] self.groups@[i]).wf()
    }

    /// An empty state: no clients, no groups.
    pub fn new() -> (s: State)
        ensures
            s.clients@ =~= Seq::<usize>::empty(),
            s.groups@ =~= Seq::<Group>::empty(),
            s.wf(),
    {
        let s = State { clients: Vec::new(), groups: Vec::new() };
        proof {
            assert(group_ids(s.groups@) =~= Seq::<Seq<char>>::empty());
        }
        s
    }

    /// Register a connection at websocket upgrade.
    pub fn register_connection(&mut self, conn: usize)
        requires
            old(self).wf(),
            !old(self).clients@.contains(conn),
        ensures
            final(self).clients@ == old(self).clients@.push(conn),
            final(self).groups == old(self).groups,
            final(self).wf(),
    {
        self.clients.push(conn);
        proof {
            let c1 = self.clients@;
            assert forall|a: int, b: int| 0 <= a < b < c1.len() implies c1[a] != c1[b] by {
                if b == c1.len() - 1 {
                    assert(old(self).clients@.contains(old(self).clients@[a]));
                }
            }
        }
    }

    /// The index of the group with this identifier, if it exists.
    pub fn find_group(&self, group_id: &String) -> (r: Option<usize>)
        requires
            self.wf(),
        ensures
            match r {
                Some(i) => i < self.groups@.len() && self.groups@[i as int].uuid@ == group_id@
                    && i == group_index(self.groups@, group_id@),
                None => !has_group(self.groups@, group_id@),
            },
    {
        let n = self.groups.len();
        let mut i: usize = 0;
        while i < n
            invariant
                0 <= i <= n,
                n == self.groups@.len(),
                forall|j: int| 0 <= j < i ==> self.groups@[j].uuid@ != group_id@,
            decreases n - i,
        {
            if self.groups[i].uuid.eq(group_id) {
                proof {
                    let k = group_index(self.groups@, group_id@);
                    assert(has_group(self.groups@, group_id@));
                    assert(group_ids(self.groups@)[i as int] == group_id@);
                    assert(group_ids(self.groups@)[k] == group_id@);
                }
                return Some(i);
            }
            i += 1;
        }
        proof {
            if has_group(self.groups@, group_id@) {
                let j = choose|j: int| 0 <= j < n && self.groups@[j].uuid@ == group_id@;
                assert(self.groups@[j].uuid@ != group_id@);
            }
        }
        None
    }

    /// Insert a group, replacing any group that already carries the same
    /// identifier.
    pub fn insert_group(&mut self, group: Group)
        requires
            old(self).wf(),
            group.wf(),
        ensures
            final(self).groups@ == if has_group(old(self).groups@, group.uuid@) {
                old(self).groups@.update(group_index(old(self).groups@, group.uuid@), group)
            } else {
                old(self).groups@.push(group)
            },
            final(self).clients == old(self).clients,
            final(self).wf(),
    {
        let ghost g0 = self.groups@;
        let r = self.find_group(&group.uuid);
        match r {
            Some(i) => {
                self.groups.remove(i);
                self.groups.insert(i, group);
                proof {
                    let g1 = self.groups@;
                    assert(g1 =~= g0.update(i as int, group));
                    assert(group_ids(g1) =~= group_ids(g0));
                }
            },
            None => {
                self.groups.push(group);
                proof {
                    let g1 = self.groups@;
                    assert(group_ids(g1) =~= group_ids(g0).push(group.uuid@));
                    assert forall|a: int, b: int|
                        0 <= a < b < group_ids(g1).len() implies group_ids(g1)[a]
                        != group_ids(g1)[b] by {
                        if b == group_ids(g1).len() - 1 {
                            assert(g0[a].uuid@ != group.uuid@) by {
                                if g0[a].uuid@ == group.uuid@ {
                                    assert(has_group(g0, group.uuid@));
                                }
                            }
                            assert(group_ids(g1)[a] == g0[a].uuid@);
                        }
                    }
                }
            },
        }
    }

    /// Tear down a disconnected client.
    ///
    /// The connection is removed from the registered clients and from
    /// every group's clients; a group left with no clients is deleted,
    /// together with all its sessions.
    pub fn remove_connection(&mut self, conn: usize)
        requires
            old(self).wf(),
        ensures
            final(self).clients@ == old(self).clients@.remove_value(conn),
            final(self).groups@.len() == surviving(old(self).groups@, conn).len(),
            forall|i: int|
                0 <= i < final(self).groups@.len() ==> without_client(
                    surviving(old(self).groups@, conn)[i],
                    #[trigger] final(self).groups@[i],
                    conn,
                ),
            final(self).wf(),
    {
        let ghost c0 = self.clients@;
        // Remove the connection from the registered clients.
        let n = self.clients.len();
        let mut i: usize = 0;
        let mut removed = false;
        while i < n
            invariant
                0 <= i <= n,
                self.groups == old(self).groups,
                if removed {
                    self.clients@ == c0.remove_value(conn)
                } else {
                    self.clients@ == c0 && (forall|j: int| 0 <= j < i ==> c0[j] != conn)
                },
            decreases n - i,
        {
            if !removed && self.clients[i] == conn {
                self.clients.remove(i);
                proof {
                    c0.index_of_first_ensures(conn);
                    assert(c0.index_of_first(conn) == Some(i as int));
                    assert(self.clients@ =~= c0.remove(i as int));
                }
                removed = true;
            }
            i += 1;
        }
        proof {
            if !removed {
                assert(!c0.contains(conn)) by {
                    if c0.contains(conn) {
                        let j = choose|j: int| 0 <= j < c0.len() && c0[j] == conn;
                        assert(c0[j] != conn);
                    }
                }
                c0.index_of_first_ensures(conn);
                assert(c0.remove_value(conn) == c0);
            }
            // The pruned client list is still free of duplicates.
            c0.index_of_first_ensures(conn);
            let c1 = self.clients@;
            assert forall|a: int, b: int| 0 <= a < b < c1.len() implies c1[a] != c1[b] by {
                match c0.index_of_first(conn) {
                    Some(x) => {
                        let a0: int = if a < x { a } else { a + 1 };
                        let b0: int = if b < x { b } else { b + 1 };
                        assert(c1 =~= c0.remove(x));
                        assert(c1[a] == c0[a0]);
                        assert(c1[b] == c0[b0]);
                    },
                    None => {},
                }
            }
        }
        // Remove the connection from every group, dropping groups that
        // are left with no clients.
        let ghost g0 = self.groups@;
        let total = self.groups.len();
        let mut kept: Vec<Group> = Vec::new();
        let mut k: usize = 0;
        proof {
            assert(g0.take(0) =~= Seq::<Group>::empty());
            reveal(Seq::filter);
            assert(group_ids(kept@) =~= Seq::<Seq<char>>::empty());
        }
        while k < total
            invariant
                0 <= k <= total,
                total == g0.len(),
                self.groups@ =~= g0.skip(k as int),
                self.clients@ == c0.remove_value(conn),
                kept@.len() == surviving(g0.take(k as int), conn).len(),
                forall|i: int|
                    0 <= i < kept@.len() ==> without_client(
                        surviving(g0.take(k as int), conn)[i],
                        #[trigger] kept@[i],
                        conn,
                    ),
                forall|i: int| 0 <= i < kept@.len() ==> (#[trigger] kept@[i]).wf(),
                forall|i: int|
                    0 <= i < kept@.len() ==> group_ids(g0.take(k as int)).contains(
                        #[trigger] kept@[i].uuid@,
                    ),
                group_ids(kept@).no_duplicates(),
            decreases total - k,
        {
            let ghost prefix = g0.take(k as int);
            let ghost kept0 = kept@;
            let mut g = self.groups.remove(0);
            proof {
                assert(g == g0[k as int]);
                assert(self.groups@ =~= g0.skip(k + 1));
                assert(g.wf());
            }
            g.remove_client(conn);
            proof {
                assert(g0.take(k + 1).drop_last() =~= prefix);
                assert(g0.take(k + 1).last() == g0[k as int]);
                reveal(Seq::filter);
            }
            if g.clients.len() > 0 {
                proof {
                    assert(survives(g0[k as int], conn));
                    assert(surviving(g0.take(k + 1), conn) =~= surviving(prefix, conn).push(
                        g0[k as int],
                    ));
                }
                let ghost guuid = g.uuid@;
                kept.push(g);
                proof {
                    assert forall|i: int|
                        0 <= i < kept@.len() implies group_ids(g0.take(k + 1)).contains(
                        #[trigger] kept@[i].uuid@,
                    ) by {
                        if i < kept@.len() - 1 {
                            let j = choose|j: int|
                                0 <= j < k && group_ids(prefix)[j] == kept@[i].uuid@;
                            assert(group_ids(g0.take(k + 1))[j] == kept@[i].uuid@);
                        } else {
                            assert(group_ids(g0.take(k + 1))[k as int] == guuid);
                        }
                    }
                    assert(group_ids(kept@) =~= group_ids(kept0).push(guuid));
                    assert forall|a: int, b: int|
                        0 <= a < b < group_ids(kept@).len() implies group_ids(kept@)[a]
                        != group_ids(kept@)[b] by {
                        if b == group_ids(kept@).len() - 1 {
                            let ua = kept0[a].uuid@;
                            assert(group_ids(kept@)[a] == ua);
                            let j = choose|j: int|
                                0 <= j < k && group_ids(prefix)[j] == ua;
                            assert(group_ids(g0)[j] == ua);
                            assert(group_ids(g0)[k as int] == guuid);
                        }
                    }
                }
            } else {
                proof {
                    assert(!survives(g0[k as int], conn));
                    assert(surviving(g0.take(k + 1), conn) =~= surviving(prefix, conn));
                    assert forall|i: int|
                        0 <= i < kept@.len() implies group_ids(g0.take(k + 1)).contains(
                        #[trigger] kept@[i].uuid@,
                    ) by {
                        let j = choose|j: int|
                            0 <= j < k && group_ids(prefix)[j] == kept@[i].uuid@;
                        assert(group_ids(g0.take(k + 1))[j] == kept@[i].uuid@);
                    }
                }
            }
            k += 1;
        }
        proof {
            assert(g0.take(total as int) =~= g0);
        }
        self.groups = kept;
    }
}

} // verus!
