//! The coordination engine's global laws, stated and proved once and
//! for all over the handler contracts.

use vstd::prelude::*;

use crate::group::Group;
use crate::services::{
    group_join_post, joined_group, member_group, notify_session_finish_post,
    notify_threshold_post, required_entries, session_count, session_finish_post,
    session_load_post, session_signup_post, Reply,
};
use crate::errors::ServiceError;
use crate::notify::Notification;
use crate::session::{contiguous, max_number, numbers_of, Session};
use crate::state::{
    group_ids, group_index, has_group, survives, surviving, without_client, State,
};

verus! {

/// After every request the state is consistent: every group holds at
/// most as many clients as it has parties and no client twice; party
/// numbers within a session are distinct; and the finished numbers of a
/// session all come from its party signups.
pub proof fn lemma_state_invariants(s: State)
    requires
        s.wf(),
    ensures
        forall|i: int|
            0 <= i < s.groups@.len() ==> (#[trigger] s.groups@[i]).clients@.len()
                <= s.groups@[i].params.parties,
        forall|i: int|
            0 <= i < s.groups@.len() ==> (#[trigger] s.groups@[i]).clients@.no_duplicates(),
        forall|i: int, j: int|
            0 <= i < s.groups@.len() && 0 <= j < s.groups@[i].sessions@.len() ==> (
            #[trigger] s.groups@[i].sessions@[j]).numbers().no_duplicates(),
        forall|i: int, j: int|
            0 <= i < s.groups@.len() && 0 <= j < s.groups@[i].sessions@.len() ==> (
            #[trigger] s.groups@[i].sessions@[j]).finished_set().subset_of(
                s.groups@[i].sessions@[j].number_set(),
            ),
{
    assert forall|i: int, j: int|
        0 <= i < s.groups@.len() && 0 <= j < s.groups@[i].sessions@.len() implies (
    #[trigger] s.groups@[i].sessions@[j]).finished_set().subset_of(
        s.groups@[i].sessions@[j].number_set(),
    ) by {
        let sess = s.groups@[i].sessions@[j];
        assert(s.groups@[i].wf());
        assert(sess.wf());
        assert forall|x: u16| sess.finished_set().contains(x) implies sess.number_set().contains(
            x,
        ) by {
            let k = choose|k: int| 0 <= k < sess.finished@.len() && sess.finished@[k] == x;
            assert(sess.number_set().contains(sess.finished@[k]));
        }
    }
}

/// In a session whose party numbers read one up to its count — as any
/// session built by signups alone does — the next signup is numbered
/// count plus one, and the numbers again read one up to the new count.
/// Together with the signup contract, which appends exactly the number
/// one greater than the maximum, a run of signups with no load yields
/// the numbers one up to the number of calls.
pub proof fn lemma_signup_numbers_contiguous(s: Seq<(u16, usize)>, conn: usize)
    requires
        contiguous(numbers_of(s)),
        s.len() < u16::MAX,
    ensures
        max_number(s) == s.len(),
        contiguous(numbers_of(s.push(((s.len() + 1) as u16, conn)))),
{
    lemma_contiguous_max(s);
    let s1 = s.push(((s.len() + 1) as u16, conn));
    assert forall|i: int| 0 <= i < numbers_of(s1).len() implies numbers_of(s1)[i] == i + 1 by {
        if i < s.len() {
            assert(s1[i] == s[i]);
            assert(numbers_of(s)[i] == i + 1);
        } else {
            assert(s1[i] == ((s.len() + 1) as u16, conn));
        }
    }
}

/// The largest number of a contiguous signup list is its length.
proof fn lemma_contiguous_max(s: Seq<(u16, usize)>)
    requires
        contiguous(numbers_of(s)),
    ensures
        max_number(s) == s.len(),
    decreases s.len(),
{
    if s.len() > 0 {
        assert(contiguous(numbers_of(s.drop_last()))) by {
            assert forall|i: int|
                0 <= i < numbers_of(s.drop_last()).len() implies numbers_of(s.drop_last())[i] == i
                + 1 by {
                assert(s.drop_last()[i] == s[i]);
                assert(numbers_of(s)[i] == i + 1);
            }
        }
        lemma_contiguous_max(s.drop_last());
        assert(numbers_of(s)[s.len() - 1] == s.len());
        assert(s.last().0 == s.len());
    }
}

/// At the moment of a successful signup the recorded connection is a
/// member of the enclosing group's clients, and it is exactly the
/// caller that the fresh party number is recorded for.
pub proof fn lemma_signup_records_member(
    pre: State,
    post: State,
    conn: usize,
    group_id: String,
    session_id: String,
    r: Result<Reply, ServiceError>,
)
    requires
        pre.wf(),
        r is Ok,
        session_signup_post(pre, post, conn, group_id, session_id, r),
    ensures
        pre.groups@[group_index(pre.groups@, group_id@)].clients@.contains(conn),
        ({
            let i = group_index(pre.groups@, group_id@);
            let j = pre.groups@[i].session_index(session_id@);
            let s1 = post.groups@[i].sessions@[j];
            s1.party_signups@.last() == ((r->Ok_0)->PartyNumber_0, conn)
        }),
{
    let reply = r->Ok_0;
    assert(reply is PartyNumber);
}

/// The threshold event fires at most once per session: every successful
/// signup grows the session's party count by exactly one, the notify
/// pass fires exactly when the count equals the required count, and the
/// count never shrinks; so of two signups, the later one ends at a
/// strictly larger count and the two cannot both hit the required
/// count.  The same argument covers loads, whose contract grows the
/// count by one as well.
pub proof fn lemma_threshold_event_once(
    pre1: State,
    post1: State,
    conn1: usize,
    r1: Result<Reply, ServiceError>,
    n1: Notification,
    pre2: State,
    post2: State,
    conn2: usize,
    r2: Result<Reply, ServiceError>,
    n2: Notification,
    group_id: String,
    session_id: String,
    kind: crate::session::SessionKind,
)
    requires
        pre1.wf(),
        pre2.wf(),
        r1 is Ok,
        r2 is Ok,
        session_signup_post(pre1, post1, conn1, group_id, session_id, r1),
        session_signup_post(pre2, post2, conn2, group_id, session_id, r2),
        notify_threshold_post(post1, conn1, group_id, session_id, kind, true, n1),
        notify_threshold_post(post2, conn2, group_id, session_id, kind, true, n2),
        // the second signup comes later in the session's history, whose
        // party count only ever grows
        session_count(post1, group_id@, session_id@) <= session_count(pre2, group_id@, session_id@),
        // a group's parameters are fixed at creation
        post1.groups@[group_index(post1.groups@, group_id@)].params == post2.groups@[group_index(
            post2.groups@,
            group_id@,
        )].params,
    ensures
        !(n1 is Session && n2 is Session),
{
    let reply1 = r1->Ok_0;
    let reply2 = r2->Ok_0;
    lemma_signup_count_step(pre1, post1, conn1, reply1, group_id, session_id);
    lemma_signup_count_step(pre2, post2, conn2, reply2, group_id, session_id);
    if n1 is Session && n2 is Session {
        assert(session_count(post1, group_id@, session_id@) == required_entries(
            kind,
            post1.groups@[group_index(post1.groups@, group_id@)].params,
        ));
        assert(session_count(post2, group_id@, session_id@) == required_entries(
            kind,
            post2.groups@[group_index(post2.groups@, group_id@)].params,
        ));
        assert(session_count(post2, group_id@, session_id@) > session_count(
            post1,
            group_id@,
            session_id@,
        ));
    }
}

/// A successful signup moves the session's party count up by one, and
/// the notify pass sees exactly that count.
proof fn lemma_signup_count_step(
    pre: State,
    post: State,
    conn: usize,
    reply: Reply,
    group_id: String,
    session_id: String,
)
    requires
        pre.wf(),
        session_signup_post(pre, post, conn, group_id, session_id, Ok(reply)),
    ensures
        session_count(post, group_id@, session_id@) == session_count(pre, group_id@, session_id@)
            + 1,
        session_count(post, group_id@, session_id@) == ({
            let g = post.groups@[group_index(post.groups@, group_id@)];
            g.sessions@[g.session_index(session_id@)].party_signups@.len()
        }),
{
    let i = group_index(pre.groups@, group_id@);
    let g0 = pre.groups@[i];
    let j = g0.session_index(session_id@);
    assert(reply is PartyNumber);
    lemma_index_stable(pre, post, i, j, group_id@, session_id@);
}

/// Replacing one session of one group in place moves neither the
/// group's index nor the session's.
proof fn lemma_index_stable(pre: State, post: State, i: int, j: int, gid: Seq<char>, sid: Seq<char>)
    requires
        pre.wf(),
        0 <= i < pre.groups@.len(),
        pre.groups@[i].uuid@ == gid,
        i == group_index(pre.groups@, gid),
        0 <= j < pre.groups@[i].sessions@.len(),
        pre.groups@[i].sessions@[j].uuid@ == sid,
        j == pre.groups@[i].session_index(sid),
        post.groups@ == pre.groups@.update(i, post.groups@[i]),
        crate::services::same_group_but_sessions(pre.groups@[i], post.groups@[i]),
        post.groups@[i].sessions@ == pre.groups@[i].sessions@.update(
            j,
            post.groups@[i].sessions@[j],
        ),
        post.groups@[i].sessions@[j].uuid == pre.groups@[i].sessions@[j].uuid,
    ensures
        has_group(post.groups@, gid),
        group_index(post.groups@, gid) == i,
        post.groups@[i].has_session(sid),
        post.groups@[i].session_index(sid) == j,
{
    assert(post.groups@[i].uuid@ == gid);
    assert(has_group(post.groups@, gid));
    let i2 = group_index(post.groups@, gid);
    assert(post.groups@[i2].uuid@ == gid);
    assert(group_ids(post.groups@)[i2] == gid);
    assert(group_ids(post.groups@)[i] == gid);
    assert(group_ids(pre.groups@) =~= group_ids(post.groups@));
    assert(i2 == i);
    let g1 = post.groups@[i];
    assert(g1.sessions@[j].uuid@ == sid);
    assert(g1.has_session(sid));
    let j2 = g1.session_index(sid);
    assert(g1.sessions@[j2].uuid@ == sid);
    assert(crate::group::session_ids(g1.sessions@)[j2] == sid);
    assert(crate::group::session_ids(g1.sessions@)[j] == sid);
    assert(crate::group::session_ids(g1.sessions@) =~= crate::group::session_ids(
        pre.groups@[i].sessions@,
    ));
    assert(j2 == j);
}

/// The load form of the same law: a successful load also grows the
/// session's party count by exactly one, so of a load and any other
/// load on the same session, only one can end at the required count
/// and fire the threshold event.
pub proof fn lemma_threshold_event_once_loads(
    pre1: State,
    post1: State,
    conn1: usize,
    party1: u16,
    r1: Result<Reply, ServiceError>,
    n1: Notification,
    pre2: State,
    post2: State,
    conn2: usize,
    party2: u16,
    r2: Result<Reply, ServiceError>,
    n2: Notification,
    group_id: String,
    session_id: String,
    kind: crate::session::SessionKind,
)
    requires
        pre1.wf(),
        pre2.wf(),
        r1 is Ok,
        r2 is Ok,
        session_load_post(
            pre1,
            post1,
            conn1,
            group_id,
            session_id,
            crate::session::SessionKind::Keygen,
            party1,
            r1,
        ),
        session_load_post(
            pre2,
            post2,
            conn2,
            group_id,
            session_id,
            crate::session::SessionKind::Keygen,
            party2,
            r2,
        ),
        notify_threshold_post(post1, conn1, group_id, session_id, kind, false, n1),
        notify_threshold_post(post2, conn2, group_id, session_id, kind, false, n2),
        session_count(post1, group_id@, session_id@) <= session_count(pre2, group_id@, session_id@),
        post1.groups@[group_index(post1.groups@, group_id@)].params == post2.groups@[group_index(
            post2.groups@,
            group_id@,
        )].params,
    ensures
        !(n1 is Session && n2 is Session),
{
    lemma_load_count_step(pre1, post1, conn1, party1, r1->Ok_0, group_id, session_id);
    lemma_load_count_step(pre2, post2, conn2, party2, r2->Ok_0, group_id, session_id);
    if n1 is Session && n2 is Session {
        assert(session_count(post1, group_id@, session_id@) == required_entries(
            kind,
            post1.groups@[group_index(post1.groups@, group_id@)].params,
        ));
        assert(session_count(post2, group_id@, session_id@) == required_entries(
            kind,
            post2.groups@[group_index(post2.groups@, group_id@)].params,
        ));
        assert(session_count(post2, group_id@, session_id@) > session_count(
            post1,
            group_id@,
            session_id@,
        ));
    }
}

/// A successful load moves the session's party count up by one, and
/// the notify pass sees exactly that count.
proof fn lemma_load_count_step(
    pre: State,
    post: State,
    conn: usize,
    party_number: u16,
    reply: Reply,
    group_id: String,
    session_id: String,
)
    requires
        pre.wf(),
        session_load_post(
            pre,
            post,
            conn,
            group_id,
            session_id,
            crate::session::SessionKind::Keygen,
            party_number,
            Ok(reply),
        ),
    ensures
        session_count(post, group_id@, session_id@) == session_count(pre, group_id@, session_id@)
            + 1,
        session_count(post, group_id@, session_id@) == ({
            let g = post.groups@[group_index(post.groups@, group_id@)];
            g.sessions@[g.session_index(session_id@)].party_signups@.len()
        }),
{
    let i = group_index(pre.groups@, group_id@);
    let g0 = pre.groups@[i];
    let j = g0.session_index(session_id@);
    assert(reply is PartyNumber);
    lemma_index_stable(pre, post, i, j, group_id@, session_id@);
}

/// The mixed form: a signup and a load on the same session cannot
/// both fire the threshold event either, whichever event name each
/// would carry.  The count argument is the same: both calls grow the
/// count by one and the later call ends strictly higher.
pub proof fn lemma_threshold_event_once_mixed(
    pre1: State,
    post1: State,
    conn1: usize,
    r1: Result<Reply, ServiceError>,
    n1: Notification,
    pre2: State,
    post2: State,
    conn2: usize,
    party2: u16,
    r2: Result<Reply, ServiceError>,
    n2: Notification,
    group_id: String,
    session_id: String,
    kind1: crate::session::SessionKind,
    kind2: crate::session::SessionKind,
)
    requires
        pre1.wf(),
        pre2.wf(),
        r1 is Ok,
        r2 is Ok,
        session_signup_post(pre1, post1, conn1, group_id, session_id, r1),
        session_load_post(
            pre2,
            post2,
            conn2,
            group_id,
            session_id,
            crate::session::SessionKind::Keygen,
            party2,
            r2,
        ),
        notify_threshold_post(post1, conn1, group_id, session_id, kind1, true, n1),
        notify_threshold_post(post2, conn2, group_id, session_id, kind2, false, n2),
        session_count(post1, group_id@, session_id@) <= session_count(pre2, group_id@, session_id@),
        required_entries(kind1, post1.groups@[group_index(post1.groups@, group_id@)].params)
            == required_entries(
            kind2,
            post2.groups@[group_index(post2.groups@, group_id@)].params,
        ),
    ensures
        !(n1 is Session && n2 is Session),
{
    lemma_signup_count_step(pre1, post1, conn1, r1->Ok_0, group_id, session_id);
    lemma_load_count_step(pre2, post2, conn2, party2, r2->Ok_0, group_id, session_id);
    if n1 is Session && n2 is Session {
        assert(session_count(post1, group_id@, session_id@) == required_entries(
            kind1,
            post1.groups@[group_index(post1.groups@, group_id@)].params,
        ));
        assert(session_count(post2, group_id@, session_id@) == required_entries(
            kind2,
            post2.groups@[group_index(post2.groups@, group_id@)].params,
        ));
        assert(session_count(post2, group_id@, session_id@) > session_count(
            post1,
            group_id@,
            session_id@,
        ));
    }
}

/// Once a session is closed, every signed-up party number has already
/// reported completion: a later finish can only repeat a number, never
/// add one.  Together with the next lemma this makes the closed event
/// fire exactly on the finish that completes the set, in any run where
/// no party reports completion twice.
pub proof fn lemma_no_fresh_finish_after_close(s: Session, party_number: u16)
    requires
        s.wf(),
        s.closed(),
        s.number_set().contains(party_number),
    ensures
        s.finished@.contains(party_number),
{
    assert(s.finished_set().contains(party_number));
}

/// A finish that adds a new party number closes the session exactly
/// when that number was the last one missing, and the session cannot
/// already have been closed before it.
pub proof fn lemma_closed_event_on_completion(s0: Session, s1: Session, party_number: u16)
    requires
        s0.wf(),
        s1.wf(),
        s1.party_signups == s0.party_signups,
        s1.finished@.to_set() == s0.finished@.to_set().insert(party_number),
        !s0.finished@.contains(party_number),
        s0.number_set().contains(party_number),
    ensures
        !s0.closed(),
        s1.closed() <==> s0.number_set() =~= s0.finished_set().insert(party_number),
{
    assert(!s0.finished_set().contains(party_number)) by {
        if s0.finished_set().contains(party_number) {
            let k = choose|k: int|
                0 <= k < s0.finished@.len() && s0.finished@[k] == party_number;
        }
    }
    assert(s1.number_set() == s0.number_set());
}

/// The whole-pipeline form of the closed-event law: a finish that
/// records a number nobody had reported yet fires the closed event
/// exactly when it completes the set, and the session cannot have been
/// closed before it.
pub proof fn lemma_closed_event_fires_on_completion(
    pre: State,
    post: State,
    conn: usize,
    group_id: String,
    session_id: String,
    party_number: u16,
    r: Result<Reply, ServiceError>,
    n: Notification,
)
    requires
        pre.wf(),
        post.wf(),
        r is Ok,
        session_finish_post(pre, post, conn, group_id, session_id, party_number, r),
        notify_session_finish_post(post, conn, group_id, session_id, n),
        // the party had not reported completion before this call
        !pre.groups@[group_index(pre.groups@, group_id@)].sessions@[pre.groups@[group_index(
            pre.groups@,
            group_id@,
        )].session_index(session_id@)].finished@.contains(party_number),
    ensures
        ({
            let i = group_index(pre.groups@, group_id@);
            let j = pre.groups@[i].session_index(session_id@);
            let s0 = pre.groups@[i].sessions@[j];
            let s1 = post.groups@[i].sessions@[j];
            &&& !s0.closed()
            &&& (n is Session <==> s1.closed())
        }),
{
    let i = group_index(pre.groups@, group_id@);
    let g0 = pre.groups@[i];
    let j = g0.session_index(session_id@);
    let s0 = g0.sessions@[j];
    let s1 = post.groups@[i].sessions@[j];
    let reply = r->Ok_0;
    assert(reply is Ack);
    lemma_index_stable(pre, post, i, j, group_id@, session_id@);
    assert(s0.wf()) by {
        assert(g0.wf());
    }
    assert(s1.wf()) by {
        assert(post.groups@[i].wf());
    }
    crate::session::lemma_signup_conn_some(s0.party_signups@, party_number);
    lemma_closed_event_on_completion(s0, s1, party_number);
    // The notify pass looks the session up in the post state, where
    // group and session sit at the same indices.
    assert(member_group(post, group_id@, conn)) by {
        assert(pre.groups@[i].clients@.contains(conn));
        assert(post.groups@[i].clients == pre.groups@[i].clients);
    }
    if s1.closed() {
        assert(n is Session);
    } else {
        assert(n is Noop);
    }
}

/// Joining a group is idempotent: a second join from the same
/// connection leaves the clients exactly as the first join left them.
pub proof fn lemma_join_idempotent(g0: Group, g1: Group, g2: Group, conn: usize)
    requires
        joined_group(g0, g1, conn),
        joined_group(g1, g2, conn),
    ensures
        g2.clients@ == g1.clients@,
{
    if !g0.clients@.contains(conn) {
        assert(g1.clients@ == g0.clients@.push(conn));
        assert(g1.clients@[g1.clients@.len() - 1] == conn);
        assert(g1.clients@.contains(conn));
    }
}

/// The whole-state form of join idempotence: two successful joins of
/// the same group by the same connection give the second join nothing
/// to change.
pub proof fn lemma_group_join_idempotent(
    pre: State,
    mid: State,
    post: State,
    conn: usize,
    group_id: String,
    r1: Result<Reply, ServiceError>,
    r2: Result<Reply, ServiceError>,
)
    requires
        pre.wf(),
        mid.wf(),
        r1 is Ok,
        r2 is Ok,
        group_join_post(pre, mid, conn, group_id, r1),
        group_join_post(mid, post, conn, group_id, r2),
    ensures
        post.groups@[group_index(mid.groups@, group_id@)].clients@ == mid.groups@[group_index(
            mid.groups@,
            group_id@,
        )].clients@,
{
    let reply1 = r1->Ok_0;
    let reply2 = r2->Ok_0;
    assert(reply1 is GroupInfo);
    assert(reply2 is GroupInfo);
    let i = group_index(pre.groups@, group_id@);
    assert(mid.groups@ == pre.groups@.update(i, mid.groups@[i]));
    assert(mid.groups@[i].uuid@ == group_id@);
    let i2 = group_index(mid.groups@, group_id@);
    assert(group_ids(mid.groups@)[i2] == group_id@);
    assert(group_ids(mid.groups@)[i] == group_id@);
    assert(group_ids(mid.groups@) =~= group_ids(pre.groups@));
    assert(i2 == i);
    lemma_join_idempotent(pre.groups@[i], mid.groups@[i], post.groups@[i], conn);
    assert(joined_group(pre.groups@[i], mid.groups@[i], conn));
    if !pre.groups@[i].clients@.contains(conn) {
        assert(mid.groups@[i].clients@ == pre.groups@[i].clients@.push(conn));
        assert(mid.groups@[i].clients@[mid.groups@[i].clients@.len() - 1] == conn);
        assert(mid.groups@[i].clients@.contains(conn));
    }
    assert(post.groups@[i].clients@ == mid.groups@[i].clients@);
}

/// Every element a filter keeps comes from the original sequence.
proof fn lemma_filter_element_of<A>(s: Seq<A>, pred: spec_fn(A) -> bool, i: int)
    requires
        0 <= i < s.filter(pred).len(),
    ensures
        s.contains(s.filter(pred)[i]),
    decreases s.len(),
{
    reveal(Seq::filter);
    if s.len() > 0 {
        let sub = s.drop_last().filter(pred);
        if i < sub.len() {
            lemma_filter_element_of(s.drop_last(), pred, i);
            let j = choose|j: int| 0 <= j < s.len() - 1 && s.drop_last()[j] == sub[i];
            assert(s[j] == s.filter(pred)[i]);
        } else {
            assert(s.filter(pred)[i] == s.last());
        }
    }
}

/// Disconnecting the last client of a group deletes the group: after
/// the teardown no group with its identifier remains.
pub proof fn lemma_last_client_deletes_group(
    pre: State,
    post: State,
    conn: usize,
    group_id: Seq<char>,
)
    requires
        pre.wf(),
        has_group(pre.groups@, group_id),
        pre.groups@[group_index(pre.groups@, group_id)].clients@ =~= seq![conn],
        // what the teardown ensures
        post.groups@.len() == surviving(pre.groups@, conn).len(),
        forall|i: int|
            0 <= i < post.groups@.len() ==> without_client(
                surviving(pre.groups@, conn)[i],
                #[trigger] post.groups@[i],
                conn,
            ),
    ensures
        !has_group(post.groups@, group_id),
{
    let idx = group_index(pre.groups@, group_id);
    let doomed = pre.groups@[idx];
    assert(doomed.clients@.index_of_first(conn) == Some(0int)) by {
        doomed.clients@.index_of_first_ensures(conn);
        assert(doomed.clients@[0] == conn);
    }
    assert(doomed.clients@.remove_value(conn) =~= Seq::<usize>::empty());
    assert(!survives(doomed, conn));
    if has_group(post.groups@, group_id) {
        let k = choose|k: int| 0 <= k < post.groups@.len() && post.groups@[k].uuid@ == group_id;
        let kept = surviving(pre.groups@, conn)[k];
        assert(without_client(kept, post.groups@[k], conn));
        assert(kept.uuid@ == group_id);
        assert(survives(kept, conn)) by {
            pre.groups@.lemma_filter_pred(|g: Group| survives(g, conn), k);
        }
        lemma_filter_element_of(pre.groups@, |g: Group| survives(g, conn), k);
        let m = choose|m: int| 0 <= m < pre.groups@.len() && pre.groups@[m] == kept;
        assert(group_ids(pre.groups@)[m] == group_id);
        assert(group_ids(pre.groups@)[idx] == group_id);
        assert(m == idx);
        assert(kept == doomed);
    }
}

} // verus!
