//! Sessions: one coordinated round-sequence (key generation or signing)
//! within a group.

use vstd::prelude::*;

use crate::errors::ServiceError;
use crate::ids::new_uuid;
use crate::params::Parameters;

verus! {

/// Represents the type of session.
#[derive(Debug, Clone, Copy, PartialEq, Eq, Structural)]
pub enum SessionKind {
    /// Key generation session.
    Keygen,
    /// Signing session.
    Sign,
}

impl Default for SessionKind {
    /// Key generation is the default kind.
    fn default() -> (r: Self)
        ensures
            r == SessionKind::Keygen,
    {
        SessionKind::Keygen
    }
}

/// Session information for a single party.
#[derive(Debug, Clone)]
pub struct PartySignup {
    /// Unique index for the party.
    pub number: u16,
    /// Session identifier.
    pub uuid: String,
}

/// A message relayed between session parties.
///
/// The body is opaque to the server: it is carried as the raw text the
/// client supplied and never inspected.
#[derive(Debug, Clone)]
pub struct Message {
    /// Protocol round the message belongs to.
    pub round: u16,
    /// Party number of the sender.
    pub sender: u16,
    /// Party number (or, for signing, party index) of the receiver;
    /// absent for a broadcast.
    pub receiver: Option<u16>,
    /// Session identifier the message belongs to.
    pub uuid: String,
    /// Opaque round payload.
    pub body: String,
}

impl Message {
    /// Copy a message, field by field.
    pub fn duplicate(&self) -> (r: Message)
        ensures
            r == *self,
    {
        Message {
            round: self.round,
            sender: self.sender,
            receiver: self.receiver,
            uuid: self.uuid.clone(),
            body: self.body.clone(),
        }
    }
}

/// The sequence of party numbers in a list of signups.
pub open spec fn numbers_of(s: Seq<(u16, usize)>) -> Seq<u16> {
    s.map_values(|e: (u16, usize)| e.0)
}

/// The sequence of connection identifiers in a list of signups.
pub open spec fn conns_of(s: Seq<(u16, usize)>) -> Seq<usize> {
    s.map_values(|e: (u16, usize)| e.1)
}

/// The largest party number among the signups, or zero when there are none.
pub open spec fn max_number(s: Seq<(u16, usize)>) -> int
    decreases s.len(),
{
    if s.len() == 0 {
        0
    } else {
        let rest = max_number(s.drop_last());
        if s.last().0 > rest {
            s.last().0 as int
        } else {
            rest
        }
    }
}

/// Every party number in the signups is bounded by their maximum.
pub proof fn lemma_max_number_bounds(s: Seq<(u16, usize)>)
    ensures
        forall|i: int| 0 <= i < s.len() ==> #[trigger] s[i].0 <= max_number(s),
        max_number(s) >= 0,
    decreases s.len(),
{
    if s.len() > 0 {
        lemma_max_number_bounds(s.drop_last());
        assert(forall|i: int| 0 <= i < s.len() - 1 ==> s.drop_last()[i] == s[i]);
    }
}

/// The connection identifier recorded for a party number: the first
/// signup entry carrying that number, if any.
pub open spec fn signup_conn(s: Seq<(u16, usize)>, number: u16) -> Option<usize>
    decreases s.len(),
{
    if s.len() == 0 {
        None
    } else if s.first().0 == number {
        Some(s.first().1)
    } else {
        signup_conn(s.drop_first(), number)
    }
}

/// A lookup succeeds exactly on the numbers present in the signups.
pub proof fn lemma_signup_conn_some(s: Seq<(u16, usize)>, number: u16)
    ensures
        signup_conn(s, number) is Some <==> numbers_of(s).contains(number),
        signup_conn(s, number) matches Some(c) ==> s.contains((number, c)),
    decreases s.len(),
{
    if s.len() > 0 {
        lemma_signup_conn_some(s.drop_first(), number);
        if s.first().0 == number {
            assert(numbers_of(s)[0] == number);
            assert(numbers_of(s).contains(number));
            assert(s[0] == (number, s.first().1));
            assert(s.contains((number, s.first().1)));
        } else {
            if numbers_of(s).contains(number) {
                let i = choose|i: int| 0 <= i < s.len() && numbers_of(s)[i] == number;
                assert(numbers_of(s.drop_first())[i - 1] == number);
                assert(numbers_of(s.drop_first()).contains(number));
            }
            if numbers_of(s.drop_first()).contains(number) {
                let i = choose|i: int|
                    0 <= i < s.len() - 1 && numbers_of(s.drop_first())[i] == number;
                assert(numbers_of(s)[i + 1] == number);
                assert(numbers_of(s).contains(number));
            }
            match signup_conn(s.drop_first(), number) {
                Some(c) => {
                    assert(s.drop_first().contains((number, c)));
                    let i = choose|i: int|
                        0 <= i < s.len() - 1 && s.drop_first()[i] == (number, c);
                    assert(s[i + 1] == (number, c));
                    assert(s.contains((number, c)));
                },
                None => {},
            }
        }
    }
}

/// The party number registered for a party index, if any: the first
/// participant entry carrying that index.
pub open spec fn participant_number(s: Seq<(u16, u16)>, index: u16) -> Option<u16>
    decreases s.len(),
{
    if s.len() == 0 {
        None
    } else if s.first().0 == index {
        Some(s.first().1)
    } else {
        participant_number(s.drop_first(), index)
    }
}

/// The party numbers read one up to the count: `1, 2, ..., len`.
pub open spec fn contiguous(nums: Seq<u16>) -> bool {
    forall|i: int| 0 <= i < nums.len() ==> nums[i] == i + 1
}

/// A strictly increasing sequence: sorted with no duplicates.
pub open spec fn strictly_sorted(s: Seq<u16>) -> bool {
    forall|i: int, j: int| 0 <= i < j < s.len() ==> s[i] < s[j]
}

/// Session used for key generation or signing communication.
#[derive(Debug, Clone)]
pub struct Session {
    /// Unique identifier for the session.
    pub uuid: String,
    /// Kind of the session.
    pub kind: SessionKind,
    /// Optional opaque payload fixed at creation, for example the
    /// message a signing session is expected to sign.
    pub value: Option<String>,
    /// Party numbers mapped to connection identifiers, in signup order.
    pub party_signups: Vec<(u16, usize)>,
    /// For signing sessions: party indices mapped to the server-issued
    /// party numbers, used to resolve peer to peer receivers.
    pub participants: Vec<(u16, u16)>,
    /// Party numbers that have marked the session as finished,
    /// kept in increasing order.
    pub finished: Vec<u16>,
}

impl Session {
    /// The party numbers signed up to this session, in signup order.
    pub open spec fn numbers(self) -> Seq<u16> {
        numbers_of(self.party_signups@)
    }

    /// The connection identifiers signed up to this session, in signup order.
    pub open spec fn conns(self) -> Seq<usize> {
        conns_of(self.party_signups@)
    }

    /// The set of party numbers signed up to this session.
    pub open spec fn number_set(self) -> Set<u16> {
        self.numbers().to_set()
    }

    /// The set of party numbers that have reported completion.
    pub open spec fn finished_set(self) -> Set<u16> {
        self.finished@.to_set()
    }

    /// Internal consistency of a session: party numbers are distinct
    /// and at least one, the finished list is strictly increasing and
    /// mentions only signed-up numbers, and participant indices are
    /// registered at most once.
    pub open spec fn wf(self) -> bool {
        &&& self.numbers().no_duplicates()
        &&& forall|i: int|
            0 <= i < self.party_signups@.len() ==> #[trigger] self.party_signups@[i].0 >= 1
        &&& strictly_sorted(self.finished@)
        &&& forall|i: int|
            0 <= i < self.finished@.len() ==> self.number_set().contains(
                #[trigger] self.finished@[i],
            )
        &&& self.participants@.map_values(|e: (u16, u16)| e.0).no_duplicates()
    }

    /// Everything the session closes over is complete: every signed-up
    /// party number has reported completion.
    pub open spec fn closed(self) -> bool {
        self.finished_set() == self.number_set()
    }

    /// Create a new session with a fresh identifier.
    pub fn new(kind: SessionKind, value: Option<String>) -> (s: Session)
        ensures
            s.kind == kind,
            s.value == value,
            s.party_signups@ =~= Seq::<(u16, usize)>::empty(),
            s.participants@ =~= Seq::<(u16, u16)>::empty(),
            s.finished@ =~= Seq::<u16>::empty(),
            s.wf(),
            !s.closed() || s.number_set() =~= Set::<u16>::empty(),
    {
        let s = Session {
            uuid: new_uuid(),
            kind,
            value,
            party_signups: Vec::new(),
            participants: Vec::new(),
            finished: Vec::new(),
        };
        proof {
            assert(s.numbers() =~= Seq::<u16>::empty());
            assert(s.participants@.map_values(|e: (u16, u16)| e.0) =~= Seq::<u16>::empty());
        }
        s
    }

    /// Signup to a session.
    ///
    /// This marks a connected client as actively participating in this
    /// session and issues it a fresh party signup number: one greater
    /// than the largest number already present, or one for the first
    /// signup.
    pub fn signup(&mut self, conn: usize) -> (num: u16)
        requires
            max_number(old(self).party_signups@) < u16::MAX,
        ensures
            num == max_number(old(self).party_signups@) + 1,
            final(self).party_signups@ == old(self).party_signups@.push((num, conn)),
            final(self).uuid == old(self).uuid,
            final(self).kind == old(self).kind,
            final(self).value == old(self).value,
            final(self).participants == old(self).participants,
            final(self).finished == old(self).finished,
            old(self).wf() ==> final(self).wf(),
    {
        let ghost s0 = self.party_signups@;
        let mut max: u16 = 0;
        let mut i: usize = 0;
        while i < self.party_signups.len()
            invariant
                0 <= i <= self.party_signups@.len(),
                *self == *old(self),
                max == max_number(self.party_signups@.take(i as int)),
            decreases self.party_signups@.len() - i,
        {
            proof {
                assert(s0.take(i + 1).drop_last() =~= s0.take(i as int));
                assert(s0.take(i + 1).last() == s0[i as int]);
                lemma_max_number_bounds(s0.take(i + 1));
            }
            let entry = self.party_signups[i];
            if entry.0 > max {
                max = entry.0;
            }
            i += 1;
        }
        proof {
            assert(s0.take(s0.len() as int) =~= s0);
            lemma_max_number_bounds(s0);
        }
        let num = max + 1;
        self.party_signups.push((num, conn));
        proof {
            if old(self).wf() {
                let s1 = self.party_signups@;
                assert forall|i: int, j: int|
                    0 <= i < j < s1.len() implies numbers_of(s1)[i] != numbers_of(s1)[j] by {
                    assert(numbers_of(s1)[i] == s1[i].0);
                    assert(numbers_of(s1)[j] == s1[j].0);
                    if j == s1.len() - 1 {
                        assert(s1[i] == s0[i]);
                        assert(s1[j] == (num, conn));
                        assert(s0[i].0 <= max_number(s0));
                    } else {
                        assert(s1[i] == s0[i]);
                        assert(s1[j] == s0[j]);
                        assert(numbers_of(s0)[i] == s0[i].0);
                        assert(numbers_of(s0)[j] == s0[j].0);
                        assert(numbers_of(s0)[i] != numbers_of(s0)[j]);
                    }
                }
                assert forall|i: int|
                    0 <= i < self.finished@.len() implies self.number_set().contains(
                    #[trigger] self.finished@[i],
                ) by {
                    let n = self.finished@[i];
                    assert(old(self).number_set().contains(n));
                    let k = choose|k: int|
                        0 <= k < s0.len() && numbers_of(s0)[k] == n;
                    assert(numbers_of(s1)[k] == n);
                }
            }
        }
        num
    }

    /// True when a party number is already present among the signups.
    pub fn contains_number(&self, number: u16) -> (r: bool)
        ensures
            r == self.numbers().contains(number),
    {
        let n = self.party_signups.len();
        let mut i: usize = 0;
        while i < n
            invariant
                0 <= i <= n,
                n == self.party_signups@.len(),
                forall|j: int| 0 <= j < i ==> self.numbers()[j] != number,
            decreases n - i,
        {
            if self.party_signups[i].0 == number {
                proof {
                    assert(self.numbers()[i as int] == number);
                }
                return true;
            }
            i += 1;
        }
        proof {
            if self.numbers().contains(number) {
                let j = choose|j: int| 0 <= j < n && self.numbers()[j] == number;
                assert(self.numbers()[j] != number);
            }
        }
        false
    }

    /// Load an existing party signup number into this session.
    ///
    /// This is used when key shares saved from an earlier ceremony are
    /// loaded again for signing: the number must lie between one and the
    /// group's number of parties, and must still be free in this session.
    pub fn load(
        &mut self,
        parameters: &Parameters,
        conn: usize,
        party_number: u16,
    ) -> (r: Result<(), ServiceError>)
        ensures
            match r {
                Ok(()) => {
                    &&& 1 <= party_number <= parameters.parties
                    &&& !numbers_of(old(self).party_signups@).contains(party_number)
                    &&& final(self).party_signups@ == old(self).party_signups@.push(
                        (party_number, conn),
                    )
                },
                Err(e) => {
                    &&& *final(self) == *old(self)
                    &&& match e {
                        ServiceError::PartyNumberOutOfRange(n) => n == party_number
                            && (party_number == 0 || party_number > parameters.parties),
                        ServiceError::PartyNumberInUse(n) => n == party_number && 1
                            <= party_number <= parameters.parties && numbers_of(
                            old(self).party_signups@,
                        ).contains(party_number),
                        _ => false,
                    }
                },
            },
            final(self).uuid == old(self).uuid,
            final(self).kind == old(self).kind,
            final(self).value == old(self).value,
            final(self).participants == old(self).participants,
            final(self).finished == old(self).finished,
            old(self).wf() ==> final(self).wf(),
    {
        if party_number == 0 || party_number > parameters.parties {
            return Err(ServiceError::PartyNumberOutOfRange(party_number));
        }
        if self.contains_number(party_number) {
            return Err(ServiceError::PartyNumberInUse(party_number));
        }
        let ghost s0 = self.party_signups@;
        self.party_signups.push((party_number, conn));
        proof {
            if old(self).wf() {
                let s1 = self.party_signups@;
                assert forall|i: int, j: int|
                    0 <= i < j < s1.len() implies numbers_of(s1)[i] != numbers_of(s1)[j] by {
                    assert(numbers_of(s1)[i] == s1[i].0);
                    assert(numbers_of(s1)[j] == s1[j].0);
                    if j == s1.len() - 1 {
                        assert(s1[i] == s0[i]);
                        assert(s1[j] == (party_number, conn));
                        assert(numbers_of(s0)[i] == s0[i].0);
                        assert(numbers_of(s0).contains(numbers_of(s0)[i]));
                    } else {
                        assert(s1[i] == s0[i]);
                        assert(s1[j] == s0[j]);
                        assert(numbers_of(s0)[i] == s0[i].0);
                        assert(numbers_of(s0)[j] == s0[j].0);
                        assert(numbers_of(s0)[i] != numbers_of(s0)[j]);
                    }
                }
                assert forall|i: int|
                    0 <= i < self.finished@.len() implies self.number_set().contains(
                    #[trigger] self.finished@[i],
                ) by {
                    let n = self.finished@[i];
                    let k = choose|k: int|
                        0 <= k < s0.len() && numbers_of(s0)[k] == n;
                    assert(numbers_of(s1)[k] == n);
                }
            }
        }
        Ok(())
    }

    /// Record that a party has reported completion.
    ///
    /// Returns true when the number was not already recorded.  The
    /// finished list stays strictly increasing.
    pub fn finish(&mut self, party_number: u16) -> (fresh: bool)
        requires
            old(self).wf(),
            old(self).number_set().contains(party_number),
        ensures
            fresh == !old(self).finished@.contains(party_number),
            final(self).finished@.to_set() == old(self).finished@.to_set().insert(party_number),
            fresh ==> final(self).finished@.len() == old(self).finished@.len() + 1,
            !fresh ==> final(self).finished == old(self).finished,
            final(self).uuid == old(self).uuid,
            final(self).kind == old(self).kind,
            final(self).value == old(self).value,
            final(self).participants == old(self).participants,
            final(self).party_signups == old(self).party_signups,
            final(self).wf(),
    {
        let ghost f0 = self.finished@;
        let n = self.finished.len();
        let mut i: usize = 0;
        while i < n
            invariant
                0 <= i <= n,
                n == self.finished@.len(),
                *self == *old(self),
                forall|j: int| 0 <= j < i ==> self.finished@[j] < party_number,
            decreases n - i,
        {
            let cur = self.finished[i];
            if cur == party_number {
                proof {
                    assert(self.finished@.contains(party_number));
                    assert(f0.to_set() =~= f0.to_set().insert(party_number));
                }
                return false;
            }
            if cur > party_number {
                break;
            }
            i += 1;
        }
        proof {
            assert(!f0.contains(party_number)) by {
                if f0.contains(party_number) {
                    let j = choose|j: int| 0 <= j < f0.len() && f0[j] == party_number;
                    assert(i < n ==> j >= i && f0[i as int] > party_number);
                }
            }
        }
        self.finished.insert(i, party_number);
        proof {
            let f1 = self.finished@;
            assert(f1 =~= f0.take(i as int).push(party_number) + f0.skip(i as int));
            assert forall|p: int, q: int| 0 <= p < q < f1.len() implies f1[p] < f1[q] by {
                assert(i < f0.len() ==> f0[i as int] > party_number);
            }
            assert(f1.to_set() =~= f0.to_set().insert(party_number)) by {
                assert forall|x: u16| f1.to_set().contains(x) implies f0.to_set().insert(
                    party_number,
                ).contains(x) by {
                    let j = choose|j: int| 0 <= j < f1.len() && f1[j] == x;
                    if j < i {
                        assert(f0[j] == x);
                    } else if j > i {
                        assert(f0[j - 1] == x);
                    }
                }
                assert forall|x: u16| f0.to_set().insert(party_number).contains(x)
                    implies f1.to_set().contains(x) by {
                    if x == party_number {
                        assert(f1[i as int] == x);
                    } else {
                        let j = choose|j: int| 0 <= j < f0.len() && f0[j] == x;
                        if j < i {
                            assert(f1[j] == x);
                        } else {
                            assert(f1[j + 1] == x);
                        }
                    }
                }
            }
            assert forall|k: int|
                0 <= k < f1.len() implies self.number_set().contains(#[trigger] f1[k]) by {
                if k < i {
                    assert(f0[k] == f1[k]);
                } else if k > i {
                    assert(f0[k - 1] == f1[k]);
                }
            }
        }
        true
    }

    /// The party number a peer to peer receiver field designates: for a
    /// signing session the receiver is first mapped through the
    /// participants table when it is registered there.
    pub open spec fn mapped_receiver(self, receiver: u16) -> u16 {
        match self.kind {
            SessionKind::Keygen => receiver,
            SessionKind::Sign => match participant_number(self.participants@, receiver) {
                Some(n) => n,
                None => receiver,
            },
        }
    }

    /// Resolve the receiver of a peer to peer message to the party
    /// number and connection identifier it designates, if any.
    pub fn resolve(&self, receiver: u16) -> (r: Option<(u16, usize)>)
        ensures
            r == match signup_conn(self.party_signups@, self.mapped_receiver(receiver)) {
                Some(c) => Some((self.mapped_receiver(receiver), c)),
                None => None::<(u16, usize)>,
            },
    {
        let target = match self.kind {
            SessionKind::Keygen => receiver,
            SessionKind::Sign => {
                match self.lookup_participant(receiver) {
                    Some(n) => n,
                    None => receiver,
                }
            },
        };
        let n = self.party_signups.len();
        let mut i: usize = 0;
        proof {
            assert(self.party_signups@.skip(0) =~= self.party_signups@);
        }
        while i < n
            invariant
                0 <= i <= n,
                n == self.party_signups@.len(),
                signup_conn(self.party_signups@, target) == signup_conn(
                    self.party_signups@.skip(i as int),
                    target,
                ),
            decreases n - i,
        {
            let entry = self.party_signups[i];
            proof {
                assert(self.party_signups@.skip(i as int).first() == self.party_signups@[
                    i as int
                ]);
                assert(self.party_signups@.skip(i as int).drop_first() =~= self.party_signups@
                    .skip(i + 1));
            }
            if entry.0 == target {
                return Some((target, entry.1));
            }
            i += 1;
        }
        proof {
            assert(self.party_signups@.skip(n as int) =~= Seq::<(u16, usize)>::empty());
        }
        None
    }

    /// The connection identifier recorded for a party number, if any.
    pub fn lookup_signup(&self, number: u16) -> (r: Option<usize>)
        ensures
            r == signup_conn(self.party_signups@, number),
    {
        let n = self.party_signups.len();
        let mut i: usize = 0;
        proof {
            assert(self.party_signups@.skip(0) =~= self.party_signups@);
        }
        while i < n
            invariant
                0 <= i <= n,
                n == self.party_signups@.len(),
                signup_conn(self.party_signups@, number) == signup_conn(
                    self.party_signups@.skip(i as int),
                    number,
                ),
            decreases n - i,
        {
            let entry = self.party_signups[i];
            proof {
                assert(self.party_signups@.skip(i as int).first() == self.party_signups@[
                    i as int
                ]);
                assert(self.party_signups@.skip(i as int).drop_first() =~= self.party_signups@
                    .skip(i + 1));
            }
            if entry.0 == number {
                return Some(entry.1);
            }
            i += 1;
        }
        proof {
            assert(self.party_signups@.skip(n as int) =~= Seq::<(u16, usize)>::empty());
        }
        None
    }

    /// The party number registered for a party index, if any.
    pub fn lookup_participant(&self, index: u16) -> (r: Option<u16>)
        ensures
            r == participant_number(self.participants@, index),
    {
        let n = self.participants.len();
        let mut i: usize = 0;
        proof {
            assert(self.participants@.skip(0) =~= self.participants@);
        }
        while i < n
            invariant
                0 <= i <= n,
                n == self.participants@.len(),
                participant_number(self.participants@, index) == participant_number(
                    self.participants@.skip(i as int),
                    index,
                ),
            decreases n - i,
        {
            let entry = self.participants[i];
            proof {
                assert(self.participants@.skip(i as int).first() == self.participants@[
                    i as int
                ]);
                assert(self.participants@.skip(i as int).drop_first() =~= self.participants@
                    .skip(i + 1));
            }
            if entry.0 == index {
                return Some(entry.1);
            }
            i += 1;
        }
        proof {
            assert(self.participants@.skip(n as int) =~= Seq::<(u16, u16)>::empty());
        }
        None
    }

    /// Register (or overwrite) the party number a party index maps to,
    /// used to resolve peer to peer receivers in signing sessions.
    pub fn set_participant(&mut self, index: u16, number: u16)
        requires
            old(self).wf(),
        ensures
            participant_number(final(self).participants@, index) == Some(number),
            forall|k: u16|
                k != index ==> #[trigger] participant_number(final(self).participants@, k)
                    == participant_number(old(self).participants@, k),
            final(self).uuid == old(self).uuid,
            final(self).kind == old(self).kind,
            final(self).value == old(self).value,
            final(self).party_signups == old(self).party_signups,
            final(self).finished == old(self).finished,
            final(self).wf(),
    {
        let ghost p0 = self.participants@;
        let n = self.participants.len();
        let mut i: usize = 0;
        while i < n
            invariant
                0 <= i <= n,
                n == self.participants@.len(),
                *self == *old(self),
                forall|j: int| 0 <= j < i ==> self.participants@[j].0 != index,
            decreases n - i,
        {
            let entry = self.participants[i];
            if entry.0 == index {
                self.participants.remove(i);
                self.participants.insert(i, (index, number));
                proof {
                    let p1 = self.participants@;
                    assert(p1 =~= p0.update(i as int, (index, number)));
                    lemma_update_key_preserves_lookup(p0, p1, i as int, index, number);
                    let keys0 = p0.map_values(|e: (u16, u16)| e.0);
                    let keys1 = p1.map_values(|e: (u16, u16)| e.0);
                    assert(keys1 =~= keys0);
                }
                return ;
            }
            i += 1;
        }
        self.participants.push((index, number));
        proof {
            let p1 = self.participants@;
            lemma_push_key_lookup(p0, index, number);
            let keys0 = p0.map_values(|e: (u16, u16)| e.0);
            let keys1 = p1.map_values(|e: (u16, u16)| e.0);
            assert(keys1 =~= keys0.push(index));
            assert forall|a: int, b: int|
                0 <= a < b < keys1.len() implies keys1[a] != keys1[b] by {
                if b == keys1.len() - 1 {
                    assert(p0[a].0 != index);
                }
            }
        }
    }
}

/// Updating the entry at an index whose key already matches leaves every
/// other key's lookup unchanged and points the matching key at the new value.
proof fn lemma_update_key_preserves_lookup(
    p0: Seq<(u16, u16)>,
    p1: Seq<(u16, u16)>,
    i: int,
    index: u16,
    number: u16,
)
    requires
        0 <= i < p0.len(),
        p0[i].0 == index,
        forall|j: int| 0 <= j < i ==> p0[j].0 != index,
        p1 == p0.update(i, (index, number)),
    ensures
        participant_number(p1, index) == Some(number),
        forall|k: u16|
            k != index ==> #[trigger] participant_number(p1, k) == participant_number(p0, k),
    decreases p0.len(),
{
    if i == 0 {
        assert(p1.first() == (index, number));
        assert forall|k: u16|
            k != index implies #[trigger] participant_number(p1, k) == participant_number(
            p0,
            k,
        ) by {
            assert(p1.drop_first() =~= p0.drop_first());
            assert(participant_number(p1, k) == participant_number(p1.drop_first(), k));
            assert(participant_number(p0, k) == participant_number(p0.drop_first(), k));
        }
    } else {
        assert(p1.first() == p0.first());
        assert(p1.drop_first() =~= p0.drop_first().update(i - 1, (index, number)));
        lemma_update_key_preserves_lookup(p0.drop_first(), p1.drop_first(), i - 1, index, number);
        assert(participant_number(p1, index) == participant_number(p1.drop_first(), index));
        assert forall|k: u16|
            k != index implies #[trigger] participant_number(p1, k) == participant_number(
            p0,
            k,
        ) by {
            if p0.first().0 == k {
                assert(participant_number(p1, k) == Some(p1.first().1));
                assert(participant_number(p0, k) == Some(p0.first().1));
            } else {
                assert(participant_number(p1, k) == participant_number(p1.drop_first(), k));
                assert(participant_number(p0, k) == participant_number(p0.drop_first(), k));
            }
        }
    }
}

/// Appending a fresh key points its lookup at the new value and leaves
/// every other key's lookup unchanged.
proof fn lemma_push_key_lookup(p0: Seq<(u16, u16)>, index: u16, number: u16)
    requires
        forall|j: int| 0 <= j < p0.len() ==> p0[j].0 != index,
    ensures
        participant_number(p0.push((index, number)), index) == Some(number),
        forall|k: u16|
            k != index ==> #[trigger] participant_number(p0.push((index, number)), k)
                == participant_number(p0, k),
    decreases p0.len(),
{
    let p1 = p0.push((index, number));
    if p0.len() == 0 {
        assert(p1.first() == (index, number));
        assert forall|k: u16|
            k != index implies #[trigger] participant_number(p1, k) == participant_number(
            p0,
            k,
        ) by {
            assert(p1.drop_first() =~= Seq::<(u16, u16)>::empty());
            assert(participant_number(p1, k) == participant_number(p1.drop_first(), k));
            assert(participant_number(p1.drop_first(), k) == None::<u16>);
            assert(participant_number(p0, k) == None::<u16>);
        }
    } else {
        assert(p1.first() == p0.first());
        assert(p1.drop_first() =~= p0.drop_first().push((index, number)));
        lemma_push_key_lookup(p0.drop_first(), index, number);
        assert(participant_number(p1, index) == participant_number(p1.drop_first(), index));
        assert forall|k: u16|
            k != index implies #[trigger] participant_number(p1, k) == participant_number(
            p0,
            k,
        ) by {
            if p0.first().0 == k {
                assert(participant_number(p1, k) == Some(p1.first().1));
                assert(participant_number(p0, k) == Some(p0.first().1));
            } else {
                assert(participant_number(p1, k) == participant_number(p1.drop_first(), k));
                assert(participant_number(p0, k) == participant_number(p0.drop_first(), k));
            }
        }
    }
}

/// A consistent session is closed exactly when as many parties have
/// finished as have signed up: both lists are free of duplicates and
/// the finished numbers all come from the signups.
pub proof fn lemma_closed_iff_len(s: Session)
    requires
        s.wf(),
    ensures
        (s.finished@.len() == s.party_signups@.len()) <==> s.closed(),
{
    let f = s.finished@;
    let nums = s.numbers();
    assert(f.no_duplicates());
    assert(nums.no_duplicates());
    f.unique_seq_to_set();
    nums.unique_seq_to_set();
    assert(nums.len() == s.party_signups@.len());
    assert(s.finished_set().subset_of(s.number_set())) by {
        assert forall|x: u16| s.finished_set().contains(x) implies s.number_set().contains(
            x,
        ) by {
            let i = choose|i: int| 0 <= i < f.len() && f[i] == x;
            assert(s.number_set().contains(f[i]));
        }
    }
    if f.len() == s.party_signups@.len() {
        vstd::set_lib::lemma_subset_equality(s.finished_set(), s.number_set());
        assert(s.closed());
    }
    if s.closed() {
        assert(s.finished_set().len() == s.number_set().len());
    }
}

} // verus!
