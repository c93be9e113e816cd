use vstd::prelude::*;

use crate::errors::{ServiceError, SqliteError};
use crate::requests::{CreateMessageRequest, GreenTickMessagesRequest, SwipeUserResponse};
use vstd::string::StrSliceExecFns;

verus! {

/// One directed decision: `swiper` accepted (`love`) or rejected `swiped`.
#[derive(Debug)]
pub struct SwipeDecision {
    pub swiper: String,
    pub swiped: String,
    pub love: bool,
}

/// A confirmed mutual match between `lover1` and `lover2`.
#[derive(Debug)]
pub struct Pairing {
    pub love_uuid: String,
    pub lover1: String,
    pub lover2: String,
    pub seen_by_lover1: bool,
    pub seen_by_lover2: bool,
    /// Creation time, in milliseconds since the Unix epoch.
    pub creation_datetime: i64,
}

/// A chat message posted in a pairing.
#[derive(Debug)]
pub struct Message {
    pub uuid: String,
    pub message: String,
    pub poster_uuid: String,
    pub love_uuid: String,
    pub seen: bool,
    /// Sending time, in milliseconds since the Unix epoch.
    pub creation_datetime: i64,
}

impl Clone for SwipeDecision {
    fn clone(&self) -> (r: Self)
        ensures
            r == *self,
    {
        SwipeDecision { swiper: self.swiper.clone(), swiped: self.swiped.clone(), love: self.love }
    }
}

impl Clone for Pairing {
    fn clone(&self) -> (r: Self)
        ensures
            r == *self,
    {
        Pairing {
            love_uuid: self.love_uuid.clone(),
            lover1: self.lover1.clone(),
            lover2: self.lover2.clone(),
            seen_by_lover1: self.seen_by_lover1,
            seen_by_lover2: self.seen_by_lover2,
            creation_datetime: self.creation_datetime,
        }
    }
}

impl Clone for Message {
    fn clone(&self) -> (r: Self)
        ensures
            r == *self,
    {
        Message {
            uuid: self.uuid.clone(),
            message: self.message.clone(),
            poster_uuid: self.poster_uuid.clone(),
            love_uuid: self.love_uuid.clone(),
            seen: self.seen,
            creation_datetime: self.creation_datetime,
        }
    }
}

/// Row `i` of `s` is a decision of `a` about `b`.
pub open spec fn swiped_at(s: Seq<SwipeDecision>, i: int, a: Seq<char>, b: Seq<char>) -> bool {
    0 <= i < s.len() && s[i].swiper@ == a && s[i].swiped@ == b
}

/// `a` has decided about `b`, in either verdict.
pub open spec fn has_swiped_in(s: Seq<SwipeDecision>, a: Seq<char>, b: Seq<char>) -> bool {
    exists|i: int| swiped_at(s, i, a, b)
}

/// `a` has accepted `b`.
pub open spec fn loves_in(s: Seq<SwipeDecision>, a: Seq<char>, b: Seq<char>) -> bool {
    exists|i: int| swiped_at(s, i, a, b) && s[i].love
}

/// The pairing `p` joins `a` and `b`, in either order.
pub open spec fn joins(p: Pairing, a: Seq<char>, b: Seq<char>) -> bool {
    (p.lover1@ == a && p.lover2@ == b) || (p.lover1@ == b && p.lover2@ == a)
}

/// `u` is one of the two members of `p`.
pub open spec fn member(p: Pairing, u: Seq<char>) -> bool {
    p.lover1@ == u || p.lover2@ == u
}

/// Some pairing of `l` joins `a` and `b`.
pub open spec fn paired_in(l: Seq<Pairing>, a: Seq<char>, b: Seq<char>) -> bool {
    exists|i: int| 0 <= i < l.len() && joins(l[i], a, b)
}

/// Some pairing of `l` has identifier `id`.
pub open spec fn pairing_id_in(l: Seq<Pairing>, id: Seq<char>) -> bool {
    exists|i: int| 0 <= i < l.len() && l[i].love_uuid@ == id
}

/// Pairing `id` of `l` exists and `u` is one of its members.
pub open spec fn in_pairing(l: Seq<Pairing>, id: Seq<char>, u: Seq<char>) -> bool {
    exists|i: int| 0 <= i < l.len() && l[i].love_uuid@ == id && member(l[i], u)
}

/// Some message of `m` has identifier `id`.
pub open spec fn message_id_in(m: Seq<Message>, id: Seq<char>) -> bool {
    exists|i: int| 0 <= i < m.len() && m[i].uuid@ == id
}

/// Decision rows: no self-swipe, at most one row per directed pair.
pub open spec fn ledger_wf(s: Seq<SwipeDecision>) -> bool {
    &&& forall|i: int| 0 <= i < s.len() ==> #[trigger] s[i].swiper@ != s[i].swiped@
    &&& forall|i: int, j: int|
        0 <= i < j < s.len() ==> !(#[trigger] s[i].swiper@ == #[trigger] s[j].swiper@ && s[i].swiped@
            == s[j].swiped@)
}

/// Pairings: two distinct members, one pairing per unordered pair, distinct
/// identifiers, and a pairing exists exactly for the mutually accepting pairs.
pub open spec fn pairings_wf(s: Seq<SwipeDecision>, l: Seq<Pairing>) -> bool {
    &&& forall|i: int| 0 <= i < l.len() ==> #[trigger] l[i].lover1@ != l[i].lover2@
    &&& forall|i: int|
        0 <= i < l.len() ==> loves_in(s, #[trigger] l[i].lover1@, l[i].lover2@) && loves_in(
            s,
            l[i].lover2@,
            l[i].lover1@,
        )
    &&& forall|a: Seq<char>, b: Seq<char>|
        #![trigger loves_in(s, a, b), loves_in(s, b, a)]
        loves_in(s, a, b) && loves_in(s, b, a) ==> paired_in(l, a, b)
    &&& forall|i: int, j: int|
        0 <= i < j < l.len() ==> !joins(#[trigger] l[j], #[trigger] l[i].lover1@, l[i].lover2@)
    &&& forall|i: int, j: int|
        0 <= i < j < l.len() ==> #[trigger] l[i].love_uuid@ != #[trigger] l[j].love_uuid@
}

/// Messages: each posted by a member of an existing pairing, identifiers distinct.
pub open spec fn messages_wf(l: Seq<Pairing>, m: Seq<Message>) -> bool {
    &&& forall|i: int|
        0 <= i < m.len() ==> in_pairing(l, #[trigger] m[i].love_uuid@, m[i].poster_uuid@)
    &&& forall|i: int, j: int|
        0 <= i < j < m.len() ==> #[trigger] m[i].uuid@ != #[trigger] m[j].uuid@
}

/// The row store of the service: the swipe ledger, the pairings and the messages.
pub struct Store {
    swipes: Vec<SwipeDecision>,
    lovers: Vec<Pairing>,
    messages: Vec<Message>,
}

impl Store {
    /// The swipe ledger, in insertion order.
    pub closed spec fn swipes(&self) -> Seq<SwipeDecision> {
        self.swipes@
    }

    /// The pairings, in creation order.
    pub closed spec fn lovers(&self) -> Seq<Pairing> {
        self.lovers@
    }

    /// The messages, in commit order.
    pub closed spec fn messages(&self) -> Seq<Message> {
        self.messages@
    }

    pub open spec fn wf(&self) -> bool {
        &&& ledger_wf(self.swipes())
        &&& pairings_wf(self.swipes(), self.lovers())
        &&& messages_wf(self.lovers(), self.messages())
    }

    pub open spec fn has_swiped(&self, a: Seq<char>, b: Seq<char>) -> bool {
        has_swiped_in(self.swipes(), a, b)
    }

    pub open spec fn loves(&self, a: Seq<char>, b: Seq<char>) -> bool {
        loves_in(self.swipes(), a, b)
    }

    pub open spec fn is_paired(&self, a: Seq<char>, b: Seq<char>) -> bool {
        paired_in(self.lovers(), a, b)
    }

    /// An empty store.
    pub fn new() -> (r: Store)
        ensures
            r.wf(),
            r.swipes().len() == 0,
            r.lovers().len() == 0,
            r.messages().len() == 0,
    {
        Store { swipes: Vec::new(), lovers: Vec::new(), messages: Vec::new() }
    }
}



/// The effect of `Store::swipe_user` (from `old` to `new`, with result `r`):
/// a refused swipe changes nothing; an accepted one appends the decision and,
/// when it completes a mutual acceptance, pairing `love_uuid` in the same step.
pub open spec fn swipe_post(
    old: Store,
    new: Store,
    swiper: String,
    swiped: String,
    love: bool,
    love_uuid: String,
    now: i64,
    r: Result<SwipeUserResponse, ServiceError>,
) -> bool {
    match old.swipe_refusal(swiper@, swiped@, love, love_uuid@) {
        Some(e) => r == Err::<SwipeUserResponse, ServiceError>(e) && new == old,
        None => {
            &&& new.swipes() == old.swipes().push(
                SwipeDecision { swiper, swiped, love },
            )
            &&& new.messages() == old.messages()
            &&& if old.completes_match(swiper@, swiped@, love) {
                &&& r == Ok::<SwipeUserResponse, ServiceError>(SwipeUserResponse::Matched)
                &&& new.lovers() == old.lovers().push(
                    Pairing {
                        love_uuid,
                        lover1: swiper,
                        lover2: swiped,
                        seen_by_lover1: false,
                        seen_by_lover2: false,
                        creation_datetime: now,
                    },
                )
            } else {
                &&& r == Ok::<SwipeUserResponse, ServiceError>(SwipeUserResponse::Recorded)
                &&& new.lovers() == old.lovers()
            }
        },
    }
}

/// What the ledger gains from one more decision row.
proof fn lemma_swipes_push(s: Seq<SwipeDecision>, d: SwipeDecision, a: Seq<char>, b: Seq<char>)
    ensures
        loves_in(s.push(d), a, b) <==> loves_in(s, a, b) || (d.swiper@ == a && d.swiped@ == b
            && d.love),
        has_swiped_in(s.push(d), a, b) <==> has_swiped_in(s, a, b) || (d.swiper@ == a && d.swiped@
            == b),
{
    let t = s.push(d);
    if loves_in(t, a, b) {
        let i = choose|i: int| swiped_at(t, i, a, b) && t[i].love;
        if i < s.len() {
            assert(swiped_at(s, i, a, b) && s[i].love);
        }
    }
    if loves_in(s, a, b) {
        let i = choose|i: int| swiped_at(s, i, a, b) && s[i].love;
        assert(swiped_at(t, i, a, b) && t[i].love);
    }
    if d.swiper@ == a && d.swiped@ == b {
        assert(swiped_at(t, s.len() as int, a, b));
    }
    if has_swiped_in(t, a, b) {
        let i = choose|i: int| swiped_at(t, i, a, b);
        if i < s.len() {
            assert(swiped_at(s, i, a, b));
        }
    }
    if has_swiped_in(s, a, b) {
        let i = choose|i: int| swiped_at(s, i, a, b);
        assert(swiped_at(t, i, a, b));
    }
}

/// Membership facts survive when pairings keep their identifiers and members.
proof fn lemma_pairings_extend(l: Seq<Pairing>, l2: Seq<Pairing>)
    requires
        l.len() <= l2.len(),
        forall|i: int|
            0 <= i < l.len() ==> (#[trigger] l2[i]).love_uuid@ == l[i].love_uuid@ && l2[i].lover1@
                == l[i].lover1@ && l2[i].lover2@ == l[i].lover2@,
    ensures
        forall|id: Seq<char>, u: Seq<char>| #[trigger]
            in_pairing(l, id, u) ==> in_pairing(l2, id, u),
        forall|a: Seq<char>, b: Seq<char>| #[trigger] paired_in(l, a, b) ==> paired_in(l2, a, b),
{
    assert forall|id: Seq<char>, u: Seq<char>| #[trigger] in_pairing(l, id, u) implies in_pairing(
        l2,
        id,
        u,
    ) by {
        let i = choose|i: int| 0 <= i < l.len() && l[i].love_uuid@ == id && member(l[i], u);
        assert(l2[i].love_uuid@ == id && member(l2[i], u));
    }
    assert forall|a: Seq<char>, b: Seq<char>| #[trigger] paired_in(l, a, b) implies paired_in(
        l2,
        a,
        b,
    ) by {
        let i = choose|i: int| 0 <= i < l.len() && joins(l[i], a, b);
        assert(joins(l2[i], a, b));
    }
}

impl Store {
    /// Index of the decision of `a` about `b`, if there is one.
    pub(crate) fn find_swipe(&self, a: &String, b: &String) -> (r: Option<usize>)
        ensures
            match r {
                Some(i) => swiped_at(self.swipes(), i as int, a@, b@),
                None => !self.has_swiped(a@, b@),
            },
    {
        let mut i: usize = 0;
        while i < self.swipes.len()
            invariant
                i <= self.swipes@.len(),
                forall|k: int| 0 <= k < i ==> !swiped_at(self.swipes@, k, a@, b@),
            decreases self.swipes@.len() - i,
        {
            if self.swipes[i].swiper == *a && self.swipes[i].swiped == *b {
                return Some(i);
            }
            i += 1;
        }
        None
    }

    /// Whether `a` has accepted `b`.
    fn find_love(&self, a: &String, b: &String) -> (r: bool)
        requires
            ledger_wf(self.swipes()),
        ensures
            r == self.loves(a@, b@),
    {
        match self.find_swipe(a, b) {
            Some(i) => {
                proof {
                    if self.loves(a@, b@) {
                        let j = choose|j: int| swiped_at(self.swipes(), j, a@, b@) && self.swipes()[j].love;
                        if j != i as int {
                            let (x, y) = if j < i { (j, i as int) } else { (i as int, j) };
                            assert(self.swipes@[x].swiper@ == self.swipes@[y].swiper@);
                        }
                    }
                }
                self.swipes[i].love
            },
            None => false,
        }
    }

    /// Index of pairing `id`, if it exists.
    fn find_pairing(&self, id: &String) -> (r: Option<usize>)
        ensures
            match r {
                Some(i) => i < self.lovers().len() && self.lovers()[i as int].love_uuid@ == id@,
                None => !pairing_id_in(self.lovers(), id@),
            },
    {
        let mut i: usize = 0;
        while i < self.lovers.len()
            invariant
                i <= self.lovers@.len(),
                forall|k: int| 0 <= k < i ==> self.lovers@[k].love_uuid@ != id@,
            decreases self.lovers@.len() - i,
        {
            if self.lovers[i].love_uuid == *id {
                return Some(i);
            }
            i += 1;
        }
        None
    }

    /// Number of accept rows between `lover1` and `lover2`, in both directions:
    /// 2 exactly when the two accept each other.
    pub fn check_mutual_love(&self, lover1: &String, lover2: &String) -> (r: usize)
        requires
            self.wf(),
        ensures
            r == (if self.loves(lover1@, lover2@) { 1usize } else { 0usize }) + (if self.loves(
                lover2@,
                lover1@,
            ) {
                1usize
            } else {
                0usize
            }),
    {
        let one: usize = if self.find_love(lover1, lover2) { 1 } else { 0 };
        let two: usize = if self.find_love(lover2, lover1) { 1 } else { 0 };
        one + two
    }

    /// Whether `swiper`'s decision about `swiped` completes a mutual acceptance.
    pub open spec fn completes_match(&self, swiper: Seq<char>, swiped: Seq<char>, love: bool) -> bool {
        love && self.loves(swiped, swiper)
    }

    /// The error that a swipe meets, if any.
    pub open spec fn swipe_refusal(
        &self,
        swiper: Seq<char>,
        swiped: Seq<char>,
        love: bool,
        love_uuid: Seq<char>,
    ) -> Option<ServiceError> {
        if swiper == swiped {
            Some(ServiceError::ForbiddenQuery)
        } else if self.has_swiped(swiper, swiped) {
            Some(ServiceError::Conflict)
        } else if self.completes_match(swiper, swiped, love) && pairing_id_in(
            self.lovers(),
            love_uuid,
        ) {
            Some(ServiceError::Sqlite(SqliteError::UnknownSqliteProblem))
        } else {
            None
        }
    }

    /// Records `swiper`'s decision about `swiped`. When it completes a mutual
    /// acceptance, pairing `love_uuid` is created in the same step, with
    /// `swiper` as `lover1`. A refused swipe changes nothing.
    pub fn swipe_user(
        &mut self,
        swiper: &String,
        swiped: &String,
        love: bool,
        love_uuid: String,
        now: i64,
    ) -> (r: Result<SwipeUserResponse, ServiceError>)
        requires
            old(self).wf(),
        ensures
            final(self).wf(),
            swipe_post(*old(self), *final(self), *swiper, *swiped, love, love_uuid, now, r),
    {
        if *swiper == *swiped {
            return Err(ServiceError::ForbiddenQuery);
        }
        if self.find_swipe(swiper, swiped).is_some() {
            return Err(ServiceError::Conflict);
        }
        let matched = love && self.find_love(swiped, swiper);
        if matched && self.find_pairing(&love_uuid).is_some() {
            return Err(ServiceError::Sqlite(SqliteError::UnknownSqliteProblem));
        }
        let ghost s0 = self.swipes@;
        let ghost l0 = self.lovers@;
        let d = SwipeDecision { swiper: swiper.clone(), swiped: swiped.clone(), love };
        self.swipes.push(d);
        let ghost s1 = self.swipes@;
        proof {
            let d = SwipeDecision { swiper: *swiper, swiped: *swiped, love };
            assert(s1 == s0.push(d));
            assert forall|i: int, j: int| 0 <= i < j < s1.len() implies !(#[trigger] s1[i].swiper@
                == #[trigger] s1[j].swiper@ && s1[i].swiped@ == s1[j].swiped@) by {
                if j == s0.len() {
                    if s1[i].swiper@ == s1[j].swiper@ && s1[i].swiped@ == s1[j].swiped@ {
                        assert(swiped_at(s0, i, swiper@, swiped@));
                    }
                }
            }
            assert forall|a: Seq<char>, b: Seq<char>| #[trigger]
                loves_in(s0, a, b) implies loves_in(s1, a, b) by {
                lemma_swipes_push(s0, d, a, b);
            }
        }
        if matched {
            let p = Pairing {
                love_uuid,
                lover1: swiper.clone(),
                lover2: swiped.clone(),
                seen_by_lover1: false,
                seen_by_lover2: false,
                creation_datetime: now,
            };
            self.lovers.push(p);
            proof {
                let d = SwipeDecision { swiper: *swiper, swiped: *swiped, love };
                let l1 = self.lovers@;
                let n = l0.len() as int;
                lemma_pairings_extend(l0, l1);
                assert(loves_in(s1, swiper@, swiped@)) by {
                    assert(swiped_at(s1, s0.len() as int, swiper@, swiped@));
                }
                assert forall|i: int| 0 <= i < l1.len() implies loves_in(
                    s1,
                    #[trigger] l1[i].lover1@,
                    l1[i].lover2@,
                ) && loves_in(s1, l1[i].lover2@, l1[i].lover1@) by {
                    if i < n {
                        assert(l1[i] == l0[i]);
                    }
                }
                assert forall|a: Seq<char>, b: Seq<char>|
                    #![trigger loves_in(s1, a, b), loves_in(s1, b, a)]
                    loves_in(s1, a, b) && loves_in(s1, b, a) implies paired_in(l1, a, b) by {
                    lemma_swipes_push(s0, d, a, b);
                    lemma_swipes_push(s0, d, b, a);
                    if loves_in(s0, a, b) && loves_in(s0, b, a) {
                        assert(paired_in(l0, a, b));
                    } else {
                        assert(joins(l1[n], a, b));
                    }
                }
                assert forall|i: int, j: int| 0 <= i < j < l1.len() implies !joins(
                    #[trigger] l1[j],
                    #[trigger] l1[i].lover1@,
                    l1[i].lover2@,
                ) by {
                    if j == n {
                        assert(l1[i] == l0[i]);
                        if joins(l1[j], l1[i].lover1@, l1[i].lover2@) {
                            assert(loves_in(s0, l0[i].lover1@, l0[i].lover2@));
                            assert(loves_in(s0, l0[i].lover2@, l0[i].lover1@));
                            let k = choose|k: int| swiped_at(s0, k, swiper@, swiped@) && s0[k].love;
                            assert(swiped_at(s0, k, swiper@, swiped@));
                        }
                    }
                }
                assert forall|i: int, j: int| 0 <= i < j < l1.len() implies #[trigger] l1[i].love_uuid@
                    != #[trigger] l1[j].love_uuid@ by {
                    if j == n {
                        assert(l1[i] == l0[i]);
                    }
                }
            }
            Ok(SwipeUserResponse::Matched)
        } else {
            proof {
                let d = SwipeDecision { swiper: *swiper, swiped: *swiped, love };
                assert forall|a: Seq<char>, b: Seq<char>|
                    #![trigger loves_in(s1, a, b), loves_in(s1, b, a)]
                    loves_in(s1, a, b) && loves_in(s1, b, a) implies paired_in(l0, a, b) by {
                    lemma_swipes_push(s0, d, a, b);
                    lemma_swipes_push(s0, d, b, a);
                }
            }
            Ok(SwipeUserResponse::Recorded)
        }
    }
}


/// `p` after `viewer` has acknowledged it: the viewer's own flag is set, the
/// other member's flag is kept.
pub open spec fn ticked(p: Pairing, viewer: Seq<char>) -> Pairing {
    Pairing {
        love_uuid: p.love_uuid,
        lover1: p.lover1,
        lover2: p.lover2,
        seen_by_lover1: p.seen_by_lover1 || p.lover1@ == viewer,
        seen_by_lover2: p.seen_by_lover2 || p.lover2@ == viewer,
        creation_datetime: p.creation_datetime,
    }
}

/// `m` after the messages that `poster` sent in pairing `love_uuid` were read.
pub open spec fn green_ticked(m: Message, love_uuid: Seq<char>, poster: Seq<char>) -> Message {
    Message {
        uuid: m.uuid,
        message: m.message,
        poster_uuid: m.poster_uuid,
        love_uuid: m.love_uuid,
        seen: m.seen || (m.love_uuid@ == love_uuid && m.poster_uuid@ == poster),
        creation_datetime: m.creation_datetime,
    }
}

impl Store {
    /// Index of message `id`, if it exists.
    fn find_message(&self, id: &String) -> (r: Option<usize>)
        ensures
            match r {
                Some(i) => i < self.messages().len() && self.messages()[i as int].uuid@ == id@,
                None => !message_id_in(self.messages(), id@),
            },
    {
        let mut i: usize = 0;
        while i < self.messages.len()
            invariant
                i <= self.messages@.len(),
                forall|k: int| 0 <= k < i ==> self.messages@[k].uuid@ != id@,
            decreases self.messages@.len() - i,
        {
            if self.messages[i].uuid == *id {
                return Some(i);
            }
            i += 1;
        }
        None
    }

    /// Succeeds exactly when pairing `love_uuid` exists and `user_uuid` is one
    /// of its members.
    pub fn user_in_love_relation(&self, user_uuid: &String, love_uuid: &String) -> (r: Result<
        (),
        SqliteError,
    >)
        requires
            self.wf(),
        ensures
            r is Ok <==> in_pairing(self.lovers(), love_uuid@, user_uuid@),
            r is Err ==> r == Err::<(), SqliteError>(SqliteError::NotFound),
    {
        match self.find_pairing(love_uuid) {
            Some(i) => {
                let p = &self.lovers[i];
                proof {
                    if in_pairing(self.lovers(), love_uuid@, user_uuid@) {
                        let j = choose|j: int|
                            0 <= j < self.lovers().len() && self.lovers()[j].love_uuid@ == love_uuid@
                                && member(self.lovers()[j], user_uuid@);
                        if j != i as int {
                            let (x, y) = if j < i { (j, i as int) } else { (i as int, j) };
                            assert(self.lovers@[x].love_uuid@ == self.lovers@[y].love_uuid@);
                        }
                    }
                }
                if p.lover1 == *user_uuid || p.lover2 == *user_uuid {
                    Ok(())
                } else {
                    Err(SqliteError::NotFound)
                }
            },
            None => Err(SqliteError::NotFound),
        }
    }

    /// Marks pairing `love_uuid` as seen by `viewer`, leaving the other
    /// member's flag as it was.
    pub fn tick_love(&mut self, love_uuid: &String, viewer: &String) -> (r: Result<(), ServiceError>)
        requires
            old(self).wf(),
        ensures
            final(self).wf(),
            !pairing_id_in(old(self).lovers(), love_uuid@) ==> r == Err::<(), ServiceError>(
                ServiceError::Sqlite(SqliteError::NotFound),
            ) && *final(self) == *old(self),
            pairing_id_in(old(self).lovers(), love_uuid@) && !in_pairing(
                old(self).lovers(),
                love_uuid@,
                viewer@,
            ) ==> r == Err::<(), ServiceError>(ServiceError::ForbiddenQuery) && *final(self) == *old(
                self,
            ),
            in_pairing(old(self).lovers(), love_uuid@, viewer@) ==> {
                &&& r == Ok::<(), ServiceError>(())
                &&& final(self).swipes() == old(self).swipes()
                &&& final(self).messages() == old(self).messages()
                &&& final(self).lovers().len() == old(self).lovers().len()
                &&& forall|k: int|
                    0 <= k < old(self).lovers().len() ==> #[trigger] final(self).lovers()[k] == if old(
                        self,
                    ).lovers()[k].love_uuid@ == love_uuid@ {
                        ticked(old(self).lovers()[k], viewer@)
                    } else {
                        old(self).lovers()[k]
                    }
            },
    {
        let i = match self.find_pairing(love_uuid) {
            Some(i) => i,
            None => {
                return Err(ServiceError::Sqlite(SqliteError::NotFound));
            },
        };
        let ghost l0 = self.lovers@;
        proof {
            assert forall|k: int| 0 <= k < l0.len() && k != i implies #[trigger] l0[k].love_uuid@
                != love_uuid@ by {
                let (x, y) = if k < i { (k, i as int) } else { (i as int, k) };
                assert(l0[x].love_uuid@ != l0[y].love_uuid@);
            }
        }
        let mut p = self.lovers[i].clone();
        if !(p.lover1 == *viewer || p.lover2 == *viewer) {
            proof {
                if in_pairing(l0, love_uuid@, viewer@) {
                    let j = choose|j: int|
                        0 <= j < l0.len() && l0[j].love_uuid@ == love_uuid@ && member(l0[j], viewer@);
                    assert(j == i);
                }
            }
            return Err(ServiceError::ForbiddenQuery);
        }
        if p.lover1 == *viewer {
            p.seen_by_lover1 = true;
        }
        if p.lover2 == *viewer {
            p.seen_by_lover2 = true;
        }
        self.lovers.set(i, p);
        proof {
            let l1 = self.lovers@;
            assert(l1[i as int] == ticked(l0[i as int], viewer@));
            lemma_pairings_extend(l0, l1);
            lemma_pairings_extend(l1, l0);
            assert(in_pairing(l0, love_uuid@, viewer@)) by {
                assert(member(l0[i as int], viewer@));
            }
            assert forall|a: Seq<char>, b: Seq<char>|
                #![trigger loves_in(self.swipes@, a, b), loves_in(self.swipes@, b, a)]
                loves_in(self.swipes@, a, b) && loves_in(self.swipes@, b, a) implies paired_in(
                l1,
                a,
                b,
            ) by {
                assert(paired_in(l0, a, b));
            }
            assert forall|x: int, y: int| 0 <= x < y < l1.len() implies !joins(
                #[trigger] l1[y],
                #[trigger] l1[x].lover1@,
                l1[x].lover2@,
            ) by {
                assert(!joins(l0[y], l0[x].lover1@, l0[x].lover2@));
            }
            assert forall|x: int, y: int| 0 <= x < y < l1.len() implies #[trigger] l1[x].love_uuid@
                != #[trigger] l1[y].love_uuid@ by {
                assert(l0[x].love_uuid@ != l0[y].love_uuid@);
            }
            assert forall|k: int| 0 <= k < l1.len() implies loves_in(
                self.swipes@,
                #[trigger] l1[k].lover1@,
                l1[k].lover2@,
            ) && loves_in(self.swipes@, l1[k].lover2@, l1[k].lover1@) by {
                assert(l1[k].lover1@ == l0[k].lover1@);
            }
            assert forall|k: int| 0 <= k < self.messages@.len() implies in_pairing(
                l1,
                #[trigger] self.messages@[k].love_uuid@,
                self.messages@[k].poster_uuid@,
            ) by {
                assert(in_pairing(l0, self.messages@[k].love_uuid@, self.messages@[k].poster_uuid@));
            }
        }
        Ok(())
    }

    /// Whether a message from `sender` would be stored under `message_uuid`.
    pub open spec fn message_accepted(
        &self,
        sender: Seq<char>,
        request: CreateMessageRequest,
        message_uuid: Seq<char>,
    ) -> bool {
        &&& sender == request.poster_uuid@
        &&& 1 <= request.message@.len() <= 1000
        &&& in_pairing(self.lovers(), request.love_uuid@, request.poster_uuid@)
        &&& !message_id_in(self.messages(), message_uuid)
    }

    /// Stores the message of `request` under `message_uuid`, unseen, after
    /// checking that `sender` is the poster, that the body holds 1 to 1000
    /// characters, and that the poster is a member of the pairing.
    pub fn create_message(
        &mut self,
        sender: &String,
        request: &CreateMessageRequest,
        message_uuid: String,
        now: i64,
    ) -> (r: Result<String, ServiceError>)
        requires
            old(self).wf(),
        ensures
            final(self).wf(),
            r is Err ==> *final(self) == *old(self),
            sender@ != request.poster_uuid@ ==> r == Err::<String, ServiceError>(
                ServiceError::ForbiddenQuery,
            ),
            sender@ == request.poster_uuid@ && request.message@.len() == 0 ==> (match r {
                Err(ServiceError::ValueNotAccepted(v, why)) => v@ == request.message@ && why@
                    == "Empty messages not accepted"@,
                _ => false,
            }),
            sender@ == request.poster_uuid@ && request.message@.len() > 1000 ==> (match r {
                Err(ServiceError::ValueNotAccepted(v, why)) => v@ == request.message@ && why@
                    == "Message content string is too long"@,
                _ => false,
            }),
            sender@ == request.poster_uuid@ && 1 <= request.message@.len() <= 1000 && !in_pairing(
                old(self).lovers(),
                request.love_uuid@,
                request.poster_uuid@,
            ) ==> r == Err::<String, ServiceError>(ServiceError::ForbiddenQuery),
            sender@ == request.poster_uuid@ && 1 <= request.message@.len() <= 1000 && in_pairing(
                old(self).lovers(),
                request.love_uuid@,
                request.poster_uuid@,
            ) && message_id_in(old(self).messages(), message_uuid@) ==> r == Err::<
                String,
                ServiceError,
            >(ServiceError::Sqlite(SqliteError::UnknownSqliteProblem)),
            old(self).message_accepted(sender@, *request, message_uuid@) ==> {
                &&& r == Ok::<String, ServiceError>(message_uuid)
                &&& final(self).swipes() == old(self).swipes()
                &&& final(self).lovers() == old(self).lovers()
                &&& final(self).messages() == old(self).messages().push(
                    Message {
                        uuid: message_uuid,
                        message: request.message,
                        poster_uuid: request.poster_uuid,
                        love_uuid: request.love_uuid,
                        seen: false,
                        creation_datetime: now,
                    },
                )
            },
    {
        if *sender != request.poster_uuid {
            return Err(ServiceError::ForbiddenQuery);
        }
        let chars = request.message.as_str().unicode_len();
        if chars == 0 {
            return Err(
                ServiceError::ValueNotAccepted(
                    request.message.clone(),
                    "Empty messages not accepted".to_string(),
                ),
            );
        }
        if chars > crate::MAX_MESSAGE_CHARS {
            return Err(
                ServiceError::ValueNotAccepted(
                    request.message.clone(),
                    "Message content string is too long".to_string(),
                ),
            );
        }
        if self.user_in_love_relation(&request.poster_uuid, &request.love_uuid).is_err() {
            return Err(ServiceError::ForbiddenQuery);
        }
        if self.find_message(&message_uuid).is_some() {
            return Err(ServiceError::Sqlite(SqliteError::UnknownSqliteProblem));
        }
        let ghost m0 = self.messages@;
        let m = Message {
            uuid: message_uuid.clone(),
            message: request.message.clone(),
            poster_uuid: request.poster_uuid.clone(),
            love_uuid: request.love_uuid.clone(),
            seen: false,
            creation_datetime: now,
        };
        self.messages.push(m);
        proof {
            let m1 = self.messages@;
            assert forall|k: int| 0 <= k < m1.len() implies in_pairing(
                self.lovers@,
                #[trigger] m1[k].love_uuid@,
                m1[k].poster_uuid@,
            ) by {
                if k < m0.len() {
                    assert(m1[k] == m0[k]);
                }
            }
            assert forall|x: int, y: int| 0 <= x < y < m1.len() implies #[trigger] m1[x].uuid@
                != #[trigger] m1[y].uuid@ by {
                if y < m0.len() {
                    assert(m0[x].uuid@ != m0[y].uuid@);
                } else {
                    assert(m1[x] == m0[x]);
                }
            }
        }
        Ok(message_uuid)
    }
}



/// One more row of `s` extends the filtered prefix by that row, when it passes.
pub(crate) proof fn lemma_take_filter<A>(s: Seq<A>, i: int, f: spec_fn(A) -> bool)
    requires
        0 <= i < s.len(),
    ensures
        s.take(i + 1).filter(f) == if f(s[i]) {
            s.take(i).filter(f).push(s[i])
        } else {
            s.take(i).filter(f)
        },
{
    reveal(Seq::filter);
    assert(s.take(i + 1).drop_last() =~= s.take(i));
    assert(s.take(i + 1).last() == s[i]);
}

impl Store {
    /// Marks as seen every message that `request.lover_ticked_uuid` posted in
    /// pairing `request.love_uuid`. The viewer must be a member of the pairing
    /// and the ticked identity the other member.
    pub fn green_tick_messages(&mut self, viewer: &String, request: &GreenTickMessagesRequest) -> (r:
        Result<(), ServiceError>)
        requires
            old(self).wf(),
        ensures
            final(self).wf(),
            r is Err ==> *final(self) == *old(self),
            !pairing_id_in(old(self).lovers(), request.love_uuid@) ==> r == Err::<(), ServiceError>(
                ServiceError::Sqlite(SqliteError::NotFound),
            ),
            pairing_id_in(old(self).lovers(), request.love_uuid@) && !(in_pairing(
                old(self).lovers(),
                request.love_uuid@,
                viewer@,
            ) && in_pairing(old(self).lovers(), request.love_uuid@, request.lover_ticked_uuid@)
                && viewer@ != request.lover_ticked_uuid@) ==> r == Err::<(), ServiceError>(
                ServiceError::ForbiddenQuery,
            ),
            in_pairing(old(self).lovers(), request.love_uuid@, viewer@) && in_pairing(
                old(self).lovers(),
                request.love_uuid@,
                request.lover_ticked_uuid@,
            ) && viewer@ != request.lover_ticked_uuid@ ==> {
                &&& r == Ok::<(), ServiceError>(())
                &&& final(self).swipes() == old(self).swipes()
                &&& final(self).lovers() == old(self).lovers()
                &&& final(self).messages().len() == old(self).messages().len()
                &&& forall|k: int|
                    0 <= k < old(self).messages().len() ==> #[trigger] final(self).messages()[k]
                        == green_ticked(
                        old(self).messages()[k],
                        request.love_uuid@,
                        request.lover_ticked_uuid@,
                    )
            },
    {
        let i = match self.find_pairing(&request.love_uuid) {
            Some(i) => i,
            None => {
                return Err(ServiceError::Sqlite(SqliteError::NotFound));
            },
        };
        let ghost l0 = self.lovers@;
        proof {
            assert forall|k: int| 0 <= k < l0.len() && k != i implies #[trigger] l0[k].love_uuid@
                != request.love_uuid@ by {
                let (x, y) = if k < i { (k, i as int) } else { (i as int, k) };
                assert(l0[x].love_uuid@ != l0[y].love_uuid@);
            }
            assert forall|u: Seq<char>| #[trigger]
                in_pairing(l0, request.love_uuid@, u) implies member(l0[i as int], u) by {
                let j = choose|j: int|
                    0 <= j < l0.len() && l0[j].love_uuid@ == request.love_uuid@ && member(l0[j], u);
                assert(j == i);
            }
        }
        let p = &self.lovers[i];
        let viewer_in = p.lover1 == *viewer || p.lover2 == *viewer;
        let ticked_in = p.lover1 == request.lover_ticked_uuid || p.lover2
            == request.lover_ticked_uuid;
        if !viewer_in || !ticked_in || *viewer == request.lover_ticked_uuid {
            return Err(ServiceError::ForbiddenQuery);
        }
        proof {
            assert(in_pairing(l0, request.love_uuid@, viewer@)) by {
                assert(member(l0[i as int], viewer@));
            }
            assert(in_pairing(l0, request.love_uuid@, request.lover_ticked_uuid@)) by {
                assert(member(l0[i as int], request.lover_ticked_uuid@));
            }
        }
        let ghost m0 = self.messages@;
        let ghost s0 = self.swipes@;
        let mut k: usize = 0;
        while k < self.messages.len()
            invariant
                self.lovers@ == l0,
                self.swipes@ == s0,
                self.messages@.len() == m0.len(),
                k <= m0.len(),
                forall|j: int|
                    0 <= j < k ==> #[trigger] self.messages@[j] == green_ticked(
                        m0[j],
                        request.love_uuid@,
                        request.lover_ticked_uuid@,
                    ),
                forall|j: int| k <= j < m0.len() ==> #[trigger] self.messages@[j] == m0[j],
            decreases m0.len() - k,
        {
            if self.messages[k].love_uuid == request.love_uuid && self.messages[k].poster_uuid
                == request.lover_ticked_uuid {
                let mut m = self.messages[k].clone();
                m.seen = true;
                self.messages.set(k, m);
            }
            k += 1;
        }
        proof {
            let m1 = self.messages@;
            assert forall|x: int| 0 <= x < m1.len() implies in_pairing(
                l0,
                #[trigger] m1[x].love_uuid@,
                m1[x].poster_uuid@,
            ) by {
                assert(m1[x].love_uuid@ == m0[x].love_uuid@);
            }
            assert forall|x: int, y: int| 0 <= x < y < m1.len() implies #[trigger] m1[x].uuid@
                != #[trigger] m1[y].uuid@ by {
                assert(m0[x].uuid@ != m0[y].uuid@);
            }
        }
        Ok(())
    }

    /// The pairings that `user_uuid` belongs to, in creation order.
    pub fn get_lovers(&self, user_uuid: &String) -> (r: Vec<Pairing>)
        ensures
            r@ == self.lovers().filter(|p: Pairing| member(p, user_uuid@)),
    {
        let ghost f = |p: Pairing| member(p, user_uuid@);
        let mut out: Vec<Pairing> = Vec::new();
        let mut i: usize = 0;
        while i < self.lovers.len()
            invariant
                forall|p: Pairing| #[trigger] f(p) == (member(p, user_uuid@)),
                i <= self.lovers@.len(),
                out@ == self.lovers@.take(i as int).filter(f),
            decreases self.lovers@.len() - i,
        {
            proof {
                lemma_take_filter(self.lovers@, i as int, f);
            }
            if self.lovers[i].lover1 == *user_uuid || self.lovers[i].lover2 == *user_uuid {
                out.push(self.lovers[i].clone());
            }
            i += 1;
        }
        assert(self.lovers@.take(i as int) =~= self.lovers@);
        out
    }

    /// The messages of pairing `love_uuid`, in commit order.
    pub fn get_love_messages(&self, love_uuid: &String) -> (r: Vec<Message>)
        ensures
            r@ == self.messages().filter(|m: Message| m.love_uuid@ == love_uuid@),
    {
        let ghost f = |m: Message| m.love_uuid@ == love_uuid@;
        let mut out: Vec<Message> = Vec::new();
        let mut i: usize = 0;
        while i < self.messages.len()
            invariant
                forall|m: Message| #[trigger] f(m) == (m.love_uuid@ == love_uuid@),
                i <= self.messages@.len(),
                out@ == self.messages@.take(i as int).filter(f),
            decreases self.messages@.len() - i,
        {
            proof {
                lemma_take_filter(self.messages@, i as int, f);
            }
            if self.messages[i].love_uuid == *love_uuid {
                out.push(self.messages[i].clone());
            }
            i += 1;
        }
        assert(self.messages@.take(i as int) =~= self.messages@);
        out
    }

    /// The messages of every pairing that `user_uuid` belongs to, in commit order.
    pub fn get_lover_messages(&self, user_uuid: &String) -> (r: Vec<Message>)
        requires
            self.wf(),
        ensures
            r@ == self.messages().filter(
                |m: Message| in_pairing(self.lovers(), m.love_uuid@, user_uuid@),
            ),
    {
        let ghost f = |m: Message| in_pairing(self.lovers(), m.love_uuid@, user_uuid@);
        let mut out: Vec<Message> = Vec::new();
        let mut i: usize = 0;
        while i < self.messages.len()
            invariant
                forall|m: Message| #[trigger] f(m) == (in_pairing(self.lovers(), m.love_uuid@, user_uuid@)),
                self.wf(),
                i <= self.messages@.len(),
                out@ == self.messages@.take(i as int).filter(f),
            decreases self.messages@.len() - i,
        {
            proof {
                lemma_take_filter(self.messages@, i as int, f);
            }
            if self.user_in_love_relation(user_uuid, &self.messages[i].love_uuid).is_ok() {
                out.push(self.messages[i].clone());
            }
            i += 1;
        }
        assert(self.messages@.take(i as int) =~= self.messages@);
        out
    }

    /// The two members of the pairing that message `message_uuid` belongs to.
    pub fn get_lovers_uuids_from_message_uuid(&self, message_uuid: &String) -> (r: Result<
        (String, String),
        SqliteError,
    >)
        requires
            self.wf(),
        ensures
            r is Ok <==> message_id_in(self.messages(), message_uuid@),
            r is Err ==> r == Err::<(String, String), SqliteError>(SqliteError::NotFound),
            match r {
                Ok((a, b)) => exists|i: int, j: int|
                    0 <= i < self.messages().len() && 0 <= j < self.lovers().len()
                        && #[trigger] self.messages()[i].uuid@ == message_uuid@
                        && #[trigger] self.lovers()[j].love_uuid@ == self.messages()[i].love_uuid@
                        && self.lovers()[j].lover1@ == a@ && self.lovers()[j].lover2@ == b@,
                Err(_) => true,
            },
    {
        let i = match self.find_message(message_uuid) {
            Some(i) => i,
            None => {
                return Err(SqliteError::NotFound);
            },
        };
        proof {
            assert(in_pairing(
                self.lovers@,
                self.messages@[i as int].love_uuid@,
                self.messages@[i as int].poster_uuid@,
            ));
        }
        match self.find_pairing(&self.messages[i].love_uuid) {
            Some(j) => Ok((self.lovers[j].lover1.clone(), self.lovers[j].lover2.clone())),
            None => Err(SqliteError::NotFound),
        }
    }

    /// Number of decisions with verdict `love` that others made about `user_uuid`.
    pub fn swiped_count(&self, user_uuid: &String, love: bool) -> (r: usize)
        ensures
            r == self.swipes().filter(|d: SwipeDecision| d.swiped@ == user_uuid@ && d.love == love).len(),
    {
        let ghost f = |d: SwipeDecision| d.swiped@ == user_uuid@ && d.love == love;
        let mut n: usize = 0;
        let mut i: usize = 0;
        while i < self.swipes.len()
            invariant
                forall|d: SwipeDecision| #[trigger] f(d) == (d.swiped@ == user_uuid@ && d.love == love),
                i <= self.swipes@.len(),
                n <= i,
                n == self.swipes@.take(i as int).filter(f).len(),
            decreases self.swipes@.len() - i,
        {
            proof {
                lemma_take_filter(self.swipes@, i as int, f);
            }
            if self.swipes[i].swiped == *user_uuid && self.swipes[i].love == love {
                n += 1;
            }
            i += 1;
        }
        assert(self.swipes@.take(i as int) =~= self.swipes@);
        n
    }

    /// Number of decisions with verdict `love` that `user_uuid` made.
    pub fn swiping_count(&self, user_uuid: &String, love: bool) -> (r: usize)
        ensures
            r == self.swipes().filter(|d: SwipeDecision| d.swiper@ == user_uuid@ && d.love == love).len(),
    {
        let ghost f = |d: SwipeDecision| d.swiper@ == user_uuid@ && d.love == love;
        let mut n: usize = 0;
        let mut i: usize = 0;
        while i < self.swipes.len()
            invariant
                forall|d: SwipeDecision| #[trigger] f(d) == (d.swiper@ == user_uuid@ && d.love == love),
                i <= self.swipes@.len(),
                n <= i,
                n == self.swipes@.take(i as int).filter(f).len(),
            decreases self.swipes@.len() - i,
        {
            proof {
                lemma_take_filter(self.swipes@, i as int, f);
            }
            if self.swipes[i].swiper == *user_uuid && self.swipes[i].love == love {
                n += 1;
            }
            i += 1;
        }
        assert(self.swipes@.take(i as int) =~= self.swipes@);
        n
    }

    /// Number of messages that `poster_uuid` sent in pairing `love_uuid` and
    /// that are not yet marked seen.
    pub fn unseen_messages_count(&self, love_uuid: &String, poster_uuid: &String) -> (r: usize)
        ensures
            r == self.messages().filter(
                |m: Message| m.love_uuid@ == love_uuid@ && m.poster_uuid@ == poster_uuid@ && !m.seen,
            ).len(),
    {
        let ghost f = |m: Message| m.love_uuid@ == love_uuid@ && m.poster_uuid@ == poster_uuid@ && !m.seen;
        let mut n: usize = 0;
        let mut i: usize = 0;
        while i < self.messages.len()
            invariant
                forall|m: Message| #[trigger] f(m) == (m.love_uuid@ == love_uuid@ && m.poster_uuid@ == poster_uuid@ && !m.seen),
                i <= self.messages@.len(),
                n <= i,
                n == self.messages@.take(i as int).filter(f).len(),
            decreases self.messages@.len() - i,
        {
            proof {
                lemma_take_filter(self.messages@, i as int, f);
            }
            if self.messages[i].love_uuid == *love_uuid && self.messages[i].poster_uuid
                == *poster_uuid && !self.messages[i].seen {
                n += 1;
            }
            i += 1;
        }
        assert(self.messages@.take(i as int) =~= self.messages@);
        n
    }
}


/// `x` comes before `y` in `s`.
pub open spec fn precedes<A>(s: Seq<A>, x: A, y: A) -> bool {
    exists|j1: int, j2: int| 0 <= j1 < j2 < s.len() && s[j1] == x && s[j2] == y
}

/// `new` holds exactly the rows of `old` that pass `keep`, in their order.
pub open spec fn kept_rows<A>(old: Seq<A>, new: Seq<A>, keep: spec_fn(A) -> bool) -> bool {
    &&& forall|k: int| 0 <= k < new.len() ==> keep(#[trigger] new[k])
    &&& forall|k: int| 0 <= k < new.len() ==> old.contains(#[trigger] new[k])
    &&& forall|j: int| 0 <= j < old.len() && keep(#[trigger] old[j]) ==> new.contains(old[j])
    &&& forall|k: int, l: int|
        0 <= k < l < new.len() ==> precedes(old, #[trigger] new[k], #[trigger] new[l])
}

/// Copies the rows of `v` that pass `keep`, in order, when `keep` is decided
/// by `test`.
fn retain_rows<A: Clone>(v: &Vec<A>, test: Vec<bool>, keep: Ghost<spec_fn(A) -> bool>) -> (r: Vec<A>)
    requires
        test@.len() == v@.len(),
        forall|j: int| 0 <= j < v@.len() ==> test@[j] == keep@(#[trigger] v@[j]),
        forall|a: A, b: A| #[trigger] call_ensures(A::clone, (&a,), b) ==> a == b,
    ensures
        kept_rows(v@, r@, keep@),
{
    let mut out: Vec<A> = Vec::new();
    let ghost src: Seq<int> = Seq::empty();
    let mut i: usize = 0;
    while i < v.len()
        invariant
            i <= v@.len(),
            test@.len() == v@.len(),
            forall|j: int| 0 <= j < v@.len() ==> test@[j] == keep@(#[trigger] v@[j]),
            forall|a: A, b: A| #[trigger] call_ensures(A::clone, (&a,), b) ==> a == b,
            src.len() == out@.len(),
            forall|k: int| 0 <= k < src.len() ==> 0 <= #[trigger] src[k] < i && out@[k] == v@[src[k]],
            forall|k: int, l: int| 0 <= k < l < src.len() ==> #[trigger] src[k] < #[trigger] src[l],
            forall|k: int| 0 <= k < out@.len() ==> keep@(#[trigger] out@[k]),
            forall|j: int|
                #![trigger v@[j]]
                0 <= j < i && keep@(v@[j]) ==> exists|k: int|
                    #![trigger out@[k]]
                    0 <= k < out@.len() && out@[k] == v@[j],
        decreases v@.len() - i,
    {
        let ghost out0 = out@;
        if test[i] {
            let row = v[i].clone();
            out.push(row);
            proof {
                src = src.push(i as int);
                let n = (out@.len() - 1) as int;
                assert(out@[n] == v@[i as int]);
                assert forall|j: int| #![trigger v@[j]] 0 <= j < i + 1 && keep@(v@[j]) implies exists|k: int|
                    #![trigger out@[k]]
                    0 <= k < out@.len() && out@[k] == v@[j] by {
                    if j == i {
                        assert(out@[n] == v@[j]);
                    } else {
                        let k = choose|k: int| #![trigger out0[k]] 0 <= k < out0.len() && out0[k] == v@[j];
                        assert(out@[k] == v@[j]);
                    }
                }
            }
        }
        i += 1;
    }
    proof {
        assert forall|k: int| 0 <= k < out@.len() implies v@.contains(#[trigger] out@[k]) by {
            assert(out@[k] == v@[src[k]]);
        }
        assert forall|k: int, l: int| 0 <= k < l < out@.len() implies precedes(
            v@,
            #[trigger] out@[k],
            #[trigger] out@[l],
        ) by {
            assert(src[k] < src[l]);
            assert(out@[k] == v@[src[k]] && out@[l] == v@[src[l]]);
        }
        assert forall|j: int| 0 <= j < v@.len() && keep@(#[trigger] v@[j]) implies out@.contains(v@[j]) by {
            let k = choose|k: int| #![trigger out@[k]] 0 <= k < out@.len() && out@[k] == v@[j];
            assert(out@[k] == v@[j]);
        }
    }
    out
}


/// A decision row that does not involve `u`.
pub open spec fn swipe_without(d: SwipeDecision, u: Seq<char>) -> bool {
    d.swiper@ != u && d.swiped@ != u
}

impl Store {
    /// Removes `user_uuid` from the store: its decisions in both directions,
    /// its pairings, and the messages of those pairings. Everything else stays,
    /// in order.
    pub fn delete_user_by_uuid(&mut self, user_uuid: &String)
        requires
            old(self).wf(),
        ensures
            final(self).wf(),
            kept_rows(old(self).swipes(), final(self).swipes(), |d: SwipeDecision| swipe_without(d, user_uuid@)),
            kept_rows(old(self).lovers(), final(self).lovers(), |p: Pairing| !member(p, user_uuid@)),
            kept_rows(
                old(self).messages(),
                final(self).messages(),
                |m: Message| !in_pairing(old(self).lovers(), m.love_uuid@, user_uuid@),
            ),
    {
        let ghost u = user_uuid@;
        let ghost s0 = self.swipes@;
        let ghost l0 = self.lovers@;
        let ghost m0 = self.messages@;
        let ghost ks = |d: SwipeDecision| swipe_without(d, u);
        let ghost kl = |p: Pairing| !member(p, u);
        let ghost km = |m: Message| !in_pairing(l0, m.love_uuid@, u);

        let mut tm: Vec<bool> = Vec::new();
        let mut i: usize = 0;
        while i < self.messages.len()
            invariant
                self.wf(),
                self.lovers@ == l0,
                self.messages@ == m0,
                i <= m0.len(),
                tm@.len() == i,
                u == user_uuid@,
                forall|x: Message| #[trigger] km(x) == !in_pairing(l0, x.love_uuid@, u),
                forall|j: int| 0 <= j < i ==> tm@[j] == km(#[trigger] m0[j]),
            decreases m0.len() - i,
        {
            let gone = self.user_in_love_relation(user_uuid, &self.messages[i].love_uuid).is_ok();
            tm.push(!gone);
            i += 1;
        }
        let mut tl: Vec<bool> = Vec::new();
        let mut i: usize = 0;
        while i < self.lovers.len()
            invariant
                self.lovers@ == l0,
                i <= l0.len(),
                tl@.len() == i,
                u == user_uuid@,
                forall|x: Pairing| #[trigger] kl(x) == !member(x, u),
                forall|j: int| 0 <= j < i ==> tl@[j] == kl(#[trigger] l0[j]),
            decreases l0.len() - i,
        {
            let p = &self.lovers[i];
            tl.push(!(p.lover1 == *user_uuid || p.lover2 == *user_uuid));
            i += 1;
        }
        let mut ts: Vec<bool> = Vec::new();
        let mut i: usize = 0;
        while i < self.swipes.len()
            invariant
                self.swipes@ == s0,
                i <= s0.len(),
                ts@.len() == i,
                u == user_uuid@,
                forall|x: SwipeDecision| #[trigger] ks(x) == swipe_without(x, u),
                forall|j: int| 0 <= j < i ==> ts@[j] == ks(#[trigger] s0[j]),
            decreases s0.len() - i,
        {
            let d = &self.swipes[i];
            ts.push(d.swiper != *user_uuid && d.swiped != *user_uuid);
            i += 1;
        }
        let m1 = retain_rows(&self.messages, tm, Ghost(km));
        let l1 = retain_rows(&self.lovers, tl, Ghost(kl));
        let s1 = retain_rows(&self.swipes, ts, Ghost(ks));
        self.messages = m1;
        self.lovers = l1;
        self.swipes = s1;
        proof {
            let s1 = self.swipes@;
            let l1 = self.lovers@;
            let m1 = self.messages@;
            // the ledger
            assert forall|k: int| 0 <= k < s1.len() implies #[trigger] s1[k].swiper@ != s1[k].swiped@ by {
                assert(s0.contains(s1[k]));
            }
            assert forall|k: int, l: int| 0 <= k < l < s1.len() implies !(#[trigger] s1[k].swiper@
                == #[trigger] s1[l].swiper@ && s1[k].swiped@ == s1[l].swiped@) by {
                assert(precedes(s0, s1[k], s1[l]));
            }
            // decisions between identities other than `u` survive
            assert forall|a: Seq<char>, b: Seq<char>| a != u && b != u && #[trigger] loves_in(s0, a, b)
                implies loves_in(s1, a, b) by {
                let r = choose|r: int| swiped_at(s0, r, a, b) && s0[r].love;
                assert(ks(s0[r]));
                assert(s1.contains(s0[r]));
                let k = choose|k: int| 0 <= k < s1.len() && s1[k] == s0[r];
                assert(swiped_at(s1, k, a, b) && s1[k].love);
            }
            assert forall|a: Seq<char>, b: Seq<char>| #[trigger] loves_in(s1, a, b) implies loves_in(
                s0,
                a,
                b,
            ) && a != u && b != u by {
                let k = choose|k: int| swiped_at(s1, k, a, b) && s1[k].love;
                assert(ks(s1[k]));
                assert(s0.contains(s1[k]));
                let r = choose|r: int| 0 <= r < s0.len() && s0[r] == s1[k];
                assert(swiped_at(s0, r, a, b) && s0[r].love);
            }
            // the pairings
            assert forall|k: int| 0 <= k < l1.len() implies #[trigger] l1[k].lover1@ != l1[k].lover2@ by {
                assert(l0.contains(l1[k]));
            }
            assert forall|k: int| 0 <= k < l1.len() implies loves_in(
                s1,
                #[trigger] l1[k].lover1@,
                l1[k].lover2@,
            ) && loves_in(s1, l1[k].lover2@, l1[k].lover1@) by {
                assert(l0.contains(l1[k]));
                assert(kl(l1[k]));
                let j = choose|j: int| 0 <= j < l0.len() && l0[j] == l1[k];
                assert(loves_in(s0, l0[j].lover1@, l0[j].lover2@));
                assert(loves_in(s0, l0[j].lover2@, l0[j].lover1@));
            }
            assert forall|a: Seq<char>, b: Seq<char>|
                #![trigger loves_in(s1, a, b), loves_in(s1, b, a)]
                loves_in(s1, a, b) && loves_in(s1, b, a) implies paired_in(l1, a, b) by {
                assert(loves_in(s0, a, b) && loves_in(s0, b, a));
                assert(paired_in(l0, a, b));
                let j = choose|j: int| 0 <= j < l0.len() && joins(l0[j], a, b);
                assert(kl(l0[j]));
                assert(l1.contains(l0[j]));
                let k = choose|k: int| 0 <= k < l1.len() && l1[k] == l0[j];
                assert(joins(l1[k], a, b));
            }
            assert forall|k: int, l: int| 0 <= k < l < l1.len() implies !joins(
                #[trigger] l1[l],
                #[trigger] l1[k].lover1@,
                l1[k].lover2@,
            ) by {
                assert(precedes(l0, l1[k], l1[l]));
            }
            assert forall|k: int, l: int| 0 <= k < l < l1.len() implies #[trigger] l1[k].love_uuid@
                != #[trigger] l1[l].love_uuid@ by {
                assert(precedes(l0, l1[k], l1[l]));
            }
            // the messages
            assert forall|k: int| 0 <= k < m1.len() implies in_pairing(
                l1,
                #[trigger] m1[k].love_uuid@,
                m1[k].poster_uuid@,
            ) by {
                assert(m0.contains(m1[k]));
                assert(km(m1[k]));
                let r = choose|r: int| 0 <= r < m0.len() && m0[r] == m1[k];
                assert(in_pairing(l0, m0[r].love_uuid@, m0[r].poster_uuid@));
                let j = choose|j: int|
                    0 <= j < l0.len() && l0[j].love_uuid@ == m1[k].love_uuid@ && member(
                        l0[j],
                        m1[k].poster_uuid@,
                    );
                if member(l0[j], u) {
                    assert(in_pairing(l0, m1[k].love_uuid@, u));
                }
                assert(kl(l0[j]));
                assert(l1.contains(l0[j]));
                let x = choose|x: int| 0 <= x < l1.len() && l1[x] == l0[j];
                assert(l1[x].love_uuid@ == m1[k].love_uuid@ && member(l1[x], m1[k].poster_uuid@));
            }
            assert forall|k: int, l: int| 0 <= k < l < m1.len() implies #[trigger] m1[k].uuid@
                != #[trigger] m1[l].uuid@ by {
                assert(precedes(m0, m1[k], m1[l]));
            }
        }
    }
}


impl Store {
    /// `candidate` when no pairing uses it yet; otherwise an identifier
    /// longer than every pairing identifier in use, hence unused.
    pub fn fresh_pairing_id(&self, candidate: String) -> (r: String)
        ensures
            !pairing_id_in(self.lovers(), r@),
            !pairing_id_in(self.lovers(), candidate@) ==> r == candidate,
    {
        if self.find_pairing(&candidate).is_none() {
            return candidate;
        }
        let mut longest = String::new();
        let mut i: usize = 0;
        while i < self.lovers.len()
            invariant
                i <= self.lovers@.len(),
                forall|k: int| 0 <= k < i ==> #[trigger] self.lovers@[k].love_uuid@.len() <= longest@.len(),
            decreases self.lovers@.len() - i,
        {
            if self.lovers[i].love_uuid.as_str().unicode_len() > longest.as_str().unicode_len() {
                longest = self.lovers[i].love_uuid.clone();
            }
            i += 1;
        }
        let ghost bound = longest@.len();
        proof {
            reveal_strlit("-");
        }
        longest.append("-");
        assert(longest@.len() == bound + 1);
        longest
    }

    /// `candidate` when no message uses it yet; otherwise an identifier
    /// longer than every message identifier in use, hence unused.
    pub fn fresh_message_id(&self, candidate: String) -> (r: String)
        ensures
            !message_id_in(self.messages(), r@),
            !message_id_in(self.messages(), candidate@) ==> r == candidate,
    {
        if self.find_message(&candidate).is_none() {
            return candidate;
        }
        let mut longest = String::new();
        let mut i: usize = 0;
        while i < self.messages.len()
            invariant
                i <= self.messages@.len(),
                forall|k: int| 0 <= k < i ==> #[trigger] self.messages@[k].uuid@.len() <= longest@.len(),
            decreases self.messages@.len() - i,
        {
            if self.messages[i].uuid.as_str().unicode_len() > longest.as_str().unicode_len() {
                longest = self.messages[i].uuid.clone();
            }
            i += 1;
        }
        let ghost bound = longest@.len();
        proof {
            reveal_strlit("-");
        }
        longest.append("-");
        assert(longest@.len() == bound + 1);
        longest
    }
}

} // verus!
