use vstd::prelude::*;

use crate::errors::ServiceError;
use crate::live::{after_publish, ChannelView, SseMessage};
use crate::requests::SwipeUserResponse;
use crate::matching::{best_candidate_at, PotentialLover, Seeker};
use crate::store::{green_ticked, joins, swipe_post, swiped_at, Message, Store};

verus! {

/// Two identities that accepted each other are joined by exactly one pairing,
/// and a pairing exists only between identities that accepted each other.
/// Every operation of the store keeps it well formed, so this holds after any
/// sequence of swipes, in either order.
pub proof fn lemma_mutual_acceptance_pairs_once(s: Store, a: Seq<char>, b: Seq<char>)
    requires
        s.wf(),
    ensures
        s.loves(a, b) && s.loves(b, a) ==> exists|i: int|
            0 <= i < s.lovers().len() && joins(#[trigger] s.lovers()[i], a, b) && forall|j: int|
                0 <= j < s.lovers().len() && joins(#[trigger] s.lovers()[j], a, b) ==> j == i,
        s.is_paired(a, b) ==> s.loves(a, b) && s.loves(b, a),
{
    let l = s.lovers();
    if s.loves(a, b) && s.loves(b, a) {
        assert(s.is_paired(a, b));
        let i = choose|i: int| 0 <= i < l.len() && joins(l[i], a, b);
        assert forall|j: int| 0 <= j < l.len() && joins(#[trigger] l[j], a, b) implies j == i by {
            if j < i {
                assert(!joins(l[i], l[j].lover1@, l[j].lover2@));
            } else if i < j {
                assert(!joins(l[j], l[i].lover1@, l[i].lover2@));
            }
        }
    }
    if s.is_paired(a, b) {
        let i = choose|i: int| 0 <= i < l.len() && joins(l[i], a, b);
        assert(s.loves(l[i].lover1@, l[i].lover2@));
        assert(s.loves(l[i].lover2@, l[i].lover1@));
    }
}

/// When `a` accepts `b` (successfully) and then `b`, who had not yet decided
/// about `a`, accepts `a` under an unused pairing identifier (as
/// `Service::swipe_user` always draws), the second swipe reports `Matched` and
/// exactly one pairing joins the two.
pub proof fn lemma_two_accepts_pair_once(
    s0: Store,
    s1: Store,
    s2: Store,
    a: String,
    b: String,
    id1: String,
    t1: i64,
    r1: Result<SwipeUserResponse, ServiceError>,
    id2: String,
    t2: i64,
    r2: Result<SwipeUserResponse, ServiceError>,
)
    requires
        s0.wf(),
        s1.wf(),
        s2.wf(),
        swipe_post(s0, s1, a, b, true, id1, t1, r1),
        swipe_post(s1, s2, b, a, true, id2, t2, r2),
        r1 is Ok,
        !s0.has_swiped(b@, a@),
        !crate::store::pairing_id_in(s1.lovers(), id2@),
    ensures
        r2 == Ok::<SwipeUserResponse, ServiceError>(SwipeUserResponse::Matched),
        exists|i: int|
            0 <= i < s2.lovers().len() && joins(#[trigger] s2.lovers()[i], a@, b@) && forall|j: int|
                0 <= j < s2.lovers().len() && joins(#[trigger] s2.lovers()[j], a@, b@) ==> j == i,
{
    let n1 = s0.swipes().len() as int;
    assert(swiped_at(s1.swipes(), n1, a@, b@) && s1.swipes()[n1].love);
    assert(s1.loves(a@, b@));
    assert(a@ != b@);
    if s1.has_swiped(b@, a@) {
        let k = choose|k: int| swiped_at(s1.swipes(), k, b@, a@);
        if k < n1 {
            assert(swiped_at(s0.swipes(), k, b@, a@));
        }
    }
    assert(r2 is Ok);
    let n2 = s1.swipes().len() as int;
    assert(s2.swipes()[n1] == s1.swipes()[n1]);
    assert(swiped_at(s2.swipes(), n1, a@, b@) && s2.swipes()[n1].love);
    assert(swiped_at(s2.swipes(), n2, b@, a@) && s2.swipes()[n2].love);
    lemma_mutual_acceptance_pairs_once(s2, a@, b@);
}

/// A second swipe of `a` on `b`, whatever its verdict, is refused as a
/// conflict and changes nothing; the ledger keeps exactly one row for the pair.
pub proof fn lemma_second_swipe_conflicts(
    s0: Store,
    s1: Store,
    s2: Store,
    a: String,
    b: String,
    love1: bool,
    love2: bool,
    id1: String,
    t1: i64,
    r1: Result<SwipeUserResponse, ServiceError>,
    id2: String,
    t2: i64,
    r2: Result<SwipeUserResponse, ServiceError>,
)
    requires
        s0.wf(),
        s1.wf(),
        swipe_post(s0, s1, a, b, love1, id1, t1, r1),
        swipe_post(s1, s2, a, b, love2, id2, t2, r2),
        r1 is Ok,
    ensures
        r2 == Err::<SwipeUserResponse, ServiceError>(ServiceError::Conflict),
        s2 == s1,
        exists|i: int|
            swiped_at(s2.swipes(), i, a@, b@) && forall|j: int|
                #[trigger] swiped_at(s2.swipes(), j, a@, b@) ==> j == i,
{
    let n = s0.swipes().len() as int;
    assert(swiped_at(s1.swipes(), n, a@, b@));
    assert forall|j: int| #[trigger] swiped_at(s2.swipes(), j, a@, b@) implies j == n by {
        let sw = s1.swipes();
        if j < n {
            assert(!(sw[j].swiper@ == sw[n].swiper@ && sw[j].swiped@ == sw[n].swiped@));
        } else if n < j {
            assert(!(sw[n].swiper@ == sw[j].swiper@ && sw[n].swiped@ == sw[j].swiped@));
        }
    }
}

/// Opening a channel for `x` and then publishing `ev` to `x` leaves exactly
/// `ev` queued on the new connection, when channels hold at least one event.
pub proof fn lemma_open_then_publish_delivers(
    m0: Map<Seq<char>, ChannelView>,
    capacity: nat,
    x: Seq<char>,
    connection: u64,
    ev: SseMessage,
)
    requires
        capacity > 0,
    ensures
        ({
            let m1 = m0.insert(x, (connection, Seq::<SseMessage>::empty()));
            let m2 = after_publish(m1, capacity, x, ev);
            &&& m2.contains_key(x)
            &&& m2[x] == (connection, seq![ev])
            &&& forall|y: Seq<char>| y != x ==> m2.contains_key(y) == m0.contains_key(y)
        }),
{
    let m1 = m0.insert(x, (connection, Seq::<SseMessage>::empty()));
    assert(Seq::<SseMessage>::empty().push(ev) =~= seq![ev]);
}

/// Publishing to an identity without a channel changes nothing.
pub proof fn lemma_publish_without_channel_is_noop(
    m: Map<Seq<char>, ChannelView>,
    capacity: nat,
    x: Seq<char>,
    ev: SseMessage,
)
    requires
        !m.contains_key(x),
    ensures
        after_publish(m, capacity, x, ev) == m,
{
}

/// After the channel of `x` is closed, publishing to `x` is a no-op; once
/// `x` opens a new channel, the next event published to `x` reaches it.
pub proof fn lemma_close_then_reopen(
    m0: Map<Seq<char>, ChannelView>,
    capacity: nat,
    x: Seq<char>,
    ev1: SseMessage,
    connection: u64,
    ev2: SseMessage,
)
    requires
        capacity > 0,
    ensures
        ({
            let m1 = m0.remove(x);
            let m2 = after_publish(m1, capacity, x, ev1);
            let m3 = m2.insert(x, (connection, Seq::<SseMessage>::empty()));
            let m4 = after_publish(m3, capacity, x, ev2);
            &&& !m1.contains_key(x)
            &&& m2 == m1
            &&& m4.contains_key(x)
            &&& m4[x] == (connection, seq![ev2])
        }),
{
    assert(Seq::<SseMessage>::empty().push(ev2) =~= seq![ev2]);
}

/// The candidate shown to a seeker is never the seeker, never an identity the
/// seeker already swiped (in either verdict), and never farther than the
/// seeker's radius; one exactly on the radius may be shown.
pub proof fn lemma_candidate_is_admissible(
    store: Store,
    seeker: Seeker,
    pool: Seq<PotentialLover>,
    i: int,
)
    requires
        best_candidate_at(store, seeker, pool, i),
    ensures
        pool[i].uuid@ != seeker.uuid@,
        !store.has_swiped(seeker.uuid@, pool[i].uuid@),
        pool[i].distance <= seeker.search_radius as u64 * 1000,
{
}

/// After a read receipt for the messages that `poster` sent in pairing
/// `love_uuid`, none of them is left unseen.
pub proof fn lemma_read_receipt_clears_unseen(
    before: Seq<Message>,
    after: Seq<Message>,
    love_uuid: Seq<char>,
    poster: Seq<char>,
)
    requires
        after.len() == before.len(),
        forall|k: int|
            0 <= k < before.len() ==> #[trigger] after[k] == green_ticked(before[k], love_uuid, poster),
    ensures
        after.filter(
            |m: Message| m.love_uuid@ == love_uuid && m.poster_uuid@ == poster && !m.seen,
        ).len() == 0,
{
    let f = |m: Message| m.love_uuid@ == love_uuid && m.poster_uuid@ == poster && !m.seen;
    let kept = after.filter(f);
    if kept.len() > 0 {
        after.lemma_filter_pred(f, 0);
        assert(kept.contains(kept[0]));
        after.lemma_filter_contains_rev(f, kept[0]);
        let k = choose|k: int| 0 <= k < after.len() && after[k] == kept[0];
        assert(after[k] == green_ticked(before[k], love_uuid, poster));
    }
}

} // verus!
