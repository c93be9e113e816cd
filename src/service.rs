use vstd::prelude::*;

use crate::errors::{ServiceError, SqliteError};
use crate::ids::{new_uuid, now_millis};
use crate::live::{after_publish, MessageData, Registry, SseMessage, SseMessageType};
use crate::matching::{eligible, best_candidate_at, PotentialLover, Seeker};
use crate::requests::{
    CreateMessageRequest, GreenTickMessagesRequest, SwipeUserRequest, SwipeUserResponse,
};
use crate::store::{
    green_ticked, in_pairing, kept_rows, member, message_id_in, pairing_id_in, swipe_post,
    swipe_without, Message, Pairing, Store, SwipeDecision,
};

verus! {

/// The live event announcing message `m`.
pub open spec fn chat_event(m: Message) -> SseMessage {
    SseMessage {
        message_type: SseMessageType::ChatMessage,
        data: MessageData::ChatMessage {
            uuid_love_room: m.love_uuid,
            uuid_message: m.uuid,
            message: m.message,
            poster_uuid: m.poster_uuid,
            creation_datetime: m.creation_datetime,
        },
    }
}

/// The live event announcing that the messages of pairing `love_uuid` were read.
pub open spec fn receipt_event(love_uuid: String) -> SseMessage {
    SseMessage {
        message_type: SseMessageType::GreenTickMessage,
        data: MessageData::GreenTickMessage { uuid_love_room: love_uuid },
    }
}

/// The effect of `Service::post_message` (from `old` to `new`, with result
/// `r`): refusals change nothing; an accepted message is appended to the
/// store, unseen, and its event is published to both members of the pairing.
pub open spec fn post_message_post(
    old: Service,
    new: Service,
    sender: String,
    request: CreateMessageRequest,
    message_uuid: String,
    now: i64,
    r: Result<String, ServiceError>,
) -> bool {
    &&& (r is Err ==> new == old)
    &&& (r is Ok <==> old.store.message_accepted(sender@, request, message_uuid@))
    &&& (sender@ != request.poster_uuid@ ==> r == Err::<String, ServiceError>(
        ServiceError::ForbiddenQuery,
    ))
    &&& (sender@ == request.poster_uuid@ && (request.message@.len() == 0
        || request.message@.len() > 1000) ==> r matches Err(ServiceError::ValueNotAccepted(_, _)))
    &&& (sender@ == request.poster_uuid@ && 1 <= request.message@.len() <= 1000 && !in_pairing(
        old.store.lovers(),
        request.love_uuid@,
        request.poster_uuid@,
    ) ==> r == Err::<String, ServiceError>(ServiceError::ForbiddenQuery))
    &&& (sender@ == request.poster_uuid@ && 1 <= request.message@.len() <= 1000 && in_pairing(
        old.store.lovers(),
        request.love_uuid@,
        request.poster_uuid@,
    ) && message_id_in(old.store.messages(), message_uuid@) ==> r == Err::<String, ServiceError>(
        ServiceError::Sqlite(SqliteError::UnknownSqliteProblem),
    ))
    &&& (r is Ok ==> {
        let m = Message {
            uuid: message_uuid,
            message: request.message,
            poster_uuid: request.poster_uuid,
            love_uuid: request.love_uuid,
            seen: false,
            creation_datetime: now,
        };
        &&& r == Ok::<String, ServiceError>(message_uuid)
        &&& new.store.swipes() == old.store.swipes()
        &&& new.store.lovers() == old.store.lovers()
        &&& new.store.messages() == old.store.messages().push(m)
        &&& exists|j: int|
            0 <= j < old.store.lovers().len() && (#[trigger] old.store.lovers()[j]).love_uuid@
                == request.love_uuid@ && new.registry@ == after_publish(
                after_publish(
                    old.registry@,
                    old.registry.capacity(),
                    old.store.lovers()[j].lover1@,
                    chat_event(m),
                ),
                old.registry.capacity(),
                old.store.lovers()[j].lover2@,
                chat_event(m),
            )
        &&& new.registry.capacity() == old.registry.capacity()
    })
}

/// The matching and chat service: the row store and the registry of live
/// channels. Callers share one `Service` behind a lock, so each method runs
/// as one atomic step.
pub struct Service {
    pub store: Store,
    pub registry: Registry,
}

impl Service {
    pub open spec fn wf(&self) -> bool {
        self.store.wf() && self.registry.wf()
    }

    /// An empty service whose live channels hold up to `capacity` events.
    pub fn new(capacity: usize) -> (r: Service)
        ensures
            r.wf(),
            r.store.swipes().len() == 0,
            r.store.lovers().len() == 0,
            r.store.messages().len() == 0,
            r.registry@ == Map::<Seq<char>, (u64, Seq<SseMessage>)>::empty(),
            r.registry.capacity() == capacity,
    {
        Service { store: Store::new(), registry: Registry::new(capacity) }
    }

    /// Records the decision of `swiper` (the authenticated identity) about
    /// `request.swiped_uuid`, creating the pairing on a mutual acceptance.
    /// The pairing gets a fresh identifier (a new UUID, or one longer than any
    /// in use should it clash) and the current time, so the swipe is refused
    /// only as self-swipe or duplicate.
    pub fn swipe_user(&mut self, swiper: &String, request: &SwipeUserRequest) -> (r: Result<
        SwipeUserResponse,
        ServiceError,
    >)
        requires
            old(self).wf(),
        ensures
            final(self).wf(),
            final(self).registry == old(self).registry,
            exists|love_uuid: String, now: i64|
                swipe_post(
                    old(self).store,
                    final(self).store,
                    *swiper,
                    request.swiped_uuid,
                    request.love,
                    love_uuid,
                    now,
                    r,
                ) && !pairing_id_in(old(self).store.lovers(), love_uuid@),
    {
        let love_uuid = self.store.fresh_pairing_id(new_uuid());
        let now = now_millis();
        let ghost id = love_uuid;
        let r = self.store.swipe_user(swiper, &request.swiped_uuid, request.love, love_uuid, now);
        assert(swipe_post(
            old(self).store,
            self.store,
            *swiper,
            request.swiped_uuid,
            request.love,
            id,
            now,
            r,
        ));
        r
    }

    /// Stores the message of `request` under `message_uuid` at time `now` (see
    /// `Store::create_message`), then publishes it to both members of the
    /// pairing.
    pub fn post_message(
        &mut self,
        sender: &String,
        request: &CreateMessageRequest,
        message_uuid: String,
        now: i64,
    ) -> (r: Result<String, ServiceError>)
        requires
            old(self).wf(),
        ensures
            final(self).wf(),
            post_message_post(*old(self), *final(self), *sender, *request, message_uuid, now, r),
    {
        let ghost id = message_uuid;
        let stored = self.store.create_message(sender, request, message_uuid, now);
        let uuid = match stored {
            Ok(uuid) => uuid,
            Err(e) => {
                return Err(e);
            },
        };
        let ghost m = Message {
            uuid: id,
            message: request.message,
            poster_uuid: request.poster_uuid,
            love_uuid: request.love_uuid,
            seen: false,
            creation_datetime: now,
        };
        let event = SseMessage {
            message_type: SseMessageType::ChatMessage,
            data: MessageData::ChatMessage {
                uuid_love_room: request.love_uuid.clone(),
                uuid_message: uuid.clone(),
                message: request.message.clone(),
                poster_uuid: request.poster_uuid.clone(),
                creation_datetime: now,
            },
        };
        assert(event == chat_event(m));
        proof {
            let ms = self.store.messages();
            assert(ms.last() == m);
            assert(message_id_in(ms, id@)) by {
                assert(ms[ms.len() - 1].uuid@ == id@);
            }
        }
        match self.store.get_lovers_uuids_from_message_uuid(&uuid) {
            Ok((lover1, lover2)) => {
                proof {
                    let ms = self.store.messages();
                    let ls = self.store.lovers();
                    let (i, j) = choose|i: int, j: int|
                        0 <= i < ms.len() && 0 <= j < ls.len() && #[trigger] ms[i].uuid@ == id@
                            && #[trigger] ls[j].love_uuid@ == ms[i].love_uuid@ && ls[j].lover1@
                            == lover1@ && ls[j].lover2@ == lover2@;
                    if i != ms.len() - 1 {
                        assert(ms[i].uuid@ != ms[ms.len() - 1].uuid@);
                    }
                    assert(old(self).store.lovers()[j] == ls[j]);
                }
                self.registry.publish(&lover1, event.clone());
                self.registry.publish(&lover2, event);
                Ok(uuid)
            },
            Err(_) => {
                assert(false);
                Ok(uuid)
            },
        }
    }

    /// Stores the message of `request` from `sender` (the authenticated
    /// identity) under a fresh identifier (a new UUID, or one longer than any in
    /// use should it clash) and the current time, and publishes it to both
    /// members of the pairing. Returns the message identifier. The identifier
    /// never clashes, so the message is accepted exactly when
    /// `Store::message_accepted` holds.
    pub fn create_message(&mut self, sender: &String, request: &CreateMessageRequest) -> (r: Result<
        String,
        ServiceError,
    >)
        requires
            old(self).wf(),
        ensures
            final(self).wf(),
            exists|message_uuid: String, now: i64|
                #[trigger] post_message_post(
                    *old(self),
                    *final(self),
                    *sender,
                    *request,
                    message_uuid,
                    now,
                    r,
                ) && !message_id_in(old(self).store.messages(), message_uuid@),
    {
        let message_uuid = self.store.fresh_message_id(new_uuid());
        let now = now_millis();
        let ghost id = message_uuid;
        let r = self.post_message(sender, request, message_uuid, now);
        assert(post_message_post(*old(self), *self, *sender, *request, id, now, r));
        r
    }

    /// Marks as read the messages that the counterpart posted in the pairing
    /// (see `Store::green_tick_messages`), then publishes a read receipt to
    /// the counterpart.
    pub fn green_tick_messages(&mut self, viewer: &String, request: &GreenTickMessagesRequest) -> (r:
        Result<(), ServiceError>)
        requires
            old(self).wf(),
        ensures
            final(self).wf(),
            r is Err ==> *final(self) == *old(self),
            !pairing_id_in(old(self).store.lovers(), request.love_uuid@) ==> r == Err::<
                (),
                ServiceError,
            >(ServiceError::Sqlite(SqliteError::NotFound)),
            pairing_id_in(old(self).store.lovers(), request.love_uuid@) && !(in_pairing(
                old(self).store.lovers(),
                request.love_uuid@,
                viewer@,
            ) && in_pairing(old(self).store.lovers(), request.love_uuid@, request.lover_ticked_uuid@)
                && viewer@ != request.lover_ticked_uuid@) ==> r == Err::<(), ServiceError>(
                ServiceError::ForbiddenQuery,
            ),
            in_pairing(old(self).store.lovers(), request.love_uuid@, viewer@) && in_pairing(
                old(self).store.lovers(),
                request.love_uuid@,
                request.lover_ticked_uuid@,
            ) && viewer@ != request.lover_ticked_uuid@ ==> {
                &&& r == Ok::<(), ServiceError>(())
                &&& final(self).store.swipes() == old(self).store.swipes()
                &&& final(self).store.lovers() == old(self).store.lovers()
                &&& final(self).store.messages().len() == old(self).store.messages().len()
                &&& forall|k: int|
                    0 <= k < old(self).store.messages().len() ==> #[trigger] final(self).store.messages()[k]
                        == green_ticked(
                        old(self).store.messages()[k],
                        request.love_uuid@,
                        request.lover_ticked_uuid@,
                    )
                &&& final(self).registry@ == after_publish(
                    old(self).registry@,
                    old(self).registry.capacity(),
                    request.lover_ticked_uuid@,
                    receipt_event(request.love_uuid),
                )
                &&& final(self).registry.capacity() == old(self).registry.capacity()
            },
    {
        match self.store.green_tick_messages(viewer, request) {
            Ok(()) => {},
            Err(e) => {
                return Err(e);
            },
        }
        let event = SseMessage {
            message_type: SseMessageType::GreenTickMessage,
            data: MessageData::GreenTickMessage { uuid_love_room: request.love_uuid.clone() },
        };
        self.registry.publish(&request.lover_ticked_uuid, event);
        Ok(())
    }

    /// The candidate to show to `viewer` out of `pool` (see
    /// `Store::find_love_target`); `NoPotentialMatchFound` when none is eligible.
    pub fn find_lover(&self, seeker: &Seeker, pool: &Vec<PotentialLover>) -> (r: Result<
        PotentialLover,
        ServiceError,
    >)
        ensures
            r is Err <==> forall|j: int|
                0 <= j < pool.len() ==> !eligible(self.store, *seeker, #[trigger] pool@[j]),
            r is Err ==> r == Err::<PotentialLover, ServiceError>(ServiceError::NoPotentialMatchFound),
            match r {
                Ok(c) => exists|i: int|
                    best_candidate_at(self.store, *seeker, pool@, i) && pool@[i] == c,
                Err(_) => true,
            },
    {
        match self.store.find_love_target(seeker, pool) {
            Ok(c) => Ok(c),
            Err(_) => Err(ServiceError::NoPotentialMatchFound),
        }
    }

    /// The pairings of `user_uuid`, for that identity only.
    pub fn get_lovers(&self, viewer: &String, user_uuid: &String) -> (r: Result<
        Vec<Pairing>,
        ServiceError,
    >)
        ensures
            viewer@ != user_uuid@ ==> r == Err::<Vec<Pairing>, ServiceError>(
                ServiceError::ForbiddenQuery,
            ),
            viewer@ == user_uuid@ ==> r is Ok && r->Ok_0@ == self.store.lovers().filter(
                |p: Pairing| crate::store::member(p, user_uuid@),
            ),
    {
        if *viewer != *user_uuid {
            return Err(ServiceError::ForbiddenQuery);
        }
        Ok(self.store.get_lovers(user_uuid))
    }

    /// The messages of pairing `love_uuid`, for its members only.
    pub fn get_love_messages(&self, viewer: &String, love_uuid: &String) -> (r: Result<
        Vec<Message>,
        ServiceError,
    >)
        requires
            self.wf(),
        ensures
            !in_pairing(self.store.lovers(), love_uuid@, viewer@) ==> r == Err::<
                Vec<Message>,
                ServiceError,
            >(ServiceError::ForbiddenQuery),
            in_pairing(self.store.lovers(), love_uuid@, viewer@) ==> r is Ok && r->Ok_0@
                == self.store.messages().filter(|m: Message| m.love_uuid@ == love_uuid@),
    {
        if self.store.user_in_love_relation(viewer, love_uuid).is_err() {
            return Err(ServiceError::ForbiddenQuery);
        }
        Ok(self.store.get_love_messages(love_uuid))
    }

    /// The messages of all pairings of `user_uuid`, for that identity only.
    pub fn get_lover_messages(&self, viewer: &String, user_uuid: &String) -> (r: Result<
        Vec<Message>,
        ServiceError,
    >)
        requires
            self.wf(),
        ensures
            viewer@ != user_uuid@ ==> r == Err::<Vec<Message>, ServiceError>(
                ServiceError::ForbiddenQuery,
            ),
            viewer@ == user_uuid@ ==> r is Ok && r->Ok_0@ == self.store.messages().filter(
                |m: Message| in_pairing(self.store.lovers(), m.love_uuid@, user_uuid@),
            ),
    {
        if *viewer != *user_uuid {
            return Err(ServiceError::ForbiddenQuery);
        }
        Ok(self.store.get_lover_messages(user_uuid))
    }

    /// How many identities accepted `user_uuid`; for that identity only.
    pub fn loved_count(&self, viewer: &String, user_uuid: &String) -> (r: Result<usize, ServiceError>)
        ensures
            viewer@ != user_uuid@ ==> r == Err::<usize, ServiceError>(ServiceError::ForbiddenQuery),
            viewer@ == user_uuid@ ==> r == Ok::<usize, ServiceError>(
                self.store.swipes().filter(
                    |d: SwipeDecision| d.swiped@ == user_uuid@ && d.love == true,
                ).len() as usize,
            ),
    {
        if *viewer != *user_uuid {
            return Err(ServiceError::ForbiddenQuery);
        }
        Ok(self.store.swiped_count(user_uuid, true))
    }

    /// How many identities rejected `user_uuid`; for that identity only.
    pub fn rejected_count(&self, viewer: &String, user_uuid: &String) -> (r: Result<usize, ServiceError>)
        ensures
            viewer@ != user_uuid@ ==> r == Err::<usize, ServiceError>(ServiceError::ForbiddenQuery),
            viewer@ == user_uuid@ ==> r == Ok::<usize, ServiceError>(
                self.store.swipes().filter(
                    |d: SwipeDecision| d.swiped@ == user_uuid@ && d.love == false,
                ).len() as usize,
            ),
    {
        if *viewer != *user_uuid {
            return Err(ServiceError::ForbiddenQuery);
        }
        Ok(self.store.swiped_count(user_uuid, false))
    }

    /// How many identities `user_uuid` accepted; for that identity only.
    pub fn loving_count(&self, viewer: &String, user_uuid: &String) -> (r: Result<usize, ServiceError>)
        ensures
            viewer@ != user_uuid@ ==> r == Err::<usize, ServiceError>(ServiceError::ForbiddenQuery),
            viewer@ == user_uuid@ ==> r == Ok::<usize, ServiceError>(
                self.store.swipes().filter(
                    |d: SwipeDecision| d.swiper@ == user_uuid@ && d.love == true,
                ).len() as usize,
            ),
    {
        if *viewer != *user_uuid {
            return Err(ServiceError::ForbiddenQuery);
        }
        Ok(self.store.swiping_count(user_uuid, true))
    }

    /// How many identities `user_uuid` rejected; for that identity only.
    pub fn rejecting_count(&self, viewer: &String, user_uuid: &String) -> (r: Result<usize, ServiceError>)
        ensures
            viewer@ != user_uuid@ ==> r == Err::<usize, ServiceError>(ServiceError::ForbiddenQuery),
            viewer@ == user_uuid@ ==> r == Ok::<usize, ServiceError>(
                self.store.swipes().filter(
                    |d: SwipeDecision| d.swiper@ == user_uuid@ && d.love == false,
                ).len() as usize,
            ),
    {
        if *viewer != *user_uuid {
            return Err(ServiceError::ForbiddenQuery);
        }
        Ok(self.store.swiping_count(user_uuid, false))
    }

    /// How many profiles of `pool` `seeker` could still be shown; for that
    /// identity only.
    pub fn matching_potential(&self, viewer: &String, seeker: &Seeker, pool: &Vec<PotentialLover>) -> (r:
        Result<usize, ServiceError>)
        ensures
            viewer@ != seeker.uuid@ ==> r == Err::<usize, ServiceError>(ServiceError::ForbiddenQuery),
            viewer@ == seeker.uuid@ ==> r == Ok::<usize, ServiceError>(
                pool@.filter(|c: PotentialLover| eligible(self.store, *seeker, c)).len() as usize,
            ),
    {
        if *viewer != seeker.uuid {
            return Err(ServiceError::ForbiddenQuery);
        }
        Ok(self.store.potential_matches_count(seeker, pool))
    }

    /// Deletes the account `user_uuid`, for that identity only: its decisions,
    /// pairings and their messages leave the store, and its live channel closes.
    pub fn delete_user(&mut self, viewer: &String, user_uuid: &String) -> (r: Result<(), ServiceError>)
        requires
            old(self).wf(),
        ensures
            final(self).wf(),
            viewer@ != user_uuid@ ==> r == Err::<(), ServiceError>(ServiceError::ForbiddenQuery)
                && *final(self) == *old(self),
            viewer@ == user_uuid@ ==> {
                &&& r == Ok::<(), ServiceError>(())
                &&& kept_rows(
                    old(self).store.swipes(),
                    final(self).store.swipes(),
                    |d: SwipeDecision| swipe_without(d, user_uuid@),
                )
                &&& kept_rows(
                    old(self).store.lovers(),
                    final(self).store.lovers(),
                    |p: Pairing| !member(p, user_uuid@),
                )
                &&& kept_rows(
                    old(self).store.messages(),
                    final(self).store.messages(),
                    |m: Message| !in_pairing(old(self).store.lovers(), m.love_uuid@, user_uuid@),
                )
                &&& final(self).registry@ == old(self).registry@.remove(user_uuid@)
                &&& final(self).registry.capacity() == old(self).registry.capacity()
            },
    {
        if *viewer != *user_uuid {
            return Err(ServiceError::ForbiddenQuery);
        }
        self.store.delete_user_by_uuid(user_uuid);
        self.registry.close_channel(user_uuid);
        Ok(())
    }
}

} // verus!
