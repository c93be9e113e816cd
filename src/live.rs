use vstd::prelude::*;

verus! {

/// Kind of a live event.
#[derive(Debug, Clone, Copy, PartialEq, Eq, Structural)]
pub enum SseMessageType {
    ChatMessage,
    GreenTickMessage,
}

/// Payload of a live event.
#[derive(Debug)]
pub enum MessageData {
    /// A message was posted in pairing `uuid_love_room`.
    ChatMessage {
        uuid_love_room: String,
        uuid_message: String,
        message: String,
        poster_uuid: String,
        /// Sending time, in milliseconds since the Unix epoch.
        creation_datetime: i64,
    },
    /// The counterpart read the messages of pairing `uuid_love_room`.
    GreenTickMessage { uuid_love_room: String },
}

/// An event pushed to a live connection.
#[derive(Debug)]
pub struct SseMessage {
    pub message_type: SseMessageType,
    pub data: MessageData,
}

impl Clone for MessageData {
    fn clone(&self) -> (r: Self)
        ensures
            r == *self,
    {
        match self {
            MessageData::ChatMessage {
                uuid_love_room,
                uuid_message,
                message,
                poster_uuid,
                creation_datetime,
            } => MessageData::ChatMessage {
                uuid_love_room: uuid_love_room.clone(),
                uuid_message: uuid_message.clone(),
                message: message.clone(),
                poster_uuid: poster_uuid.clone(),
                creation_datetime: *creation_datetime,
            },
            MessageData::GreenTickMessage { uuid_love_room } => MessageData::GreenTickMessage {
                uuid_love_room: uuid_love_room.clone(),
            },
        }
    }
}

impl Clone for SseMessage {
    fn clone(&self) -> (r: Self)
        ensures
            r == *self,
    {
        SseMessage { message_type: self.message_type, data: self.data.clone() }
    }
}

/// The live channel of one identity: the connection that owns it and the
/// events waiting to be forwarded to it.
pub type ChannelView = (u64, Seq<SseMessage>);

/// Whether publishing to `id` reaches a channel with room left.
pub open spec fn delivers(m: Map<Seq<char>, ChannelView>, capacity: nat, id: Seq<char>) -> bool {
    m.contains_key(id) && m[id].1.len() < capacity
}

/// The registry after publishing `ev` to `id`: appended to its channel when
/// that channel exists and has room, dropped otherwise.
pub open spec fn after_publish(
    m: Map<Seq<char>, ChannelView>,
    capacity: nat,
    id: Seq<char>,
    ev: SseMessage,
) -> Map<Seq<char>, ChannelView> {
    if delivers(m, capacity, id) {
        m.insert(id, (m[id].0, m[id].1.push(ev)))
    } else {
        m
    }
}

struct LiveChannel {
    identity: String,
    connection: u64,
    queue: Vec<SseMessage>,
}

/// Registry of live channels, at most one per identity. Each channel is a
/// bounded queue: an event that finds it full is dropped, never waited for.
pub struct Registry {
    channels: Vec<LiveChannel>,
    next_connection: u64,
    capacity: usize,
    map: Ghost<Map<Seq<char>, ChannelView>>,
}


spec fn channels_wf(ch: Seq<LiveChannel>, map: Map<Seq<char>, ChannelView>, capacity: nat) -> bool {
    &&& forall|i: int|
        0 <= i < ch.len() ==> map.contains_key(#[trigger] ch[i].identity@) && map[ch[i].identity@]
            == (ch[i].connection, ch[i].queue@)
    &&& forall|k: Seq<char>| #[trigger]
        map.contains_key(k) ==> exists|i: int| 0 <= i < ch.len() && ch[i].identity@ == k
    &&& forall|i: int, j: int|
        0 <= i < j < ch.len() ==> #[trigger] ch[i].identity@ != #[trigger] ch[j].identity@
    &&& forall|k: Seq<char>| #[trigger] map.contains_key(k) ==> map[k].1.len() <= capacity
}

/// Replacing the channel in slot `i` by one of the same identity keeps the
/// registry consistent, with the map updated at that identity.
proof fn lemma_slot_replaced(
    c0: Seq<LiveChannel>,
    map: Map<Seq<char>, ChannelView>,
    capacity: nat,
    i: int,
    c: LiveChannel,
)
    requires
        channels_wf(c0, map, capacity),
        0 <= i < c0.len(),
        c0[i].identity@ == c.identity@,
        c.queue@.len() <= capacity,
    ensures
        channels_wf(c0.update(i, c), map.insert(c.identity@, (c.connection, c.queue@)), capacity),
{
    let c1 = c0.update(i, c);
    let key = c.identity@;
    let m1 = map.insert(key, (c.connection, c.queue@));
    assert forall|x: int, y: int| 0 <= x < y < c1.len() implies #[trigger] c1[x].identity@
        != #[trigger] c1[y].identity@ by {
        assert(c0[x].identity@ != c0[y].identity@);
    }
    assert forall|x: int| 0 <= x < c1.len() implies m1.contains_key(#[trigger] c1[x].identity@)
        && m1[c1[x].identity@] == (c1[x].connection, c1[x].queue@) by {
        if x != i {
            let (a, b) = if x < i { (x, i) } else { (i, x) };
            assert(c0[a].identity@ != c0[b].identity@);
        }
    }
    assert forall|k: Seq<char>| #[trigger] m1.contains_key(k) implies exists|x: int|
        0 <= x < c1.len() && c1[x].identity@ == k by {
        if k == key {
            assert(c1[i].identity@ == k);
        } else {
            let x = choose|x: int| 0 <= x < c0.len() && c0[x].identity@ == k;
            assert(c1[x].identity@ == k);
        }
    }
}

impl Registry {
    /// The open channels, by identity.
    pub closed spec fn view(&self) -> Map<Seq<char>, ChannelView> {
        self.map@
    }

    /// How many events a channel holds before further events are dropped.
    pub closed spec fn capacity(&self) -> nat {
        self.capacity as nat
    }

    pub closed spec fn wf(&self) -> bool {
        channels_wf(self.channels@, self.map@, self.capacity as nat)
    }

    /// A registry with no channel, whose channels hold up to `capacity` events.
    pub fn new(capacity: usize) -> (r: Registry)
        ensures
            r.wf(),
            r@ == Map::<Seq<char>, ChannelView>::empty(),
            r.capacity() == capacity,
    {
        Registry {
            channels: Vec::new(),
            next_connection: 0,
            capacity,
            map: Ghost(Map::empty()),
        }
    }

    fn find_channel(&self, identity: &String) -> (r: Option<usize>)
        requires
            self.wf(),
        ensures
            match r {
                Some(i) => i < self.channels@.len() && self.channels@[i as int].identity@
                    == identity@,
                None => !self@.contains_key(identity@),
            },
    {
        let mut i: usize = 0;
        while i < self.channels.len()
            invariant
                i <= self.channels@.len(),
                forall|k: int| 0 <= k < i ==> self.channels@[k].identity@ != identity@,
            decreases self.channels@.len() - i,
        {
            if self.channels[i].identity == *identity {
                return Some(i);
            }
            i += 1;
        }
        None
    }

    /// Whether `identity` has an open channel.
    pub fn is_open(&self, identity: &String) -> (r: bool)
        requires
            self.wf(),
        ensures
            r == self@.contains_key(identity@),
    {
        match self.find_channel(identity) {
            Some(i) => {
                assert(self@.contains_key(self.channels@[i as int].identity@));
                true
            },
            None => false,
        }
    }

    /// Opens a fresh, empty channel for `identity` and returns its connection
    /// number. A channel that `identity` already had is replaced: it stops
    /// receiving events.
    pub fn open_channel(&mut self, identity: &String) -> (r: u64)
        requires
            old(self).wf(),
        ensures
            final(self).wf(),
            final(self)@ == old(self)@.insert(identity@, (r, Seq::<SseMessage>::empty())),
            final(self).capacity() == old(self).capacity(),
            old(self)@.contains_key(identity@) ==> r != old(self)@[identity@].0,
    {
        let mut connection = self.next_connection;
        self.next_connection = self.next_connection.wrapping_add(1);
        match self.find_channel(identity) {
            Some(i) => {
                proof {
                    assert(self.map@.contains_key(self.channels@[i as int].identity@));
                }
                if self.channels[i].connection == connection {
                    connection = connection.wrapping_add(1);
                }
                let c = LiveChannel { identity: identity.clone(), connection, queue: Vec::new() };
                let ghost c0 = self.channels@;
                let ghost val = (connection, Seq::<SseMessage>::empty());
                proof {
                    lemma_slot_replaced(c0, self.map@, self.capacity as nat, i as int, c);
                }
                self.channels.set(i, c);
                self.map = Ghost(self.map@.insert(identity@, val));
            },
            None => {
                let c = LiveChannel { identity: identity.clone(), connection, queue: Vec::new() };
                let ghost c0 = self.channels@;
                let ghost val = (connection, Seq::<SseMessage>::empty());
                self.channels.push(c);
                self.map = Ghost(self.map@.insert(identity@, val));
                proof {
                    let c1 = self.channels@;
                    let n = c0.len() as int;
                    assert forall|x: int, y: int| 0 <= x < y < c1.len() implies #[trigger] c1[x].identity@
                        != #[trigger] c1[y].identity@ by {
                        if y < n {
                            assert(c0[x].identity@ != c0[y].identity@);
                        } else {
                            assert(c1[x] == c0[x]);
                            assert(self.map@.contains_key(c0[x].identity@));
                        }
                    }
                    assert forall|x: int| 0 <= x < c1.len() implies self.map@.contains_key(
                        #[trigger] c1[x].identity@,
                    ) && self.map@[c1[x].identity@] == (c1[x].connection, c1[x].queue@) by {
                        if x < n {
                            assert(c1[x] == c0[x]);
                        }
                    }
                    assert forall|k: Seq<char>| #[trigger] self.map@.contains_key(k) implies exists|
                        x: int,
                    | 0 <= x < c1.len() && c1[x].identity@ == k by {
                        if k == identity@ {
                            assert(c1[n].identity@ == k);
                        } else {
                            let x = choose|x: int| 0 <= x < c0.len() && c0[x].identity@ == k;
                            assert(c1[x].identity@ == k);
                        }
                    }
                }
            },
        }
        connection
    }

    /// Removes the channel of `identity`, if any. Closing twice is harmless.
    pub fn close_channel(&mut self, identity: &String)
        requires
            old(self).wf(),
        ensures
            final(self).wf(),
            final(self)@ == old(self)@.remove(identity@),
            final(self).capacity() == old(self).capacity(),
    {
        match self.find_channel(identity) {
            Some(i) => {
                let ghost c0 = self.channels@;
                self.channels.remove(i);
                self.map = Ghost(self.map@.remove(identity@));
                proof {
                    let c1 = self.channels@;
                    assert forall|x: int| 0 <= x < c0.len() && x != i implies #[trigger] c0[x].identity@
                        != identity@ by {
                        let (a, b) = if x < i { (x, i as int) } else { (i as int, x) };
                        assert(c0[a].identity@ != c0[b].identity@);
                    }
                    assert forall|x: int, y: int| 0 <= x < y < c1.len() implies #[trigger] c1[x].identity@
                        != #[trigger] c1[y].identity@ by {
                        let a = if x < i { x } else { x + 1 };
                        let b = if y < i { y } else { y + 1 };
                        assert(c0[a].identity@ != c0[b].identity@);
                    }
                    assert forall|x: int| 0 <= x < c1.len() implies self.map@.contains_key(
                        #[trigger] c1[x].identity@,
                    ) && self.map@[c1[x].identity@] == (c1[x].connection, c1[x].queue@) by {
                        let a = if x < i { x } else { x + 1 };
                        assert(c1[x] == c0[a]);
                    }
                    assert forall|k: Seq<char>| #[trigger] self.map@.contains_key(k) implies exists|
                        x: int,
                    | 0 <= x < c1.len() && c1[x].identity@ == k by {
                        let a = choose|a: int| 0 <= a < c0.len() && c0[a].identity@ == k;
                        let x = if a < i { a } else { a - 1 };
                        assert(c1[x].identity@ == k);
                    }
                }
            },
            None => {
                assert(self.map@.remove(identity@) =~= self.map@);
            },
        }
    }

    /// Removes the channel of `identity` only if it still belongs to
    /// `connection`: a connection that was replaced leaves the newer channel
    /// alone when it ends.
    pub fn close_connection(&mut self, identity: &String, connection: u64)
        requires
            old(self).wf(),
        ensures
            final(self).wf(),
            final(self).capacity() == old(self).capacity(),
            old(self)@.contains_key(identity@) && old(self)@[identity@].0 == connection
                ==> final(self)@ == old(self)@.remove(identity@),
            !(old(self)@.contains_key(identity@) && old(self)@[identity@].0 == connection)
                ==> final(self)@ == old(self)@,
    {
        match self.find_channel(identity) {
            Some(i) => {
                proof {
                    assert(self.map@.contains_key(self.channels@[i as int].identity@));
                }
                if self.channels[i].connection == connection {
                    self.close_channel(identity);
                }
            },
            None => {},
        }
    }

    /// Best-effort push of `event` to `identity`: appended to its channel when
    /// it is open and has room; dropped otherwise. Never waits. Returns whether
    /// the event was queued.
    pub fn publish(&mut self, identity: &String, event: SseMessage) -> (r: bool)
        requires
            old(self).wf(),
        ensures
            final(self).wf(),
            r == delivers(old(self)@, old(self).capacity(), identity@),
            final(self)@ == after_publish(old(self)@, old(self).capacity(), identity@, event),
            final(self).capacity() == old(self).capacity(),
    {
        match self.find_channel(identity) {
            Some(i) => {
                proof {
                    assert(self.map@.contains_key(self.channels@[i as int].identity@));
                }
                if self.channels[i].queue.len() < self.capacity {
                    let ghost c0 = self.channels@;
                    let mut c = LiveChannel { identity: identity.clone(), connection: 0, queue: Vec::new() };
                    self.channels.set_and_swap(i, &mut c);
                    c.queue.push(event);
                    let ghost val = (c.connection, c.queue@);
                    proof {
                        lemma_slot_replaced(c0, self.map@, self.capacity as nat, i as int, c);
                        assert(c0.update(i as int, c) =~= self.channels@.update(i as int, c));
                    }
                    self.channels.set(i, c);
                    self.map = Ghost(self.map@.insert(identity@, val));
                    true
                } else {
                    false
                }
            },
            None => false,
        }
    }

    /// Hands the queued events of `identity` to connection `connection` and
    /// empties the queue. `None` when `identity` has no channel, or when its
    /// channel belongs to another connection: that connection was replaced
    /// and should end.
    pub fn take_events(&mut self, identity: &String, connection: u64) -> (r: Option<Vec<SseMessage>>)
        requires
            old(self).wf(),
        ensures
            final(self).wf(),
            final(self).capacity() == old(self).capacity(),
            old(self)@.contains_key(identity@) && old(self)@[identity@].0 == connection ==> {
                &&& r is Some
                &&& r->0@ == old(self)@[identity@].1
                &&& final(self)@ == old(self)@.insert(identity@, (connection, Seq::<SseMessage>::empty()))
            },
            !(old(self)@.contains_key(identity@) && old(self)@[identity@].0 == connection) ==> {
                &&& r is None
                &&& final(self)@ == old(self)@
            },
    {
        match self.find_channel(identity) {
            Some(i) => {
                if self.channels[i].connection != connection {
                    return None;
                }
                let ghost c0 = self.channels@;
                let mut c = LiveChannel { identity: identity.clone(), connection, queue: Vec::new() };
                proof {
                    assert(self.map@.contains_key(c0[i as int].identity@));
                    lemma_slot_replaced(c0, self.map@, self.capacity as nat, i as int, c);
                }
                let ghost val = (connection, Seq::<SseMessage>::empty());
                self.channels.set_and_swap(i, &mut c);
                self.map = Ghost(self.map@.insert(identity@, val));
                Some(c.queue)
            },
            None => None,
        }
    }
}

} // verus!
