//! The rooms of the publishing server.
//!
//! Every room there broadcasts from a data producer, and every peer in it
//! publishes on a send transport: the rooms are built that way and no
//! operation here takes either away.

use vstd::prelude::*;

use crate::change::{change_room, room_changed, RoomChange};
use crate::keyed::KeyedVec;
use crate::room::{lemma_rooms_keyed, rooms_keyed, is_publisher, same_but_peers, LookupError, Peer, Room};

verus! {

/// What entering a room takes, given the state of the rooms.
#[derive(PartialEq, Eq, Structural, Debug, Clone, Copy)]
pub enum EnterStep {
    /// The room does not exist: open it, with the peer in it.
    OpenRoom,
    /// The room exists but the peer is not in it: give the peer a send transport.
    AddPublisher,
    /// The peer is already in the room: reuse its send transport.
    Rejoin,
}

/// `r` has a data producer and each of its peers a send transport.
pub open spec fn room_publishes<R, T, C, K, D, P, X>(r: Room<R, T, C, K, D, P, X>) -> bool {
    &&& r.data_producer is Some
    &&& forall|p: Seq<char>| #[trigger]
        r.peers@.contains_key(p) ==> r.peers@[p].send_transport is Some
}

/// Every room in `m` publishes.
pub open spec fn all_publish<R, T, C, K, D, P, X>(
    m: Map<Seq<char>, Room<R, T, C, K, D, P, X>>,
) -> bool {
    forall|k: Seq<char>| #[trigger] m.contains_key(k) ==> room_publishes(m[k])
}

/// The step that entering room `room` as peer `peer` takes in `m`.
pub open spec fn enter_step_of<R, T, C, K, D, P, X>(
    m: Map<Seq<char>, Room<R, T, C, K, D, P, X>>,
    room: Seq<char>,
    peer: Seq<char>,
) -> EnterStep {
    if !m.contains_key(room) {
        EnterStep::OpenRoom
    } else if !m[room].peers@.contains_key(peer) {
        EnterStep::AddPublisher
    } else {
        EnterStep::Rejoin
    }
}

/// Entering room `room` as peer `peer` opens a new room exactly when no room of
/// that id exists, whatever the peer; adds the peer as a new publisher exactly
/// when the room exists without that peer, whatever else the room holds (its
/// pipe, its producers, its other peers); and is a rejoin exactly when the room
/// already holds the peer.
pub proof fn lemma_enter_step_cases<R, T, C, K, D, P, X>(
    m: Map<Seq<char>, Room<R, T, C, K, D, P, X>>,
    room: Seq<char>,
    peer: Seq<char>,
)
    ensures
        (enter_step_of(m, room, peer) == EnterStep::OpenRoom) == !m.contains_key(room),
        (enter_step_of(m, room, peer) == EnterStep::AddPublisher) == (m.contains_key(room)
            && !m[room].peers@.contains_key(peer)),
        (enter_step_of(m, room, peer) == EnterStep::Rejoin) == (m.contains_key(room)
            && m[room].peers@.contains_key(peer)),
{
}

/// Entering a room depends only on which rooms exist and which peers they hold:
/// two registries with the same rooms, holding the same peers, give the same
/// step for every room and peer, though the rooms differ in pipes, producers,
/// routers, data producers or the peers' transports.
pub proof fn lemma_enter_step_by_membership<R, T, C, K, D, P, X>(
    m1: Map<Seq<char>, Room<R, T, C, K, D, P, X>>,
    m2: Map<Seq<char>, Room<R, T, C, K, D, P, X>>,
    room: Seq<char>,
    peer: Seq<char>,
)
    requires
        m1.contains_key(room) == m2.contains_key(room),
        m1.contains_key(room) ==> (m1[room].peers@.contains_key(peer) == m2[room].peers@.contains_key(
            peer,
        )),
    ensures
        enter_step_of(m1, room, peer) == enter_step_of(m2, room, peer),
{
    lemma_enter_step_cases(m1, room, peer);
    lemma_enter_step_cases(m2, room, peer);
}

/// Once a room of the publishing server holds a peer, entering that room again
/// as that peer is a rejoin, and the reply it needs is there: the peer's send
/// transport and the room's data producer.
pub proof fn lemma_reenter_rejoins<R, T, C, K, D, P, X>(
    m: Map<Seq<char>, Room<R, T, C, K, D, P, X>>,
    room: Seq<char>,
    peer: Seq<char>,
)
    requires
        all_publish(m),
        m.contains_key(room),
        m[room].peers@.contains_key(peer),
    ensures
        enter_step_of(m, room, peer) == EnterStep::Rejoin,
        m[room].peers@[peer].send_transport is Some,
        m[room].data_producer is Some,
{
    assert(room_publishes(m[room]));
}

/// A change that adds only publishing peers, and changes no peer, keeps every
/// room publishing.
proof fn lemma_change_publishes<R, T, C, K, D, P, X>(
    pre: Map<Seq<char>, Room<R, T, C, K, D, P, X>>,
    post: Map<Seq<char>, Room<R, T, C, K, D, P, X>>,
    key: Seq<char>,
    ch: RoomChange<T, C, K, P, X>,
)
    requires
        all_publish(pre),
        pre.contains_key(key),
        post == pre.insert(key, post[key]),
        room_changed(pre[key], post[key], ch),
        ch matches RoomChange::AddPeer(p) ==> p.send_transport is Some,
        !(ch is ChangePeer),
    ensures
        all_publish(post),
{
    assert forall|k: Seq<char>| #[trigger] post.contains_key(k) implies room_publishes(post[k]) by {
        if k != key {
            assert(pre.contains_key(k));
        } else {
            assert(room_publishes(pre[key]));
            assert forall|p: Seq<char>| #[trigger] post[k].peers@.contains_key(p) implies post[k].peers@[
                p
            ].send_transport is Some by {
                if !(ch is AddPeer) || p != ch->AddPeer_0.id@ {
                    assert(pre[key].peers@.contains_key(p));
                }
            }
        }
    }
}

/// The rooms of the publishing server, by id.
pub struct PubRooms<R, T, C, K, D, P, X> {
    rooms: KeyedVec<Room<R, T, C, K, D, P, X>>,
}

impl<R, T, C, K, D, P, X> View for PubRooms<R, T, C, K, D, P, X> {
    type V = Map<Seq<char>, Room<R, T, C, K, D, P, X>>;

    closed spec fn view(&self) -> Map<Seq<char>, Room<R, T, C, K, D, P, X>> {
        self.rooms@
    }
}

impl<R, T, C, K, D, P, X> PubRooms<R, T, C, K, D, P, X> {
    #[verifier::type_invariant]
    spec fn publishing(self) -> bool {
        all_publish(self.rooms@)
    }

    /// Each room is stored under its own id, and so is each of its peers.
    pub proof fn lemma_keyed(self)
        ensures
            rooms_keyed(self@),
    {
        lemma_rooms_keyed(self.rooms);
    }

    /// No rooms.
    pub fn new() -> (r: Self)
        ensures
            r@ == Map::<Seq<char>, Room<R, T, C, K, D, P, X>>::empty(),
            all_publish(r@),
    {
        PubRooms { rooms: KeyedVec::new() }
    }

    /// Every room here publishes.
    pub fn all_rooms_publish(&self)
        ensures
            all_publish(self@),
    {
        proof {
            use_type_invariant(self);
        }
    }

    /// The room `room_id`, if it exists.
    pub fn room(&self, room_id: &String) -> (r: Option<&Room<R, T, C, K, D, P, X>>)
        ensures
            match r {
                Some(room) => self@.contains_key(room_id@) && *room == self@[room_id@],
                None => !self@.contains_key(room_id@),
            },
    {
        self.rooms.get(room_id)
    }

    /// What entering room `room_id` as peer `peer_id` takes.
    pub fn enter_step(&self, room_id: &String, peer_id: &String) -> (s: EnterStep)
        ensures
            s == enter_step_of(self@, room_id@, peer_id@),
            (s == EnterStep::OpenRoom) == !self@.contains_key(room_id@),
            (s == EnterStep::AddPublisher) == (self@.contains_key(room_id@)
                && !self@[room_id@].peers@.contains_key(peer_id@)),
            (s == EnterStep::Rejoin) == (self@.contains_key(room_id@)
                && self@[room_id@].peers@.contains_key(peer_id@)),
    {
        proof {
            lemma_enter_step_cases(self@, room_id@, peer_id@);
        }
        match self.rooms.get(room_id) {
            None => EnterStep::OpenRoom,
            Some(room) => {
                if room.peers.contains_key(peer_id) {
                    EnterStep::Rejoin
                } else {
                    EnterStep::AddPublisher
                }
            },
        }
    }

    /// Opens room `room_id` on `router`, broadcasting from `data_producer`, with
    /// one peer `peer_id` that publishes on `transport`; a room of that id is
    /// replaced.
    pub fn open_room(
        &mut self,
        room_id: String,
        router: R,
        data_producer: D,
        peer_id: String,
        transport: T,
    )
        ensures
            final(self)@ == old(self)@.insert(room_id@, final(self)@[room_id@]),
            ({
                let r = final(self)@[room_id@];
                &&& r.id@ == room_id@
                &&& r.router == router
                &&& r.data_producer == Some(data_producer)
                &&& r.producers@ == Map::<u128, P>::empty()
                &&& r.pipe_transport is None
                &&& r.peers@ == Map::<Seq<char>, Peer<T, C, K>>::empty().insert(
                    peer_id@,
                    r.peers@[peer_id@],
                )
                &&& is_publisher(r.peers@[peer_id@], peer_id@, transport)
            }),
            all_publish(final(self)@),
            forall|q: Seq<char>| #[trigger]
                enter_step_of(final(self)@, room_id@, q) == (if q == peer_id@ {
                    EnterStep::Rejoin
                } else {
                    EnterStep::AddPublisher
                }),
    {
        proof {
            use_type_invariant(&*self);
        }
        let ghost key = room_id@;
        let ghost pid = peer_id@;
        let mut room = Room::new(room_id, router);
        room.peers.insert(Peer::publisher(peer_id, transport));
        room.data_producer = Some(data_producer);
        let mut rooms = KeyedVec::new();
        std::mem::swap(&mut rooms, &mut self.rooms);
        let ghost pre = rooms@;
        rooms.insert(room);
        proof {
            assert(rooms@[key].peers@ =~= Map::<Seq<char>, Peer<T, C, K>>::empty().insert(
                pid,
                rooms@[key].peers@[pid],
            ));
            assert forall|k: Seq<char>| #[trigger] rooms@.contains_key(k) implies room_publishes(
                rooms@[k],
            ) by {
                if k != key {
                    assert(pre.contains_key(k));
                }
            }
        }
        self.rooms = rooms;
        proof {
            assert forall|q: Seq<char>| #[trigger]
                enter_step_of(self@, key, q) == (if q == pid {
                    EnterStep::Rejoin
                } else {
                    EnterStep::AddPublisher
                }) by {
                lemma_enter_step_cases(self@, key, q);
            }
        }
    }

    /// Makes `ch` to room `room_id`; returns whether the room exists, and when it
    /// does not, nothing changes.
    fn change(&mut self, room_id: &String, ch: RoomChange<T, C, K, P, X>) -> (changed: bool)
        requires
            ch matches RoomChange::AddPeer(p) ==> p.send_transport is Some,
            !(ch is ChangePeer),
        ensures
            changed == old(self)@.contains_key(room_id@),
            !changed ==> final(self)@ == old(self)@,
            changed ==> final(self)@ == old(self)@.insert(room_id@, final(self)@[room_id@])
                && room_changed(old(self)@[room_id@], final(self)@[room_id@], ch),
            all_publish(final(self)@),
    {
        proof {
            use_type_invariant(&*self);
        }
        let ghost g = ch;
        let mut rooms = KeyedVec::new();
        std::mem::swap(&mut rooms, &mut self.rooms);
        let ghost pre = rooms@;
        let r = change_room(&mut rooms, room_id, ch);
        proof {
            if r is Ok {
                lemma_change_publishes(pre, rooms@, room_id@, g);
            }
        }
        self.rooms = rooms;
        r.is_ok()
    }

    /// Adds peer `peer_id`, publishing on `transport`, to room `room_id`; a peer of
    /// that id is replaced. Returns whether the room exists; when it does not,
    /// nothing changes.
    pub fn add_publisher(&mut self, room_id: &String, peer_id: String, transport: T) -> (added:
        bool)
        ensures
            added == old(self)@.contains_key(room_id@),
            !added ==> final(self)@ == old(self)@,
            added ==> ({
                let r0 = old(self)@[room_id@];
                let r1 = final(self)@[room_id@];
                &&& final(self)@ == old(self)@.insert(room_id@, r1)
                &&& same_but_peers(r0, r1)
                &&& r1.peers@ == r0.peers@.insert(peer_id@, r1.peers@[peer_id@])
                &&& is_publisher(r1.peers@[peer_id@], peer_id@, transport)
            }),
            all_publish(final(self)@),
            added ==> enter_step_of(final(self)@, room_id@, peer_id@) == EnterStep::Rejoin,
    {
        let ghost pid = peer_id@;
        let added = self.change(room_id, RoomChange::AddPeer(Peer::publisher(peer_id, transport)));
        proof {
            lemma_enter_step_cases(self@, room_id@, pid);
        }
        added
    }

    /// The router of room `room_id`, the send transport of peer `peer_id` in it and
    /// the room's data producer, when the room holds that peer.
    pub fn enter_reply(&self, room_id: &String, peer_id: &String) -> (r: Option<(&R, &T, &D)>)
        ensures
            r is Some <==> (self@.contains_key(room_id@) && self@[room_id@].peers@.contains_key(
                peer_id@,
            )),
            match r {
                Some((router, transport, data_producer)) => {
                    &&& *router == self@[room_id@].router
                    &&& self@[room_id@].peers@[peer_id@].send_transport == Some(*transport)
                    &&& self@[room_id@].data_producer == Some(*data_producer)
                },
                None => true,
            },
    {
        proof {
            use_type_invariant(self);
        }
        match self.rooms.get(room_id) {
            None => None,
            Some(room) => match room.peers.get(peer_id) {
                None => None,
                Some(peer) => {
                    proof {
                        assert(room_publishes(*room));
                        assert(room.peers@.contains_key(peer_id@));
                    }
                    match (&peer.send_transport, &room.data_producer) {
                        (Some(t), Some(d)) => Some((&room.router, t, d)),
                        _ => None,
                    }
                },
            },
        }
    }

    /// The send transport of peer `peer_id` in room `room_id`.
    pub fn send_transport(&self, room_id: &String, peer_id: &String) -> (r: Result<&T, LookupError>)
        ensures
            match r {
                Ok(t) => self@.contains_key(room_id@) && self@[room_id@].peers@.contains_key(peer_id@)
                    && self@[room_id@].peers@[peer_id@].send_transport == Some(*t),
                Err(LookupError::NoRoom) => !self@.contains_key(room_id@),
                Err(LookupError::NoPeer) => self@.contains_key(room_id@)
                    && !self@[room_id@].peers@.contains_key(peer_id@),
                Err(_) => false,
            },
    {
        proof {
            use_type_invariant(self);
        }
        match self.rooms.get(room_id) {
            None => Err(LookupError::NoRoom),
            Some(room) => match room.peers.get(peer_id) {
                None => Err(LookupError::NoPeer),
                Some(peer) => {
                    proof {
                        assert(room_publishes(*room));
                        assert(room.peers@.contains_key(peer_id@));
                    }
                    match &peer.send_transport {
                        Some(t) => Ok(t),
                        None => Err(LookupError::NoPeer),
                    }
                },
            },
        }
    }

    /// The data producer of room `room_id`, if the room exists.
    pub fn data_producer(&self, room_id: &String) -> (r: Option<&D>)
        ensures
            r is Some <==> self@.contains_key(room_id@),
            match r {
                Some(d) => self@[room_id@].data_producer == Some(*d),
                None => true,
            },
    {
        proof {
            use_type_invariant(self);
        }
        match self.rooms.get(room_id) {
            None => None,
            Some(room) => {
                proof {
                    assert(room_publishes(*room));
                }
                room.data_producer.as_ref()
            },
        }
    }

    /// Records `producer` under `producer_id` in room `room_id`. Returns whether the
    /// room exists; when it does not, nothing changes.
    pub fn add_producer(&mut self, room_id: &String, producer_id: u128, producer: P) -> (added:
        bool)
        ensures
            added == old(self)@.contains_key(room_id@),
            !added ==> final(self)@ == old(self)@,
            added ==> ({
                let r0 = old(self)@[room_id@];
                let r1 = final(self)@[room_id@];
                &&& final(self)@ == old(self)@.insert(room_id@, r1)
                &&& r1.id == r0.id
                &&& r1.router == r0.router
                &&& r1.peers == r0.peers
                &&& r1.data_producer == r0.data_producer
                &&& r1.pipe_transport == r0.pipe_transport
                &&& r1.producers@ == r0.producers@.insert(producer_id, producer)
                &&& r0.producers@.dom().subset_of(r1.producers@.dom())
            }),
            all_publish(final(self)@),
            forall|r: Seq<char>, p: Seq<char>|
                #[trigger] enter_step_of(final(self)@, r, p) == enter_step_of(old(self)@, r, p),
    {
        let ghost pre = self@;
        let added = self.change(room_id, RoomChange::AddProducer(producer_id, producer));
        proof {
            assert forall|r: Seq<char>, p: Seq<char>|
                #[trigger] enter_step_of(self@, r, p) == enter_step_of(pre, r, p) by {
                lemma_enter_step_by_membership(self@, pre, r, p);
            }
        }
        added
    }

    /// Links room `room_id` to the subscribing server through `pipe`, in place of
    /// any earlier pipe. Returns whether the room exists; when it does not,
    /// nothing changes.
    pub fn attach_pipe(&mut self, room_id: &String, pipe: X) -> (attached: bool)
        ensures
            attached == old(self)@.contains_key(room_id@),
            !attached ==> final(self)@ == old(self)@,
            attached ==> ({
                let r0 = old(self)@[room_id@];
                let r1 = final(self)@[room_id@];
                &&& final(self)@ == old(self)@.insert(room_id@, r1)
                &&& r1.id == r0.id
                &&& r1.router == r0.router
                &&& r1.peers == r0.peers
                &&& r1.data_producer == r0.data_producer
                &&& r1.producers == r0.producers
                &&& r1.pipe_transport == Some(pipe)
            }),
            all_publish(final(self)@),
            forall|r: Seq<char>, p: Seq<char>|
                #[trigger] enter_step_of(final(self)@, r, p) == enter_step_of(old(self)@, r, p),
    {
        let ghost pre = self@;
        let added = self.change(room_id, RoomChange::SetPipe(pipe));
        proof {
            assert forall|r: Seq<char>, p: Seq<char>|
                #[trigger] enter_step_of(self@, r, p) == enter_step_of(pre, r, p) by {
                lemma_enter_step_by_membership(self@, pre, r, p);
            }
        }
        added
    }
}

} // verus!
