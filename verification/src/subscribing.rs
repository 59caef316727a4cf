//! The rooms of the subscribing server.
//!
//! A room there holds no data producer of its own, and every peer in it
//! receives on a transport of its own and publishes nothing: the rooms are
//! built that way and no operation here changes it.

use vstd::prelude::*;

use crate::change::{change_room, room_changed, PeerChange, RoomChange};
use crate::keyed::KeyedVec;
use crate::room::{lemma_rooms_keyed, rooms_keyed, is_subscriber, LookupError, Peer, Room, same_but_peers};

verus! {

/// `r` has no data producer, and each of its peers receives and does not send.
pub open spec fn room_subscribes<R, T, C, K, D, P, X>(r: Room<R, T, C, K, D, P, X>) -> bool {
    &&& r.data_producer is None
    &&& forall|p: Seq<char>| #[trigger]
        r.peers@.contains_key(p) ==> r.peers@[p].send_transport is None
            && r.peers@[p].recv_transport is Some
}

/// Every room in `m` subscribes.
pub open spec fn all_subscribe<R, T, C, K, D, P, X>(
    m: Map<Seq<char>, Room<R, T, C, K, D, P, X>>,
) -> bool {
    forall|k: Seq<char>| #[trigger] m.contains_key(k) ==> room_subscribes(m[k])
}

/// A change that adds no peer keeps every room subscribing.
proof fn lemma_change_subscribes<R, T, C, K, D, P, X>(
    pre: Map<Seq<char>, Room<R, T, C, K, D, P, X>>,
    post: Map<Seq<char>, Room<R, T, C, K, D, P, X>>,
    key: Seq<char>,
    ch: RoomChange<T, C, K, P, X>,
)
    requires
        all_subscribe(pre),
        pre.contains_key(key),
        post == pre.insert(key, post[key]),
        room_changed(pre[key], post[key], ch),
        !(ch is AddPeer),
    ensures
        all_subscribe(post),
{
    assert forall|k: Seq<char>| #[trigger] post.contains_key(k) implies room_subscribes(post[k]) by {
        if k != key {
            assert(pre.contains_key(k));
        } else {
            assert(room_subscribes(pre[key]));
            assert forall|p: Seq<char>| #[trigger] post[k].peers@.contains_key(p) implies post[k].peers@[
                p
            ].send_transport is None && post[k].peers@[p].recv_transport is Some by {
                assert(pre[key].peers@.contains_key(p));
            }
        }
    }
}

/// The rooms of the subscribing server, by id.
pub struct SubRooms<R, T, C, K, D, P, X> {
    rooms: KeyedVec<Room<R, T, C, K, D, P, X>>,
}

impl<R, T, C, K, D, P, X> View for SubRooms<R, T, C, K, D, P, X> {
    type V = Map<Seq<char>, Room<R, T, C, K, D, P, X>>;

    closed spec fn view(&self) -> Map<Seq<char>, Room<R, T, C, K, D, P, X>> {
        self.rooms@
    }
}

impl<R, T, C, K, D, P, X> SubRooms<R, T, C, K, D, P, X> {
    #[verifier::type_invariant]
    spec fn subscribing(self) -> bool {
        all_subscribe(self.rooms@)
    }

    /// Each room is stored under its own id, and so is each of its peers.
    pub proof fn lemma_keyed(self)
        ensures
            rooms_keyed(self@),
    {
        lemma_rooms_keyed(self.rooms);
    }

    /// No rooms.
    pub fn new() -> (r: Self)
        ensures
            r@ == Map::<Seq<char>, Room<R, T, C, K, D, P, X>>::empty(),
            all_subscribe(r@),
    {
        SubRooms { rooms: KeyedVec::new() }
    }

    /// Every room here subscribes.
    pub fn all_rooms_subscribe(&self)
        ensures
            all_subscribe(self@),
    {
        proof {
            use_type_invariant(self);
        }
    }

    /// Whether room `room_id` exists.
    pub fn contains_room(&self, room_id: &String) -> (r: bool)
        ensures
            r == self@.contains_key(room_id@),
    {
        self.rooms.contains_key(room_id)
    }

    /// The room `room_id`, if it exists.
    pub fn room(&self, room_id: &String) -> (r: Option<&Room<R, T, C, K, D, P, X>>)
        ensures
            match r {
                Some(room) => self@.contains_key(room_id@) && *room == self@[room_id@],
                None => !self@.contains_key(room_id@),
            },
    {
        self.rooms.get(room_id)
    }

    /// Opens room `room_id` on `router` with one peer `peer_id` that receives on
    /// `transport`; a room of that id, and all it held, is replaced.
    pub fn open_room(&mut self, room_id: String, router: R, peer_id: String, transport: T)
        ensures
            final(self)@ == old(self)@.insert(room_id@, final(self)@[room_id@]),
            ({
                let r = final(self)@[room_id@];
                &&& r.id@ == room_id@
                &&& r.router == router
                &&& r.data_producer is None
                &&& r.producers@ == Map::<u128, P>::empty()
                &&& r.pipe_transport is None
                &&& r.peers@ == Map::<Seq<char>, Peer<T, C, K>>::empty().insert(
                    peer_id@,
                    r.peers@[peer_id@],
                )
                &&& is_subscriber(r.peers@[peer_id@], peer_id@, transport)
            }),
            all_subscribe(final(self)@),
    {
        proof {
            use_type_invariant(&*self);
        }
        let ghost key = room_id@;
        let ghost pid = peer_id@;
        let mut room = Room::new(room_id, router);
        room.peers.insert(Peer::subscriber(peer_id, transport));
        let mut rooms = KeyedVec::new();
        std::mem::swap(&mut rooms, &mut self.rooms);
        let ghost pre = rooms@;
        rooms.insert(room);
        proof {
            assert(rooms@[key].peers@ =~= Map::<Seq<char>, Peer<T, C, K>>::empty().insert(
                pid,
                rooms@[key].peers@[pid],
            ));
            assert forall|k: Seq<char>| #[trigger] rooms@.contains_key(k) implies room_subscribes(
                rooms@[k],
            ) by {
                if k != key {
                    assert(pre.contains_key(k));
                }
            }
        }
        self.rooms = rooms;
    }

    /// Makes `ch` to room `room_id`. When the room, or the peer that `ch` names, is
    /// missing, nothing changes and the error says which.
    fn change(&mut self, room_id: &String, ch: RoomChange<T, C, K, P, X>) -> (r: Result<
        (),
        LookupError,
    >)
        requires
            !(ch is AddPeer),
        ensures
            match r {
                Ok(()) => {
                    &&& old(self)@.contains_key(room_id@)
                    &&& final(self)@ == old(self)@.insert(room_id@, final(self)@[room_id@])
                    &&& room_changed(old(self)@[room_id@], final(self)@[room_id@], ch)
                },
                Err(LookupError::NoRoom) => !old(self)@.contains_key(room_id@) && final(self)@
                    == old(self)@,
                Err(LookupError::NoPeer) => {
                    &&& ch matches RoomChange::ChangePeer(pid, _)
                    &&& old(self)@.contains_key(room_id@)
                    &&& !old(self)@[room_id@].peers@.contains_key(pid@)
                    &&& final(self)@ == old(self)@
                },
                Err(_) => false,
            },
            all_subscribe(final(self)@),
    {
        proof {
            use_type_invariant(&*self);
        }
        let ghost g = ch;
        let mut rooms = KeyedVec::new();
        std::mem::swap(&mut rooms, &mut self.rooms);
        let ghost pre = rooms@;
        let r = change_room(&mut rooms, room_id, ch);
        proof {
            if r is Ok {
                lemma_change_subscribes(pre, rooms@, room_id@, g);
            }
        }
        self.rooms = rooms;
        r
    }

    /// Links room `room_id` to the publishing server through `pipe`, in place of any
    /// earlier pipe. Returns whether the room exists; when it does not, nothing
    /// changes.
    pub fn attach_pipe(&mut self, room_id: &String, pipe: X) -> (attached: bool)
        ensures
            attached == old(self)@.contains_key(room_id@),
            !attached ==> final(self)@ == old(self)@,
            attached ==> ({
                let r0 = old(self)@[room_id@];
                let r1 = final(self)@[room_id@];
                &&& final(self)@ == old(self)@.insert(room_id@, r1)
                &&& r1.id == r0.id
                &&& r1.router == r0.router
                &&& r1.peers == r0.peers
                &&& r1.data_producer == r0.data_producer
                &&& r1.producers == r0.producers
                &&& r1.pipe_transport == Some(pipe)
            }),
            all_subscribe(final(self)@),
    {
        self.change(room_id, RoomChange::SetPipe(pipe)).is_ok()
    }

    /// Gives peer `peer_id` of room `room_id` the data consumer `consumer`, in place of
    /// any earlier one. When the room or the peer is missing, nothing changes and
    /// the error says which.
    pub fn attach_data_consumer(&mut self, room_id: &String, peer_id: &String, consumer: C) -> (r:
        Result<(), LookupError>)
        ensures
            match r {
                Ok(()) => {
                    let r0 = old(self)@[room_id@];
                    let r1 = final(self)@[room_id@];
                    let p0 = r0.peers@[peer_id@];
                    let p1 = r1.peers@[peer_id@];
                    &&& old(self)@.contains_key(room_id@)
                    &&& r0.peers@.contains_key(peer_id@)
                    &&& final(self)@ == old(self)@.insert(room_id@, r1)
                    &&& same_but_peers(r0, r1)
                    &&& r1.peers@ == r0.peers@.insert(peer_id@, p1)
                    &&& p1.id == p0.id
                    &&& p1.send_transport == p0.send_transport
                    &&& p1.recv_transport == p0.recv_transport
                    &&& p1.consumers == p0.consumers
                    &&& p1.data_consumer == Some(consumer)
                },
                Err(LookupError::NoRoom) => !old(self)@.contains_key(room_id@) && final(self)@
                    == old(self)@,
                Err(LookupError::NoPeer) => old(self)@.contains_key(room_id@) && !old(
                    self,
                )@[room_id@].peers@.contains_key(peer_id@) && final(self)@ == old(self)@,
                Err(_) => false,
            },
            all_subscribe(final(self)@),
    {
        self.change(
            room_id,
            RoomChange::ChangePeer(peer_id.clone(), PeerChange::SetDataConsumer(consumer)),
        )
    }

    /// The receive transport of peer `peer_id` in room `room_id`.
    pub fn recv_transport(&self, room_id: &String, peer_id: &String) -> (r: Result<&T, LookupError>)
        ensures
            match r {
                Ok(t) => self@.contains_key(room_id@) && self@[room_id@].peers@.contains_key(peer_id@)
                    && self@[room_id@].peers@[peer_id@].recv_transport == Some(*t),
                Err(LookupError::NoRoom) => !self@.contains_key(room_id@),
                Err(LookupError::NoPeer) => self@.contains_key(room_id@)
                    && !self@[room_id@].peers@.contains_key(peer_id@),
                Err(_) => false,
            },
    {
        proof {
            use_type_invariant(self);
        }
        match self.rooms.get(room_id) {
            None => Err(LookupError::NoRoom),
            Some(room) => match room.peers.get(peer_id) {
                None => Err(LookupError::NoPeer),
                Some(peer) => {
                    proof {
                        assert(room_subscribes(*room));
                        assert(room.peers@.contains_key(peer_id@));
                    }
                    match &peer.recv_transport {
                        Some(t) => Ok(t),
                        None => Err(LookupError::NoPeer),
                    }
                },
            },
        }
    }

    /// The data consumer of peer `peer_id` in room `room_id`.
    pub fn data_consumer(&self, room_id: &String, peer_id: &String) -> (r: Result<&C, LookupError>)
        ensures
            match r {
                Ok(c) => self@.contains_key(room_id@) && self@[room_id@].peers@.contains_key(peer_id@)
                    && self@[room_id@].peers@[peer_id@].data_consumer == Some(*c),
                Err(LookupError::NoRoom) => !self@.contains_key(room_id@),
                Err(LookupError::NoPeer) => self@.contains_key(room_id@)
                    && !self@[room_id@].peers@.contains_key(peer_id@),
                Err(LookupError::NoDataConsumer) => self@.contains_key(room_id@)
                    && self@[room_id@].peers@.contains_key(peer_id@)
                    && self@[room_id@].peers@[peer_id@].data_consumer is None,
                Err(LookupError::NoConsumer) => false,
            },
    {
        match self.rooms.get(room_id) {
            None => Err(LookupError::NoRoom),
            Some(room) => match room.peers.get(peer_id) {
                None => Err(LookupError::NoPeer),
                Some(peer) => match &peer.data_consumer {
                    Some(c) => Ok(c),
                    None => Err(LookupError::NoDataConsumer),
                },
            },
        }
    }

    /// The consumer that peer `peer_id` of room `room_id` has of producer
    /// `producer_id`.
    pub fn consumer_of_producer(&self, room_id: &String, peer_id: &String, producer_id: u128) -> (r:
        Result<&K, LookupError>)
        ensures
            match r {
                Ok(k) => {
                    let consumers = self@[room_id@].peers@[peer_id@].consumers@;
                    &&& self@.contains_key(room_id@)
                    &&& self@[room_id@].peers@.contains_key(peer_id@)
                    &&& exists|cid: u128| #[trigger]
                        consumers.contains_key(cid) && consumers[cid].0 == producer_id
                            && consumers[cid].1 == *k
                },
                Err(LookupError::NoRoom) => !self@.contains_key(room_id@),
                Err(LookupError::NoPeer) => self@.contains_key(room_id@)
                    && !self@[room_id@].peers@.contains_key(peer_id@),
                Err(LookupError::NoConsumer) => {
                    let consumers = self@[room_id@].peers@[peer_id@].consumers@;
                    &&& self@.contains_key(room_id@)
                    &&& self@[room_id@].peers@.contains_key(peer_id@)
                    &&& forall|cid: u128| #[trigger]
                        consumers.contains_key(cid) ==> consumers[cid].0 != producer_id
                },
                Err(LookupError::NoDataConsumer) => false,
            },
    {
        match self.rooms.get(room_id) {
            None => Err(LookupError::NoRoom),
            Some(room) => match room.peers.get(peer_id) {
                None => Err(LookupError::NoPeer),
                Some(peer) => match peer.consumers.find_by_first(producer_id) {
                    Some((_, k)) => Ok(k),
                    None => Err(LookupError::NoConsumer),
                },
            },
        }
    }

    /// Records `consumer`, which consumes producer `producer_id`, under `consumer_id`
    /// for peer `peer_id` of room `room_id`, in place of any consumer of that id.
    /// When the room or the peer is missing, nothing changes and the error says
    /// which.
    pub fn add_consumer(
        &mut self,
        room_id: &String,
        peer_id: &String,
        consumer_id: u128,
        producer_id: u128,
        consumer: K,
    ) -> (r: Result<(), LookupError>)
        ensures
            match r {
                Ok(()) => {
                    let r0 = old(self)@[room_id@];
                    let r1 = final(self)@[room_id@];
                    let p0 = r0.peers@[peer_id@];
                    let p1 = r1.peers@[peer_id@];
                    &&& old(self)@.contains_key(room_id@)
                    &&& r0.peers@.contains_key(peer_id@)
                    &&& final(self)@ == old(self)@.insert(room_id@, r1)
                    &&& same_but_peers(r0, r1)
                    &&& r1.peers@ == r0.peers@.insert(peer_id@, p1)
                    &&& p1.id == p0.id
                    &&& p1.send_transport == p0.send_transport
                    &&& p1.recv_transport == p0.recv_transport
                    &&& p1.data_consumer == p0.data_consumer
                    &&& p1.consumers@ == p0.consumers@.insert(consumer_id, (producer_id, consumer))
                },
                Err(LookupError::NoRoom) => !old(self)@.contains_key(room_id@) && final(self)@
                    == old(self)@,
                Err(LookupError::NoPeer) => old(self)@.contains_key(room_id@) && !old(
                    self,
                )@[room_id@].peers@.contains_key(peer_id@) && final(self)@ == old(self)@,
                Err(_) => false,
            },
            all_subscribe(final(self)@),
    {
        self.change(
            room_id,
            RoomChange::ChangePeer(
                peer_id.clone(),
                PeerChange::AddConsumer(consumer_id, producer_id, consumer),
            ),
        )
    }
}

} // verus!
