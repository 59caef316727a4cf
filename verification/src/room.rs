//! Rooms and the peers in them.
//!
//! The media objects themselves (routers, transports, producers and
//! consumers) are created by the media server and only carried here; the
//! type parameters stand for them:
//! `R` a router, `T` a WebRTC transport, `C` a data consumer, `K` a media
//! consumer, `D` a data producer, `P` a media producer, `X` a pipe transport.

use vstd::prelude::*;

use crate::id_map::IdMap;
use crate::keyed::{Keyed, KeyedVec};

verus! {

/// Why a room or a peer could not be located.
#[derive(PartialEq, Eq, Structural, Debug, Clone, Copy)]
pub enum LookupError {
    NoRoom,
    NoPeer,
    /// The peer has no consumer of the id asked for.
    NoConsumer,
    /// The peer has no data consumer.
    NoDataConsumer,
}

/// A participant of a room.
pub struct Peer<T, C, K> {
    pub id: String,
    /// Transport on which the peer publishes media.
    pub send_transport: Option<T>,
    /// Transport on which the peer receives media.
    pub recv_transport: Option<T>,
    pub data_consumer: Option<C>,
    /// Media consumers, by the numeric form of their id, each with the numeric
    /// form of the id of the producer it consumes.
    pub consumers: IdMap<(u128, K)>,
}

impl<T, C, K> Keyed for Peer<T, C, K> {
    open spec fn key_view(&self) -> Seq<char> {
        self.id@
    }

    fn key(&self) -> (k: &String) {
        &self.id
    }
}

/// `p` is a peer named `id` that publishes on `transport` and holds nothing else.
pub open spec fn is_publisher<T, C, K>(p: Peer<T, C, K>, id: Seq<char>, transport: T) -> bool {
    &&& p.id@ == id
    &&& p.send_transport == Some(transport)
    &&& p.recv_transport is None
    &&& p.data_consumer is None
    &&& p.consumers@ == Map::<u128, (u128, K)>::empty()
}

/// `p` is a peer named `id` that receives on `transport` and holds nothing else.
pub open spec fn is_subscriber<T, C, K>(p: Peer<T, C, K>, id: Seq<char>, transport: T) -> bool {
    &&& p.id@ == id
    &&& p.send_transport is None
    &&& p.recv_transport == Some(transport)
    &&& p.data_consumer is None
    &&& p.consumers@ == Map::<u128, (u128, K)>::empty()
}

impl<T, C, K> Peer<T, C, K> {
    /// A peer that publishes on `transport`.
    pub fn publisher(id: String, transport: T) -> (p: Self)
        ensures
            is_publisher(p, id@, transport),
    {
        Peer {
            id,
            send_transport: Some(transport),
            recv_transport: None,
            data_consumer: None,
            consumers: IdMap::new(),
        }
    }

    /// A peer that receives on `transport`.
    pub fn subscriber(id: String, transport: T) -> (p: Self)
        ensures
            is_subscriber(p, id@, transport),
    {
        Peer {
            id,
            send_transport: None,
            recv_transport: Some(transport),
            data_consumer: None,
            consumers: IdMap::new(),
        }
    }
}

/// A room: a router and the peers, producers and transports attached to it.
pub struct Room<R, T, C, K, D, P, X> {
    pub id: String,
    pub router: R,
    /// Peers, by id.
    pub peers: KeyedVec<Peer<T, C, K>>,
    /// The data producer that the room broadcasts from (publishing side only).
    pub data_producer: Option<D>,
    /// Media producers, by the numeric form of their id.
    pub producers: IdMap<P>,
    /// The transport that links the publishing and the subscribing server.
    pub pipe_transport: Option<X>,
}

impl<R, T, C, K, D, P, X> Keyed for Room<R, T, C, K, D, P, X> {
    open spec fn key_view(&self) -> Seq<char> {
        self.id@
    }

    fn key(&self) -> (k: &String) {
        &self.id
    }
}

/// `r` is a room named `id` on `router` with nothing in it yet.
pub open spec fn is_fresh_room<R, T, C, K, D, P, X>(
    r: Room<R, T, C, K, D, P, X>,
    id: Seq<char>,
    router: R,
) -> bool {
    &&& r.id@ == id
    &&& r.router == router
    &&& r.peers@ == Map::<Seq<char>, Peer<T, C, K>>::empty()
    &&& r.data_producer is None
    &&& r.producers@ == Map::<u128, P>::empty()
    &&& r.pipe_transport is None
}

/// Each peer of `r` is stored under its own id.
pub open spec fn peers_keyed<R, T, C, K, D, P, X>(r: Room<R, T, C, K, D, P, X>) -> bool {
    forall|p: Seq<char>| #[trigger] r.peers@.contains_key(p) ==> r.peers@[p].id@ == p
}

/// Each room of `m` is stored under its own id, and so is each of its peers.
pub open spec fn rooms_keyed<R, T, C, K, D, P, X>(
    m: Map<Seq<char>, Room<R, T, C, K, D, P, X>>,
) -> bool {
    forall|k: Seq<char>| #[trigger] m.contains_key(k) ==> m[k].id@ == k && peers_keyed(m[k])
}

/// Each room of `rooms` is stored under its own id, and so is each of its peers.
pub proof fn lemma_rooms_keyed<R, T, C, K, D, P, X>(rooms: KeyedVec<Room<R, T, C, K, D, P, X>>)
    ensures
        rooms_keyed(rooms@),
{
    rooms.lemma_keys_match();
    assert forall|k: Seq<char>| #[trigger] rooms@.contains_key(k) implies rooms@[k].id@ == k
        && peers_keyed(rooms@[k]) by {
        rooms@[k].peers.lemma_keys_match();
    }
}

/// `a` and `b` differ at most in their peers.
pub open spec fn same_but_peers<R, T, C, K, D, P, X>(
    a: Room<R, T, C, K, D, P, X>,
    b: Room<R, T, C, K, D, P, X>,
) -> bool {
    &&& a.id == b.id
    &&& a.router == b.router
    &&& a.data_producer == b.data_producer
    &&& a.producers == b.producers
    &&& a.pipe_transport == b.pipe_transport
}

impl<R, T, C, K, D, P, X> Room<R, T, C, K, D, P, X> {
    /// An empty room on `router`.
    pub fn new(id: String, router: R) -> (r: Self)
        ensures
            is_fresh_room(r, id@, router),
    {
        Room {
            id,
            router,
            peers: KeyedVec::new(),
            data_producer: None,
            producers: IdMap::new(),
            pipe_transport: None,
        }
    }
}

} // verus!
