//! Changing one room of a registry in place: the room is taken out, changed and
//! stored back under its id.

use vstd::prelude::*;

use crate::keyed::KeyedVec;
use crate::room::{same_but_peers, LookupError, Peer, Room};

verus! {

/// A change to one peer.
pub enum PeerChange<C, K> {
    /// Give the peer this data consumer, in place of any earlier one.
    SetDataConsumer(C),
    /// Record this consumer under this consumer id, with this producer id.
    AddConsumer(u128, u128, K),
}

/// A change to one room.
pub enum RoomChange<T, C, K, P, X> {
    /// Store this peer under its id, in place of any peer of that id.
    AddPeer(Peer<T, C, K>),
    /// Record this producer under this id.
    AddProducer(u128, P),
    /// Link the room through this pipe, in place of any earlier one.
    SetPipe(X),
    /// Change the peer of this id, which must exist.
    ChangePeer(String, PeerChange<C, K>),
}

/// `p1` is `p0` with `ch` made.
pub open spec fn peer_changed<T, C, K>(p0: Peer<T, C, K>, p1: Peer<T, C, K>, ch: PeerChange<C, K>) -> bool {
    &&& p1.id == p0.id
    &&& p1.send_transport == p0.send_transport
    &&& p1.recv_transport == p0.recv_transport
    &&& match ch {
        PeerChange::SetDataConsumer(c) => p1.data_consumer == Some(c) && p1.consumers == p0.consumers,
        PeerChange::AddConsumer(cid, pid, k) => p1.data_consumer == p0.data_consumer
            && p1.consumers@ == p0.consumers@.insert(cid, (pid, k)),
    }
}

/// `r1` is `r0` with `ch` made.
pub open spec fn room_changed<R, T, C, K, D, P, X>(
    r0: Room<R, T, C, K, D, P, X>,
    r1: Room<R, T, C, K, D, P, X>,
    ch: RoomChange<T, C, K, P, X>,
) -> bool {
    &&& r1.id == r0.id
    &&& r1.router == r0.router
    &&& r1.data_producer == r0.data_producer
    &&& match ch {
        RoomChange::AddPeer(p) => {
            &&& r1.peers@ == r0.peers@.insert(p.id@, p)
            &&& r1.producers == r0.producers
            &&& r1.pipe_transport == r0.pipe_transport
        },
        RoomChange::AddProducer(id, p) => {
            &&& r1.peers == r0.peers
            &&& r1.producers@ == r0.producers@.insert(id, p)
            &&& r1.pipe_transport == r0.pipe_transport
        },
        RoomChange::SetPipe(x) => {
            &&& r1.peers == r0.peers
            &&& r1.producers == r0.producers
            &&& r1.pipe_transport == Some(x)
        },
        RoomChange::ChangePeer(pid, pc) => {
            &&& r1.producers == r0.producers
            &&& r1.pipe_transport == r0.pipe_transport
            &&& r0.peers@.contains_key(pid@)
            &&& r1.peers@ == r0.peers@.insert(pid@, r1.peers@[pid@])
            &&& peer_changed(r0.peers@[pid@], r1.peers@[pid@], pc)
        },
    }
}

/// Makes `ch` to room `room_id` of `rooms`. When the room, or the peer that `ch`
/// names, is missing, nothing changes and the error says which.
pub fn change_room<R, T, C, K, D, P, X>(
    rooms: &mut KeyedVec<Room<R, T, C, K, D, P, X>>,
    room_id: &String,
    ch: RoomChange<T, C, K, P, X>,
) -> (r: Result<(), LookupError>)
    ensures
        match r {
            Ok(()) => {
                &&& old(rooms)@.contains_key(room_id@)
                &&& final(rooms)@ == old(rooms)@.insert(room_id@, final(rooms)@[room_id@])
                &&& room_changed(old(rooms)@[room_id@], final(rooms)@[room_id@], ch)
            },
            Err(LookupError::NoRoom) => !old(rooms)@.contains_key(room_id@) && final(rooms)@
                == old(rooms)@,
            Err(LookupError::NoPeer) => {
                &&& ch matches RoomChange::ChangePeer(pid, _)
                &&& old(rooms)@.contains_key(room_id@)
                &&& !old(rooms)@[room_id@].peers@.contains_key(pid@)
                &&& final(rooms)@ == old(rooms)@
            },
            Err(_) => false,
        },
{
    let ghost pre = rooms@;
    let ghost key = room_id@;
    match rooms.take(room_id) {
        None => Err(LookupError::NoRoom),
        Some(mut room) => {
            let ghost r0 = room;
            let result = match ch {
                RoomChange::AddPeer(p) => {
                    room.peers.insert(p);
                    Ok(())
                },
                RoomChange::AddProducer(id, p) => {
                    room.producers.insert(id, p);
                    Ok(())
                },
                RoomChange::SetPipe(x) => {
                    room.pipe_transport = Some(x);
                    Ok(())
                },
                RoomChange::ChangePeer(pid, pc) => {
                    match room.peers.take(&pid) {
                        None => Err(LookupError::NoPeer),
                        Some(mut peer) => {
                            match pc {
                                PeerChange::SetDataConsumer(c) => {
                                    peer.data_consumer = Some(c);
                                },
                                PeerChange::AddConsumer(cid, prod, k) => {
                                    peer.consumers.insert(cid, (prod, k));
                                },
                            }
                            room.peers.insert(peer);
                            proof {
                                assert(room.peers@ =~= r0.peers@.insert(pid@, room.peers@[pid@]));
                            }
                            Ok(())
                        },
                    }
                },
            };
            rooms.insert(room);
            proof {
                if result is Err {
                    assert(room == r0);
                    assert(rooms@ =~= pre);
                } else {
                    assert(rooms@ =~= pre.insert(key, rooms@[key]));
                }
            }
            result
        },
    }
}

} // verus!
