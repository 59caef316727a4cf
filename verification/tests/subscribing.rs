use echo_sfu::room::LookupError;
use echo_sfu::subscribing::SubRooms;

// router, transport, data consumer, consumer, data producer, producer, pipe
type Rooms = SubRooms<u8, u32, u16, u64, i32, i64, char>;

fn s(x: &str) -> String {
    x.to_string()
}

#[test]
fn open_room_holds_one_subscriber() {
    let mut rooms = Rooms::new();
    assert!(!rooms.contains_room(&s("r1")));
    rooms.open_room(s("r1"), 3, s("v1"), 50);
    assert!(rooms.contains_room(&s("r1")));
    let room = rooms.room(&s("r1")).unwrap();
    assert_eq!(room.router, 3);
    assert_eq!(room.data_producer, None);
    assert_eq!(room.pipe_transport, None);
    let p = room.peers.get(&s("v1")).unwrap();
    assert_eq!(p.recv_transport, Some(50));
    assert_eq!(p.send_transport, None);
    rooms.all_rooms_subscribe();
}

#[test]
fn entering_again_replaces_the_room() {
    let mut rooms = Rooms::new();
    rooms.open_room(s("r1"), 3, s("v1"), 50);
    rooms.open_room(s("r1"), 4, s("v2"), 60);
    let room = rooms.room(&s("r1")).unwrap();
    assert_eq!(room.router, 4);
    assert!(room.peers.get(&s("v1")).is_none());
    assert_eq!(room.peers.get(&s("v2")).unwrap().recv_transport, Some(60));
}

#[test]
fn attach_data_consumer_to_peer() {
    let mut rooms = Rooms::new();
    rooms.open_room(s("r1"), 3, s("v1"), 50);
    assert!(rooms.attach_pipe(&s("r1"), 'p'));
    assert_eq!(rooms.attach_data_consumer(&s("r1"), &s("v1"), 77), Ok(()));
    let room = rooms.room(&s("r1")).unwrap();
    assert_eq!(room.pipe_transport, Some('p'));
    let p = room.peers.get(&s("v1")).unwrap();
    assert_eq!(p.data_consumer, Some(77));
    assert_eq!(p.recv_transport, Some(50));
}

#[test]
fn attach_data_consumer_reports_what_is_missing() {
    let mut rooms = Rooms::new();
    rooms.open_room(s("r1"), 3, s("v1"), 50);
    assert_eq!(rooms.attach_data_consumer(&s("r2"), &s("v1"), 1), Err(LookupError::NoRoom));
    assert_eq!(rooms.attach_data_consumer(&s("r1"), &s("v9"), 1), Err(LookupError::NoPeer));
    assert_eq!(rooms.room(&s("r1")).unwrap().peers.get(&s("v1")).unwrap().data_consumer, None);
    assert!(!rooms.attach_pipe(&s("r2"), 'q'));
}

#[test]
fn recv_transport_lookup() {
    let mut rooms = Rooms::new();
    rooms.open_room(s("r1"), 3, s("v1"), 50);
    assert_eq!(rooms.recv_transport(&s("r1"), &s("v1")), Ok(&50));
    assert_eq!(rooms.recv_transport(&s("r1"), &s("v2")), Err(LookupError::NoPeer));
    assert_eq!(rooms.recv_transport(&s("r2"), &s("v1")), Err(LookupError::NoRoom));
}

#[test]
fn data_consumer_lookup() {
    let mut rooms = Rooms::new();
    rooms.open_room(s("r1"), 3, s("v1"), 50);
    assert_eq!(rooms.data_consumer(&s("r1"), &s("v1")), Err(LookupError::NoDataConsumer));
    rooms.attach_data_consumer(&s("r1"), &s("v1"), 9).unwrap();
    assert_eq!(rooms.data_consumer(&s("r1"), &s("v1")), Ok(&9));
    assert_eq!(rooms.data_consumer(&s("r1"), &s("v2")), Err(LookupError::NoPeer));
    assert_eq!(rooms.data_consumer(&s("r0"), &s("v1")), Err(LookupError::NoRoom));
}

#[test]
fn consumers_are_found_by_their_producer() {
    let mut rooms = Rooms::new();
    rooms.open_room(s("r1"), 3, s("v1"), 50);
    assert_eq!(rooms.consumer_of_producer(&s("r1"), &s("v1"), 77), Err(LookupError::NoConsumer));
    assert_eq!(rooms.add_consumer(&s("r1"), &s("v1"), 1, 77, 1000), Ok(()));
    assert_eq!(rooms.add_consumer(&s("r1"), &s("v1"), 2, 88, 2000), Ok(()));
    assert_eq!(rooms.consumer_of_producer(&s("r1"), &s("v1"), 77), Ok(&1000));
    assert_eq!(rooms.consumer_of_producer(&s("r1"), &s("v1"), 88), Ok(&2000));
    assert_eq!(rooms.consumer_of_producer(&s("r1"), &s("v1"), 1), Err(LookupError::NoConsumer));
    assert_eq!(rooms.add_consumer(&s("r1"), &s("v9"), 3, 99, 3000), Err(LookupError::NoPeer));
    assert_eq!(rooms.add_consumer(&s("r9"), &s("v1"), 3, 99, 3000), Err(LookupError::NoRoom));
    assert_eq!(rooms.consumer_of_producer(&s("r1"), &s("v9"), 77), Err(LookupError::NoPeer));
    assert_eq!(rooms.consumer_of_producer(&s("r9"), &s("v1"), 77), Err(LookupError::NoRoom));
    assert_eq!(rooms.recv_transport(&s("r1"), &s("v1")), Ok(&50));
}

#[test]
fn consumer_id_reuse_replaces_the_consumer() {
    let mut rooms = Rooms::new();
    rooms.open_room(s("r1"), 3, s("v1"), 50);
    rooms.add_consumer(&s("r1"), &s("v1"), 1, 77, 1000).unwrap();
    rooms.add_consumer(&s("r1"), &s("v1"), 1, 88, 1001).unwrap();
    assert_eq!(rooms.consumer_of_producer(&s("r1"), &s("v1"), 77), Err(LookupError::NoConsumer));
    assert_eq!(rooms.consumer_of_producer(&s("r1"), &s("v1"), 88), Ok(&1001));
}
