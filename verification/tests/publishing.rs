use echo_sfu::publishing::{EnterStep, PubRooms};
use echo_sfu::room::LookupError;

// router, transport, data consumer, consumer, data producer, producer, pipe
type Rooms = PubRooms<u8, u32, u16, u64, i32, i64, char>;

fn s(x: &str) -> String {
    x.to_string()
}

#[test]
fn enter_steps_follow_the_rooms() {
    let mut rooms = Rooms::new();
    assert_eq!(rooms.enter_step(&s("r1"), &s("p1")), EnterStep::OpenRoom);
    rooms.open_room(s("r1"), 9, -4, s("p1"), 100);
    assert_eq!(rooms.enter_step(&s("r1"), &s("p1")), EnterStep::Rejoin);
    assert_eq!(rooms.enter_step(&s("r1"), &s("p2")), EnterStep::AddPublisher);
    assert_eq!(rooms.enter_step(&s("r2"), &s("p1")), EnterStep::OpenRoom);
}

#[test]
fn open_room_holds_one_publisher() {
    let mut rooms = Rooms::new();
    rooms.open_room(s("r1"), 9, -4, s("p1"), 100);
    let room = rooms.room(&s("r1")).unwrap();
    assert_eq!(room.id, "r1");
    assert_eq!(room.router, 9);
    assert_eq!(room.data_producer, Some(-4));
    assert_eq!(room.pipe_transport, None);
    let p = room.peers.get(&s("p1")).unwrap();
    assert_eq!(p.send_transport, Some(100));
    assert_eq!(p.recv_transport, None);
    assert_eq!(p.data_consumer, None);
    assert!(room.peers.get(&s("p2")).is_none());
    rooms.all_rooms_publish();
}

#[test]
fn enter_reply_for_new_and_rejoining_peers() {
    let mut rooms = Rooms::new();
    rooms.open_room(s("r1"), 9, -4, s("p1"), 100);
    assert!(rooms.add_publisher(&s("r1"), s("p2"), 200));
    assert_eq!(rooms.enter_reply(&s("r1"), &s("p2")), Some((&9, &200, &-4)));
    // rejoining returns the transport created the first time
    assert_eq!(rooms.enter_reply(&s("r1"), &s("p1")), Some((&9, &100, &-4)));
    assert_eq!(rooms.enter_reply(&s("r1"), &s("p3")), None);
    assert_eq!(rooms.enter_reply(&s("r2"), &s("p1")), None);
}

#[test]
fn add_publisher_to_missing_room_changes_nothing() {
    let mut rooms = Rooms::new();
    assert!(!rooms.add_publisher(&s("nowhere"), s("p1"), 1));
    assert!(rooms.room(&s("nowhere")).is_none());
    assert_eq!(rooms.enter_step(&s("nowhere"), &s("p1")), EnterStep::OpenRoom);
}

#[test]
fn add_publisher_replaces_peer_of_same_id_and_keeps_others() {
    let mut rooms = Rooms::new();
    rooms.open_room(s("r1"), 9, -4, s("p1"), 100);
    rooms.open_room(s("r2"), 8, -5, s("q"), 300);
    assert!(rooms.add_publisher(&s("r1"), s("p1"), 111));
    assert_eq!(rooms.send_transport(&s("r1"), &s("p1")), Ok(&111));
    assert_eq!(rooms.send_transport(&s("r2"), &s("q")), Ok(&300));
    assert_eq!(rooms.data_producer(&s("r1")), Some(&-4));
}

#[test]
fn send_transport_reports_what_is_missing() {
    let mut rooms = Rooms::new();
    rooms.open_room(s("example"), 1, 2, s("example"), 3);
    assert_eq!(rooms.send_transport(&s("example"), &s("example")), Ok(&3));
    assert_eq!(rooms.send_transport(&s("example"), &s("other")), Err(LookupError::NoPeer));
    assert_eq!(rooms.send_transport(&s("other"), &s("example")), Err(LookupError::NoRoom));
}

#[test]
fn add_producer_records_under_id() {
    let mut rooms = Rooms::new();
    rooms.open_room(s("r1"), 9, -4, s("p1"), 100);
    assert!(rooms.add_producer(&s("r1"), 42, 7));
    assert!(rooms.add_producer(&s("r1"), 43, 8));
    assert!(!rooms.add_producer(&s("r9"), 42, 7));
    let room = rooms.room(&s("r1")).unwrap();
    assert_eq!(room.producers.get(42), Some(&7));
    assert_eq!(room.producers.get(43), Some(&8));
    assert_eq!(room.peers.get(&s("p1")).unwrap().send_transport, Some(100));
}

#[test]
fn attach_pipe_and_read_data_producer() {
    let mut rooms = Rooms::new();
    rooms.open_room(s("r1"), 9, -4, s("p1"), 100);
    assert!(rooms.attach_pipe(&s("r1"), 'x'));
    assert!(rooms.attach_pipe(&s("r1"), 'y'));
    assert!(!rooms.attach_pipe(&s("r2"), 'z'));
    assert_eq!(rooms.room(&s("r1")).unwrap().pipe_transport, Some('y'));
    assert_eq!(rooms.data_producer(&s("r1")), Some(&-4));
    assert_eq!(rooms.data_producer(&s("r2")), None);
}

#[test]
fn reopening_a_room_replaces_it() {
    let mut rooms = Rooms::new();
    rooms.open_room(s("r1"), 9, -4, s("p1"), 100);
    rooms.add_publisher(&s("r1"), s("p2"), 200);
    rooms.open_room(s("r1"), 5, -6, s("p3"), 300);
    assert_eq!(rooms.enter_step(&s("r1"), &s("p1")), EnterStep::AddPublisher);
    assert_eq!(rooms.enter_reply(&s("r1"), &s("p3")), Some((&5, &300, &-6)));
}
