use echo_sfu::id_map::IdMap;
use echo_sfu::keyed::{Keyed, KeyedVec};
use echo_sfu::room::Peer;

type TestPeer = Peer<u32, u16, u64>;

fn peer(id: &str, t: u32) -> TestPeer {
    Peer::publisher(id.to_string(), t)
}

#[test]
fn keyed_vec_insert_then_get_returns_inserted() {
    let mut v: KeyedVec<TestPeer> = KeyedVec::new();
    assert!(!v.contains_key(&"a".to_string()));
    v.insert(peer("a", 1));
    v.insert(peer("b", 2));
    assert!(v.contains_key(&"a".to_string()));
    assert_eq!(v.get(&"a".to_string()).unwrap().send_transport, Some(1));
    assert_eq!(v.get(&"b".to_string()).unwrap().send_transport, Some(2));
    assert!(v.get(&"c".to_string()).is_none());
}

#[test]
fn keyed_vec_insert_replaces_same_key() {
    let mut v: KeyedVec<TestPeer> = KeyedVec::new();
    v.insert(peer("a", 1));
    v.insert(peer("a", 7));
    assert_eq!(v.get(&"a".to_string()).unwrap().send_transport, Some(7));
    let taken = v.take(&"a".to_string()).unwrap();
    assert_eq!(taken.send_transport, Some(7));
    // only one value was stored under "a"
    assert!(v.take(&"a".to_string()).is_none());
}

#[test]
fn keyed_vec_take_removes_only_that_key() {
    let mut v: KeyedVec<TestPeer> = KeyedVec::new();
    v.insert(peer("a", 1));
    v.insert(peer("b", 2));
    v.insert(peer("c", 3));
    let b = v.take(&"b".to_string()).unwrap();
    assert_eq!(b.key(), "b");
    assert!(!v.contains_key(&"b".to_string()));
    assert_eq!(v.get(&"a".to_string()).unwrap().send_transport, Some(1));
    assert_eq!(v.get(&"c".to_string()).unwrap().send_transport, Some(3));
    assert!(v.take(&"zz".to_string()).is_none());
}

#[test]
fn id_map_insert_get_replace() {
    let mut m: IdMap<&str> = IdMap::new();
    assert!(!m.contains_key(5));
    m.insert(5, "five");
    m.insert(u128::MAX, "max");
    assert_eq!(m.get(5), Some(&"five"));
    assert_eq!(m.get(u128::MAX), Some(&"max"));
    m.insert(5, "FIVE");
    assert_eq!(m.get(5), Some(&"FIVE"));
    assert!(m.get(6).is_none());
    assert!(m.contains_key(u128::MAX));
}
