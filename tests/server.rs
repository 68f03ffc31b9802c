use hermes::{ConnectionTable, Payload};

fn handshake() -> Vec<u8> {
    Payload::Connect.to_datagram()
}

#[test]
fn new_table_is_empty() {
    let t = ConnectionTable::new();
    assert_eq!(t.len(), 0);
    assert!(t.broadcast(b"hi").is_empty());
}

#[test]
fn handshake_dedup() {
    let mut t = ConnectionTable::new();
    for _ in 0..5 {
        t.receive(&handshake(), "127.0.0.1".to_string(), 40000);
    }
    assert_eq!(t.len(), 1);
    assert_eq!(t.record(0).address, "127.0.0.1");
    assert_eq!(t.record(0).port, 40000);
}

#[test]
fn handshake_multiplicity() {
    let senders = [("127.0.0.1", 40000u16), ("127.0.0.1", 40001), ("10.0.0.5", 40000), ("::1", 7)];
    let mut t = ConnectionTable::new();
    for (address, port) in senders {
        t.receive(&handshake(), address.to_string(), port);
    }
    assert_eq!(t.len(), 4);
    for (i, (address, port)) in senders.iter().enumerate() {
        assert_eq!(t.record(i).address, *address);
        assert_eq!(t.record(i).port, *port);
        assert!(t.contains(&address.to_string(), *port));
    }
    assert!(!t.contains(&"10.0.0.5".to_string(), 40001));
}

#[test]
fn other_datagrams_leave_table_unchanged() {
    let mut t = ConnectionTable::new();
    let msg = Payload::Message { text: "hi".to_string() }.to_datagram();
    t.receive(&msg, "127.0.0.1".to_string(), 1);
    t.receive(&[], "127.0.0.1".to_string(), 2);
    t.receive(&[9, 9], "127.0.0.1".to_string(), 3);
    t.receive("hello".as_bytes(), "127.0.0.1".to_string(), 4);
    assert_eq!(t.len(), 0);
}

#[test]
fn receive_hands_back_datagram_and_sender() {
    let mut t = ConnectionTable::new();
    let msg = Payload::Message { text: "hey".to_string() }.to_datagram();
    let d = t.receive(&msg, "192.168.1.9".to_string(), 5555);
    assert_eq!(d.bytes, vec![1u8, b'h', b'e', b'y']);
    assert_eq!(d.address, "192.168.1.9");
    assert_eq!(d.port, 5555);
    let d = t.receive(&handshake(), "192.168.1.9".to_string(), 5555);
    assert_eq!(d.bytes, vec![0u8]);
    assert_eq!(t.len(), 1);
}

#[test]
fn broadcast_fan_out() {
    let mut t = ConnectionTable::new();
    t.receive(&handshake(), "127.0.0.1".to_string(), 5000);
    t.receive(&handshake(), "10.1.2.3".to_string(), 65535);
    t.receive(&handshake(), "127.0.0.1".to_string(), 5000);
    t.receive(&handshake(), "host".to_string(), 80);
    let out = t.broadcast(b"hi");
    assert_eq!(out.len(), 3);
    let destinations: Vec<&str> = out.iter().map(|o| o.destination.as_str()).collect();
    assert_eq!(destinations, vec!["127.0.0.1:5000", "10.1.2.3:65535", "host:80"]);
    assert!(out.iter().all(|o| o.bytes == b"hi".to_vec()));
}
