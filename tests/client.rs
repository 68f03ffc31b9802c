use hermes::{ClientSession, ConnectionTable, Payload, SendError};

#[test]
fn send_without_connection_fails() {
    let c = ClientSession::new();
    assert!(!c.is_connected());
    assert!(c.server().is_none());
    let r = c.send(&Payload::Message { text: "hi".to_string() });
    assert_eq!(r.err(), Some(SendError::NotConnected));
}

#[test]
fn connect_records_server_and_returns_handshake() {
    let mut c = ClientSession::new();
    let h = c.connect_to_server("127.0.0.1".to_string(), 1337);
    assert_eq!(h.destination, "127.0.0.1:1337");
    assert_eq!(h.bytes, vec![0u8]);
    assert!(c.is_connected());
    let server = c.server().unwrap();
    assert_eq!(server.address, "127.0.0.1");
    assert_eq!(server.port, 1337);
}

#[test]
fn send_goes_to_recorded_server() {
    let mut c = ClientSession::new();
    c.connect_to_server("10.0.0.1".to_string(), 9000);
    let o = c.send(&Payload::Message { text: "hello".to_string() }).unwrap();
    assert_eq!(o.destination, "10.0.0.1:9000");
    assert_eq!(o.bytes, vec![1u8, b'h', b'e', b'l', b'l', b'o']);
    c.connect_to_server("10.0.0.2".to_string(), 9001);
    let o = c.send(&Payload::Connect).unwrap();
    assert_eq!(o.destination, "10.0.0.2:9001");
    assert_eq!(o.bytes, vec![0u8]);
}

#[test]
fn end_to_end_exchange() {
    let server_port: u16 = 1337;
    let client_port: u16 = 50123;
    let mut table = ConnectionTable::new();
    let mut client = ClientSession::new();

    let h = client.connect_to_server("127.0.0.1".to_string(), server_port);
    assert_eq!(h.destination, "127.0.0.1:1337");

    let d = table.receive(&h.bytes, "127.0.0.1".to_string(), client_port);
    assert!(!d.bytes.is_empty());
    assert_eq!(d.address, "127.0.0.1");
    assert_eq!(d.port, client_port);
    assert_eq!(table.len(), 1);
    assert_eq!(table.record(0).address, "127.0.0.1");
    assert_eq!(table.record(0).port, client_port);

    let out = table.broadcast("hi".as_bytes());
    assert_eq!(out.len(), 1);
    assert_eq!(out[0].destination, "127.0.0.1:50123");
    assert_eq!(out[0].bytes, "hi".as_bytes().to_vec());
}
