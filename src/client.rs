//! The client's side of the protocol: the record of its server, the handshake,
//! and where its messages go.
use vstd::prelude::*;
use crate::codec::{wire_bytes, Payload, PayloadModel};
use crate::connection::{endpoint_text, peer_text, ConnectionRecord, Outgoing, Peer};

verus! {

/// Why a client could not send.
#[derive(Debug, Clone, Copy, PartialEq, Eq, Structural)]
pub enum SendError {
    /// No server has been connected to.
    NotConnected,
}

/// A client's view of its server: absent until it connects.
pub struct ClientSession {
    server: Option<ConnectionRecord>,
}

impl View for ClientSession {
    type V = Option<Peer>;

    closed spec fn view(&self) -> Option<Peer> {
        match self.server {
            Some(r) => Some(r@),
            None => None,
        }
    }
}

impl ClientSession {
    /// A session with no server.
    pub fn new() -> (r: ClientSession)
        ensures
            r@ == None::<Peer>,
    {
        ClientSession { server: None }
    }

    /// Whether a server has been recorded.
    pub fn is_connected(&self) -> (r: bool)
        ensures
            r == self@ is Some,
    {
        self.server.is_some()
    }

    /// The recorded server, if any.
    pub fn server(&self) -> (r: Option<&ConnectionRecord>)
        ensures
            match r {
                Some(rec) => self@ == Some(rec@),
                None => self@ is None,
            },
    {
        match &self.server {
            Some(rec) => Some(rec),
            None => None,
        }
    }

    /// Records the server at `address` and `port`, replacing any earlier one, and
    /// returns the handshake to send to it. Nothing waits for an answer.
    pub fn connect_to_server(&mut self, address: String, port: u16) -> (r: Outgoing)
        ensures
            final(self)@ == Some((address@, port)),
            r.destination@ == endpoint_text(address@, port),
            r.bytes@ == wire_bytes(PayloadModel::Connect),
    {
        let record = ConnectionRecord::new(address, port);
        let destination = record.destination();
        self.server = Some(record);
        Outgoing { destination, bytes: Payload::Connect.to_datagram() }
    }

    /// The datagram that sends `payload` to the recorded server; an error when no
    /// server has been connected to.
    pub fn send(&self, payload: &Payload) -> (r: Result<Outgoing, SendError>)
        ensures
            self@ is None <==> r is Err,
            r matches Err(e) ==> e == SendError::NotConnected,
            r matches Ok(o) ==> o.destination@ == peer_text(self@->0)
                && o.bytes@ == wire_bytes(payload@),
    {
        match &self.server {
            Some(rec) => Ok(Outgoing { destination: rec.destination(), bytes: payload.to_datagram() }),
            None => Err(SendError::NotConnected),
        }
    }
}

} // verus!
