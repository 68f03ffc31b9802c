//! The server's side of the protocol: the table of clients that completed a
//! handshake, what a received datagram does to it, and where a broadcast goes.
use vstd::prelude::*;
use vstd::slice::*;
use crate::codec::{decode_spec, DecodeError, Payload, PayloadModel};
use crate::connection::{peer_text, ConnectionRecord, Outgoing, Peer};

verus! {

/// Whether a received datagram is a handshake: it decodes to `Connect`.
pub open spec fn is_handshake(bytes: Seq<u8>) -> bool {
    decode_spec(bytes) == Ok::<PayloadModel, DecodeError>(PayloadModel::Connect)
}

/// The table after a handshake from `peer`: the peer is appended unless it is
/// already there.
pub open spec fn register(table: Seq<Peer>, peer: Peer) -> Seq<Peer> {
    if table.contains(peer) {
        table
    } else {
        table.push(peer)
    }
}

/// The table after a datagram `bytes` from `peer`: only a handshake changes it.
pub open spec fn after_datagram(table: Seq<Peer>, bytes: Seq<u8>, peer: Peer) -> Seq<Peer> {
    if is_handshake(bytes) {
        register(table, peer)
    } else {
        table
    }
}

/// The table after the datagrams `received`, each a pair of bytes and sender,
/// handled in order.
pub open spec fn after_datagrams(table: Seq<Peer>, received: Seq<(Seq<u8>, Peer)>) -> Seq<Peer>
    decreases received.len(),
{
    if received.len() == 0 {
        table
    } else {
        let (bytes, peer) = received.last();
        after_datagram(after_datagrams(table, received.drop_last()), bytes, peer)
    }
}

/// The senders of the datagrams `received`, in order.
pub open spec fn senders(received: Seq<(Seq<u8>, Peer)>) -> Seq<Peer> {
    received.map_values(|d: (Seq<u8>, Peer)| d.1)
}

/// Any number of handshakes, at least one, from one endpoint leave an empty
/// table with exactly one record, that of the endpoint.
pub proof fn lemma_handshake_dedup(received: Seq<(Seq<u8>, Peer)>, peer: Peer)
    requires
        received.len() >= 1,
        forall|i: int| 0 <= i < received.len() ==> is_handshake(#[trigger] received[i].0),
        forall|i: int| 0 <= i < received.len() ==> #[trigger] received[i].1 == peer,
    ensures
        after_datagrams(Seq::empty(), received) == seq![peer],
    decreases received.len(),
{
    let rest = received.drop_last();
    if received.len() == 1 {
        assert(after_datagrams(Seq::empty(), rest) == Seq::<Peer>::empty());
        assert(Seq::<Peer>::empty().push(peer) =~= seq![peer]);
    } else {
        assert(forall|i: int| 0 <= i < rest.len() ==> rest[i] == received[i]);
        lemma_handshake_dedup(rest, peer);
        assert(seq![peer].contains(peer)) by {
            assert(seq![peer][0] == peer);
        }
    }
}

/// Handshakes from distinct endpoints leave an empty table with exactly one
/// record per sender, in the order the handshakes came.
pub proof fn lemma_handshake_multiplicity(received: Seq<(Seq<u8>, Peer)>)
    requires
        forall|i: int| 0 <= i < received.len() ==> is_handshake(#[trigger] received[i].0),
        senders(received).no_duplicates(),
    ensures
        after_datagrams(Seq::empty(), received) == senders(received),
    decreases received.len(),
{
    if received.len() == 0 {
        assert(senders(received) =~= Seq::<Peer>::empty());
    } else {
        let rest = received.drop_last();
        let last = received.last();
        assert(forall|i: int| 0 <= i < rest.len() ==> rest[i] == received[i]);
        assert(senders(rest) =~= senders(received).drop_last());
        lemma_handshake_multiplicity(rest);
        assert(!senders(rest).contains(last.1)) by {
            if senders(rest).contains(last.1) {
                let k = choose|k: int| 0 <= k < senders(rest).len() && senders(rest)[k] == last.1;
                assert(senders(received)[k] == senders(received)[received.len() - 1]);
            }
        }
        assert(senders(rest).push(last.1) =~= senders(received));
    }
}

/// A datagram as it was received: its bytes and its sender.
pub struct Datagram {
    pub bytes: Vec<u8>,
    pub address: String,
    pub port: u16,
}

/// The connection table of a server: one record per client that completed a
/// handshake, in the order of their first handshake. Records are never removed.
pub struct ConnectionTable {
    records: Vec<ConnectionRecord>,
}

impl View for ConnectionTable {
    type V = Seq<Peer>;

    closed spec fn view(&self) -> Seq<Peer> {
        self.records@.map_values(|r: ConnectionRecord| r@)
    }
}

impl ConnectionTable {
    /// No endpoint appears twice in the table.
    pub open spec fn wf(&self) -> bool {
        self@.no_duplicates()
    }

    /// An empty table.
    pub fn new() -> (r: ConnectionTable)
        ensures
            r@ == Seq::<Peer>::empty(),
            r.wf(),
    {
        let r = ConnectionTable { records: Vec::new() };
        assert(r@ =~= Seq::<Peer>::empty());
        r
    }

    /// Number of records.
    pub fn len(&self) -> (r: usize)
        ensures
            r == self@.len(),
    {
        self.records.len()
    }

    /// The record at position `i`.
    pub fn record(&self, i: usize) -> (r: &ConnectionRecord)
        requires
            i < self@.len(),
        ensures
            r@ == self@[i as int],
    {
        &self.records[i]
    }

    /// Whether the endpoint at `address` and `port` has a record.
    pub fn contains(&self, address: &String, port: u16) -> (r: bool)
        ensures
            r == self@.contains((address@, port)),
    {
        let mut i: usize = 0;
        while i < self.records.len()
            invariant
                i <= self@.len(),
                forall|j: int| 0 <= j < i ==> self@[j] != (address@, port),
            decreases self@.len() - i,
        {
            if self.records[i].matches(address, port) {
                assert(self@[i as int] == (address@, port));
                return true;
            }
            i = i + 1;
        }
        false
    }

    /// Handles one datagram received from `address` and `port`: a handshake from
    /// an endpoint without a record appends one. Whatever the payload, the
    /// datagram is handed back to the caller.
    pub fn receive(&mut self, bytes: &[u8], address: String, port: u16) -> (r: Datagram)
        requires
            old(self).wf(),
        ensures
            final(self).wf(),
            final(self)@ == after_datagram(old(self)@, bytes@, (address@, port)),
            r.bytes@ == bytes@,
            r.address@ == address@,
            r.port == port,
    {
        let handshake = match Payload::deserialize_from_bytes(bytes) {
            Ok(Payload::Connect) => true,
            _ => false,
        };
        if handshake && !self.contains(&address, port) {
            let record = ConnectionRecord::new(address.clone(), port);
            self.records.push(record);
            assert(self@ =~= old(self)@.push((address@, port)));
        }
        Datagram { bytes: slice_to_vec(bytes), address, port }
    }

    /// The datagrams of a broadcast of `message`: one per record, in the order of
    /// the table, each to that record's `address:port` and holding `message`.
    pub fn broadcast(&self, message: &[u8]) -> (r: Vec<Outgoing>)
        ensures
            r@.len() == self@.len(),
            forall|i: int|
                0 <= i < r@.len() ==> (#[trigger] r@[i]).destination@ == peer_text(self@[i])
                    && r@[i].bytes@ == message@,
    {
        let mut out: Vec<Outgoing> = Vec::new();
        let mut i: usize = 0;
        while i < self.records.len()
            invariant
                i <= self@.len(),
                out@.len() == i,
                forall|j: int|
                    0 <= j < i ==> (#[trigger] out@[j]).destination@ == peer_text(self@[j])
                        && out@[j].bytes@ == message@,
            decreases self@.len() - i,
        {
            let destination = self.records[i].destination();
            out.push(Outgoing { destination, bytes: slice_to_vec(message) });
            i = i + 1;
        }
        out
    }
}

} // verus!
