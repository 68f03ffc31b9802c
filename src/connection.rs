//! Connection records: a remote endpoint known by address and port.
use vstd::prelude::*;
use vstd::string::*;

verus! {

/// The decimal digit character of `d`, for `d < 10`.
pub open spec fn digit_char(d: nat) -> char {
    ((d + 48) as u8) as char
}

/// The decimal notation of `n`, without leading zeros.
pub open spec fn decimal(n: nat) -> Seq<char>
    decreases n,
{
    if n < 10 {
        seq![digit_char(n)]
    } else {
        decimal(n / 10) + seq![digit_char(n % 10)]
    }
}

/// The destination text `address:port` of an endpoint.
pub open spec fn endpoint_text(address: Seq<char>, port: u16) -> Seq<char> {
    address + seq![':'] + decimal(port as nat)
}

/// A remote endpoint as an address and a port.
pub type Peer = (Seq<char>, u16);

/// The destination text of a peer.
pub open spec fn peer_text(peer: Peer) -> Seq<char> {
    endpoint_text(peer.0, peer.1)
}

/// A datagram to send: its destination `address:port` and its bytes.
pub struct Outgoing {
    pub destination: String,
    pub bytes: Vec<u8>,
}

/// One remote endpoint, identified by its textual address and its port.
pub struct ConnectionRecord {
    pub address: String,
    pub port: u16,
}

impl View for ConnectionRecord {
    type V = Peer;

    open spec fn view(&self) -> Peer {
        (self.address@, self.port)
    }
}

/// The one-character string of the digit `d`.
fn digit_str(d: u16) -> (r: &'static str)
    requires
        d < 10,
    ensures
        r@ == seq![digit_char(d as nat)],
{
    proof {
        reveal_strlit("0");
        reveal_strlit("1");
        reveal_strlit("2");
        reveal_strlit("3");
        reveal_strlit("4");
        reveal_strlit("5");
        reveal_strlit("6");
        reveal_strlit("7");
        reveal_strlit("8");
        reveal_strlit("9");
    }
    match d {
        0 => "0",
        1 => "1",
        2 => "2",
        3 => "3",
        4 => "4",
        5 => "5",
        6 => "6",
        7 => "7",
        8 => "8",
        _ => "9",
    }
}

/// Appends the decimal notation of `n` to `s`.
fn push_decimal(s: &mut String, n: u16)
    ensures
        final(s)@ == old(s)@ + decimal(n as nat),
    decreases n,
{
    if n >= 10 {
        push_decimal(s, n / 10);
    }
    s.append(digit_str(n % 10));
    assert(final(s)@ =~= old(s)@ + decimal(n as nat));
}

impl ConnectionRecord {
    /// A record of the endpoint at `address` and `port`.
    pub fn new(address: String, port: u16) -> (r: ConnectionRecord)
        ensures
            r@ == (address@, port),
    {
        ConnectionRecord { address, port }
    }

    /// Whether this record names the endpoint at `address` and `port`.
    pub fn matches(&self, address: &String, port: u16) -> (r: bool)
        ensures
            r == (self@ == (address@, port)),
    {
        self.port == port && self.address == *address
    }

    /// The destination text `address:port` that datagrams to this endpoint are sent to.
    pub fn destination(&self) -> (r: String)
        ensures
            r@ == endpoint_text(self.address@, self.port),
    {
        let mut s = self.address.clone();
        s.append(":");
        proof {
            reveal_strlit(":");
        }
        push_decimal(&mut s, self.port);
        s
    }
}

} // verus!
