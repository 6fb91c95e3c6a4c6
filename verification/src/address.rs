//! IPv4 socket addresses as plain values.

use vstd::prelude::*;

verus! {

/// The 32-bit number whose big-endian encoding is the four given bytes.
pub open spec fn be32(b0: u8, b1: u8, b2: u8, b3: u8) -> u32 {
    (b0 as int * 0x100_0000 + b1 as int * 0x1_0000 + b2 as int * 0x100 + b3 as int) as u32
}

/// The four bytes that encode `value`, most significant first.
pub open spec fn be32_bytes(value: u32) -> Seq<u8> {
    seq![
        (value / 0x100_0000) as u8,
        (value / 0x1_0000 % 0x100) as u8,
        (value / 0x100 % 0x100) as u8,
        (value % 0x100) as u8,
    ]
}

/// An IPv4 address and a port: where a peer or a client can be reached.
///
/// The address is held as one number, its first octet most significant, so
/// that `a.b.c.d` is `be32(a, b, c, d)`.
#[derive(Clone, Copy, Debug, PartialEq, Eq, Structural, Hash)]
pub struct PeerAddress {
    pub ip: u32,
    pub port: u16,
}

impl PeerAddress {
    /// The address `octets[0].octets[1].octets[2].octets[3]:port`.
    pub fn from_octets(octets: [u8; 4], port: u16) -> (address: PeerAddress)
        ensures
            address.ip == be32(octets@[0], octets@[1], octets@[2], octets@[3]),
            address.port == port,
    {
        let ip: u32 = (octets[0] as u32) * 0x100_0000 + (octets[1] as u32) * 0x1_0000 + (
        octets[2] as u32) * 0x100 + (octets[3] as u32);
        PeerAddress { ip, port }
    }

    /// The four octets of the address, in the order in which they are written.
    pub fn octets(&self) -> (octets: [u8; 4])
        ensures
            octets@ == be32_bytes(self.ip),
    {
        let octets: [u8; 4] = [
            (self.ip / 0x100_0000) as u8,
            (self.ip / 0x1_0000 % 0x100) as u8,
            (self.ip / 0x100 % 0x100) as u8,
            (self.ip % 0x100) as u8,
        ];
        assert(octets@ =~= be32_bytes(self.ip));
        octets
    }
}

} // verus!
