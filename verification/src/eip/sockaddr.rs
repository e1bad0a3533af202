//! Socket address items (O->T / T->O sockaddr info, ListIdentity). Unlike the
//! rest of EtherNet/IP these fields are big-endian, mirroring `struct sockaddr_in`.

use vstd::prelude::*;

use crate::error::{Error, Result};
use crate::text::{dec, push_char, push_dec};
use crate::wire::{advance, be16, be32, from_be16, from_be32, get_u16_be, get_u32_be, put_bytes, put_u16_be, put_u32_be, repeat};

verus! {

/// Length of a socket address item.
pub const SOCKADDR_SIZE: usize = 16;

const AF_INET: u16 = 2;

/// An IPv4 address and port. `ip` is the address as a number, most
/// significant octet first: 127.0.0.1 is `0x7F00_0001`.
#[derive(Debug, Clone, Copy, PartialEq, Eq, Structural, Hash, Default)]
pub struct SocketAddress {
    pub ip: u32,
    pub port: u16,
}

/// An address as `Ipv4Addr` and `SocketAddrV4` show it: the four octets in
/// decimal, separated by dots, then a colon and the port.
pub open spec fn address_text(addr: SocketAddress) -> Seq<char> {
    dec((addr.ip / 0x100_0000) as nat) + seq!['.'] + dec(((addr.ip / 0x1_0000) % 0x100) as nat) + seq!['.'] + dec(
        ((addr.ip / 0x100) % 0x100) as nat,
    ) + seq!['.'] + dec((addr.ip % 0x100) as nat) + seq![':'] + dec(addr.port as nat)
}

impl SocketAddress {
    pub fn new(ip: u32, port: u16) -> (r: Self)
        ensures
            r == (SocketAddress { ip, port }),
    {
        Self { ip, port }
    }

    /// The address as text, e.g. `192.168.1.15:44818`.
    pub fn to_string(&self) -> (r: String)
        ensures
            r@ == address_text(*self),
    {
        let mut s = String::new();
        push_dec(&mut s, (self.ip / 0x100_0000) as u64);
        push_char(&mut s, '.');
        push_dec(&mut s, ((self.ip / 0x1_0000) % 0x100) as u64);
        push_char(&mut s, '.');
        push_dec(&mut s, ((self.ip / 0x100) % 0x100) as u64);
        push_char(&mut s, '.');
        push_dec(&mut s, (self.ip % 0x100) as u64);
        push_char(&mut s, ':');
        push_dec(&mut s, self.port as u64);
        assert(s@ =~= address_text(*self));
        s
    }
}

/// The encoding of an address: family (AF_INET), port, address, eight zeros.
pub open spec fn sockaddr_bytes(addr: SocketAddress) -> Seq<u8> {
    be16(2) + be16(addr.port) + be32(addr.ip) + repeat(0, 8)
}

/// The address at the front of `s`; the family and padding are not checked.
pub open spec fn decode_sockaddr_spec(s: Seq<u8>) -> SocketAddress {
    SocketAddress { port: from_be16(s.skip(2)), ip: from_be32(s.skip(4)) }
}

/// Appends the 16-byte socket address item body.
pub fn encode_sockaddr(addr: SocketAddress, out: &mut Vec<u8>)
    ensures
        final(out)@ == old(out)@ + sockaddr_bytes(addr),
{
    put_u16_be(out, AF_INET);
    put_u16_be(out, addr.port);
    put_u32_be(out, addr.ip);
    put_bytes(out, 0, 8);
    assert(out@ =~= old(out)@ + sockaddr_bytes(addr));
}

/// Reads a 16-byte socket address item body from the front of `buf`.
pub fn decode_sockaddr(buf: &mut &[u8]) -> (r: Result<SocketAddress>)
    ensures
        old(buf)@.len() >= 16 ==> r == Ok::<SocketAddress, Error>(decode_sockaddr_spec(old(buf)@))
            && final(buf)@ == old(buf)@.skip(16),
        old(buf)@.len() < 16 ==> r == Err::<SocketAddress, Error>(
            Error::Truncated { requested: 16, available: old(buf)@.len() as usize },
        ),
{
    if buf.len() < SOCKADDR_SIZE {
        return Err(Error::Truncated { requested: SOCKADDR_SIZE, available: buf.len() });
    }
    let ghost start = buf@;
    get_u16_be(buf);
    let port = get_u16_be(buf);
    let ip = get_u32_be(buf);
    advance(buf, 8);
    assert(start.skip(2).skip(2) =~= start.skip(4));
    assert(buf@ =~= start.skip(16));
    Ok(SocketAddress { ip, port })
}

/// Decoding an encoded address gives it back.
pub proof fn lemma_sockaddr_round_trip(addr: SocketAddress, rest: Seq<u8>)
    ensures
        decode_sockaddr_spec(sockaddr_bytes(addr) + rest) == addr,
        (sockaddr_bytes(addr) + rest).len() >= 16,
{
    let s = sockaddr_bytes(addr) + rest;
    assert(s.skip(2)[0] == (addr.port / 0x100) as u8);
    assert(s.skip(2)[1] == (addr.port % 0x100) as u8);
    assert(s.skip(4)[0] == (addr.ip / 0x100_0000) as u8);
    assert(s.skip(4)[1] == ((addr.ip / 0x1_0000) % 0x100) as u8);
    assert(s.skip(4)[2] == ((addr.ip / 0x100) % 0x100) as u8);
    assert(s.skip(4)[3] == (addr.ip % 0x100) as u8);
}

} // verus!
