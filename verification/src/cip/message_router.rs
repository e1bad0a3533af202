//! Message router requests and responses.

use vstd::prelude::*;
use vstd::string::*;

use super::epath::{encode_path, EPath, SegmentSize};
use super::types::{GeneralStatusCode, ServiceCode};
use crate::eip::CommonPacketItem;
use crate::error::{Error, Result};
use crate::wire::{from_le16, get_u16_le, get_u8, put_slice, put_u8, try_get_vec};

verus! {

/// A request: service, path size in 16-bit words, path, data.
pub open spec fn request_bytes(service: ServiceCode, path: Seq<u8>, data: Seq<u8>) -> Seq<u8> {
    seq![service.0, (path.len() / 2) as u8] + path + data
}

/// Encodes a message router request: service, path size in words, path, data.
pub fn encode_request(service: ServiceCode, path: &EPath, data: &[u8], size: SegmentSize) -> (out: Vec<u8>)
    ensures
        out@ == request_bytes(service, encode_path(path@, size), data@),
{
    let path_bytes = path.encode(size);
    let mut out: Vec<u8> = Vec::new();
    put_u8(&mut out, service.0);
    put_u8(&mut out, (path_bytes.len() / 2) as u8);
    put_slice(&mut out, path_bytes.as_slice());
    put_slice(&mut out, data);
    assert(out@ =~= request_bytes(service, encode_path(path@, size), data@));
    out
}

/// The `n` little-endian 16-bit words at the front of `s`.
pub open spec fn words(s: Seq<u8>, n: nat) -> Seq<u16> {
    Seq::new(n, |i: int| from_le16(s.skip(2 * i)))
}

#[derive(Debug, Clone, PartialEq)]
pub struct MessageRouterResponse {
    /// Reply service code; the request's code with bit 0x80 set.
    pub service: ServiceCode,
    pub general_status: GeneralStatusCode,
    pub additional_status: Vec<u16>,
    pub data: Vec<u8>,
    /// Common packet items after the unconnected data item, e.g. the socket
    /// address items in a Forward Open reply.
    pub additional_packet_items: Vec<CommonPacketItem>,
}

/// A reply the message router accepts: at least the 4-byte header, and as
/// many additional status words as the header announces.
pub open spec fn response_ok(s: Seq<u8>) -> bool {
    s.len() >= 4 && 2 * s[3] <= s.len() - 4
}

impl MessageRouterResponse {
    /// The service, general status, additional status words, and data of
    /// the reply `s`.
    pub open spec fn fields_from(self, s: Seq<u8>) -> bool {
        &&& self.service == ServiceCode(s[0])
        &&& self.general_status == GeneralStatusCode(s[2])
        &&& self.additional_status@ == words(s.skip(4), s[3] as nat)
        &&& self.data@ == s.skip(4 + 2 * s[3])
    }

    /// The reply decoded from `s`, with no additional packet items.
    pub open spec fn decoded_from(self, s: Seq<u8>) -> bool {
        &&& self.fields_from(s)
        &&& self.additional_packet_items@.len() == 0
    }

    /// Decodes a reply; fails with `InvalidPacket` when it is shorter than its
    /// header or than the additional status it announces.
    pub fn decode(data: &[u8]) -> (r: Result<Self>)
        ensures
            r is Ok <==> response_ok(data@),
            r matches Ok(m) ==> m.decoded_from(data@),
            r matches Err(e) ==> e is InvalidPacket,
    {
        if data.len() < 4 {
            return Err(Error::InvalidPacket(String::from_str("message router response must have at least 4 bytes")));
        }
        let mut buf = data;
        let service = ServiceCode(get_u8(&mut buf));
        get_u8(&mut buf);
        let general_status = GeneralStatusCode(get_u8(&mut buf));
        let additional_size = get_u8(&mut buf) as usize;
        assert(buf@ =~= data@.skip(4));
        if additional_size * 2 > buf.len() {
            return Err(Error::InvalidPacket(String::from_str("additional status has wrong size")));
        }
        let mut additional_status: Vec<u16> = Vec::new();
        let mut i: usize = 0;
        while i < additional_size
            invariant
                i <= additional_size,
                additional_size * 2 <= data@.len() - 4,
                additional_size == data@[3],
                buf@ == data@.skip(4 + 2 * i),
                additional_status@ == words(data@.skip(4), i as nat),
            decreases additional_size - i,
        {
            let ghost before = buf@;
            let w = get_u16_le(&mut buf);
            additional_status.push(w);
            i = i + 1;
            assert(before.skip(2) =~= data@.skip(4 + 2 * i));
            assert(data@.skip(4).skip(2 * (i - 1)) =~= before);
            assert(additional_status@ =~= words(data@.skip(4), i as nat));
        }
        let len = buf.len();
        let ghost rest = buf@;
        let data_vec = match try_get_vec(&mut buf, len) {
            Ok(v) => v,
            Err(e) => return Err(e),
        };
        assert(data_vec@ =~= rest);
        Ok(Self {
            service,
            general_status,
            additional_status,
            data: data_vec,
            additional_packet_items: Vec::new(),
        })
    }

    pub fn is_success(&self) -> (r: bool)
        ensures
            r == (self.general_status.0 == GeneralStatusCode::SUCCESS),
    {
        self.general_status.0 == GeneralStatusCode::SUCCESS
    }

    /// Returns `self` on success, or an [`Error::Cip`] carrying the status codes.
    pub fn check(self, context: &str) -> (r: Result<Self>)
        ensures
            self.general_status.0 == GeneralStatusCode::SUCCESS ==> r == Ok::<Self, Error>(self),
            self.general_status.0 != GeneralStatusCode::SUCCESS ==> (r matches Err(Error::Cip { context: c, status, additional })
                && c@ == context@ && status == self.general_status && additional == self.additional_status),
    {
        if self.is_success() {
            Ok(self)
        } else {
            Err(Error::Cip {
                context: String::from_str(context),
                status: self.general_status,
                additional: self.additional_status,
            })
        }
    }
}

} // verus!
