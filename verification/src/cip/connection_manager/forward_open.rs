//! Forward Open and Large Forward Open request bodies, and the reply.

use vstd::prelude::*;

use super::params::{encode_params, encode_transport, NetworkParams, TransportTrigger};
use crate::error::{Error, Result};
use crate::wire::{
    from_le16, from_le32, le16, le32, put_bytes, put_slice, put_u16_le, put_u32_le, put_u8, repeat, truncated,
    try_get_u16_le, try_get_u32_le, try_get_u8, try_get_vec,
};

verus! {

/// A Forward Open request body, field for field.
#[derive(Debug, Clone, Default, PartialEq, Eq)]
pub struct ForwardOpenRequest {
    pub priority_time_tick: u8,
    pub timeout_ticks: u8,
    pub o2t_connection_id: u32,
    pub t2o_connection_id: u32,
    pub connection_serial_number: u16,
    pub originator_vendor_id: u16,
    pub originator_serial_number: u32,
    pub connection_timeout_multiplier: u8,
    /// Microseconds.
    pub o2t_rpi: u32,
    pub o2t_params: NetworkParams,
    /// Microseconds.
    pub t2o_rpi: u32,
    pub t2o_params: NetworkParams,
    pub transport: TransportTrigger,
    /// Complete connection path, including any configuration data segment.
    pub path: Vec<u8>,
}

/// Network parameters in a request: 32 bits in a Large Forward Open, else 16.
pub open spec fn params_bytes(p: NetworkParams, large: bool) -> Seq<u8> {
    if large {
        le32(encode_params(p, true))
    } else {
        le16(encode_params(p, false) as u16)
    }
}

/// The size of a path in 16-bit words, rounded up (modulo 256).
pub open spec fn path_words(len: nat) -> u8 {
    ((len + 1) / 2) as u8
}

/// The request body: ticks, connection IDs, serial numbers, timeout
/// multiplier and three reserved bytes, each direction's RPI and network
/// parameters, transport, path size in words, and the path.
pub open spec fn forward_open_bytes(r: ForwardOpenRequest, large: bool) -> Seq<u8> {
    seq![r.priority_time_tick, r.timeout_ticks] + le32(r.o2t_connection_id) + le32(r.t2o_connection_id) + le16(
        r.connection_serial_number,
    ) + le16(r.originator_vendor_id) + le32(r.originator_serial_number) + seq![r.connection_timeout_multiplier]
        + repeat(0, 3) + le32(r.o2t_rpi) + params_bytes(r.o2t_params, large) + le32(r.t2o_rpi) + params_bytes(
        r.t2o_params,
        large,
    ) + seq![encode_transport(r.transport), path_words(r.path@.len())] + r.path@
}

fn put_params(out: &mut Vec<u8>, params: &NetworkParams, large: bool)
    ensures
        final(out)@ == old(out)@ + params_bytes(*params, large),
{
    if large {
        put_u32_le(out, params.encode(true));
    } else {
        put_u16_le(out, params.encode(false) as u16);
    }
}

impl ForwardOpenRequest {
    /// Encodes a Forward Open (`large = false`, 16-bit network parameters) or
    /// Large Forward Open (`large = true`, 32-bit) request body.
    pub fn encode(&self, large: bool) -> (out: Vec<u8>)
        ensures
            out@ == forward_open_bytes(*self, large),
    {
        let mut out: Vec<u8> = Vec::new();
        put_u8(&mut out, self.priority_time_tick);
        put_u8(&mut out, self.timeout_ticks);
        put_u32_le(&mut out, self.o2t_connection_id);
        put_u32_le(&mut out, self.t2o_connection_id);
        put_u16_le(&mut out, self.connection_serial_number);
        put_u16_le(&mut out, self.originator_vendor_id);
        put_u32_le(&mut out, self.originator_serial_number);
        put_u8(&mut out, self.connection_timeout_multiplier);
        put_bytes(&mut out, 0, 3);
        put_u32_le(&mut out, self.o2t_rpi);
        put_params(&mut out, &self.o2t_params, large);
        put_u32_le(&mut out, self.t2o_rpi);
        put_params(&mut out, &self.t2o_params, large);
        put_u8(&mut out, self.transport.encode());
        put_u8(&mut out, ((self.path.len() / 2) + (self.path.len() % 2)) as u8);
        put_slice(&mut out, self.path.as_slice());
        assert(out@ =~= forward_open_bytes(*self, large));
        out
    }
}

/// Successful Forward Open reply.
#[derive(Debug, Clone, Default, PartialEq, Eq)]
pub struct ForwardOpenResponse {
    pub o2t_network_connection_id: u32,
    pub t2o_network_connection_id: u32,
    pub connection_serial_number: u16,
    pub originator_vendor_id: u16,
    pub originator_serial_number: u32,
    /// Actual packet interval, microseconds.
    pub o2t_api: u32,
    /// Actual packet interval, microseconds.
    pub t2o_api: u32,
    pub application_reply: Vec<u8>,
}

/// A reply decodes when it holds the 26 bytes of fixed fields and the
/// application reply whose size in words the 25th byte gives.
pub open spec fn forward_open_reply_ok(s: Seq<u8>) -> bool {
    s.len() >= 26 && s.len() - 26 >= 2 * s[24]
}

/// Where decoding a short reply stops: the size of the first field that
/// is cut short, and how many bytes were left for it.
pub open spec fn reply_shortfall(s: Seq<u8>) -> (usize, nat) {
    let n = s.len();
    if n < 4 {
        (4, n)
    } else if n < 8 {
        (4, (n - 4) as nat)
    } else if n < 10 {
        (2, (n - 8) as nat)
    } else if n < 12 {
        (2, (n - 10) as nat)
    } else if n < 16 {
        (4, (n - 12) as nat)
    } else if n < 20 {
        (4, (n - 16) as nat)
    } else if n < 24 {
        (4, (n - 20) as nat)
    } else if n < 25 {
        (1, (n - 24) as nat)
    } else if n < 26 {
        (1, (n - 25) as nat)
    } else {
        ((2 * s[24]) as usize, (n - 26) as nat)
    }
}

impl ForwardOpenResponse {
    /// The reply decoded from `s`.
    pub open spec fn decoded_from(self, s: Seq<u8>) -> bool {
        &&& self.o2t_network_connection_id == from_le32(s)
        &&& self.t2o_network_connection_id == from_le32(s.skip(4))
        &&& self.connection_serial_number == from_le16(s.skip(8))
        &&& self.originator_vendor_id == from_le16(s.skip(10))
        &&& self.originator_serial_number == from_le32(s.skip(12))
        &&& self.o2t_api == from_le32(s.skip(16))
        &&& self.t2o_api == from_le32(s.skip(20))
        &&& self.application_reply@ == s.subrange(26, 26 + 2 * s[24])
    }

    /// Decodes a reply; fails with `Truncated` for the first field that is
    /// cut short: its size, and the bytes that were left for it.
    pub fn decode(data: &[u8]) -> (r: Result<Self>)
        ensures
            r is Ok <==> forward_open_reply_ok(data@),
            r matches Ok(resp) ==> resp.decoded_from(data@),
            r matches Err(e) ==> e == truncated(reply_shortfall(data@).0, reply_shortfall(data@).1),
    {
        let ghost d = data@;
        let mut buf = data;
        let o2t_network_connection_id = match try_get_u32_le(&mut buf) {
            Ok(v) => v,
            Err(e) => return Err(e),
        };
        let t2o_network_connection_id = match try_get_u32_le(&mut buf) {
            Ok(v) => v,
            Err(e) => return Err(e),
        };
        assert(d.skip(4).skip(4) =~= d.skip(8));
        let connection_serial_number = match try_get_u16_le(&mut buf) {
            Ok(v) => v,
            Err(e) => return Err(e),
        };
        assert(d.skip(8).skip(2) =~= d.skip(10));
        let originator_vendor_id = match try_get_u16_le(&mut buf) {
            Ok(v) => v,
            Err(e) => return Err(e),
        };
        assert(d.skip(10).skip(2) =~= d.skip(12));
        let originator_serial_number = match try_get_u32_le(&mut buf) {
            Ok(v) => v,
            Err(e) => return Err(e),
        };
        assert(d.skip(12).skip(4) =~= d.skip(16));
        let o2t_api = match try_get_u32_le(&mut buf) {
            Ok(v) => v,
            Err(e) => return Err(e),
        };
        assert(d.skip(16).skip(4) =~= d.skip(20));
        let t2o_api = match try_get_u32_le(&mut buf) {
            Ok(v) => v,
            Err(e) => return Err(e),
        };
        assert(d.skip(20).skip(4) =~= d.skip(24));
        let reply_words = match try_get_u8(&mut buf) {
            Ok(v) => v as usize,
            Err(e) => return Err(e),
        };
        assert(d.skip(24)[0] == d[24]);
        assert(d.skip(24).skip(1) =~= d.skip(25));
        match try_get_u8(&mut buf) {
            Ok(_) => {},
            Err(e) => return Err(e),
        }
        assert(buf@ =~= d.skip(26));
        let application_reply = match try_get_vec(&mut buf, reply_words * 2) {
            Ok(v) => v,
            Err(e) => return Err(e),
        };
        assert(application_reply@ =~= data@.subrange(26, 26 + 2 * reply_words));
        Ok(Self {
            o2t_network_connection_id,
            t2o_network_connection_id,
            connection_serial_number,
            originator_vendor_id,
            originator_serial_number,
            o2t_api,
            t2o_api,
            application_reply,
        })
    }
}

} // verus!
