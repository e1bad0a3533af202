//! Forward Close request body.

use vstd::prelude::*;

use crate::wire::{le16, le32, put_slice, put_u16_le, put_u32_le, put_u8};

verus! {

#[derive(Debug, Clone, Default, PartialEq, Eq)]
pub struct ForwardCloseRequest {
    pub connection_serial_number: u16,
    pub originator_vendor_id: u16,
    pub originator_serial_number: u32,
    pub connection_path: Vec<u8>,
}

/// The request body: zero ticks, the connection's serial numbers, the path
/// size in words (rounded up, modulo 256), a reserved byte, and the path.
pub open spec fn forward_close_bytes(r: ForwardCloseRequest) -> Seq<u8> {
    seq![0u8, 0u8] + le16(r.connection_serial_number) + le16(r.originator_vendor_id) + le32(
        r.originator_serial_number,
    ) + seq![((r.connection_path@.len() + 1) / 2) as u8, 0u8] + r.connection_path@
}

impl ForwardCloseRequest {
    pub fn encode(&self) -> (out: Vec<u8>)
        ensures
            out@ == forward_close_bytes(*self),
    {
        let mut out: Vec<u8> = Vec::new();
        put_u8(&mut out, 0);
        put_u8(&mut out, 0);
        put_u16_le(&mut out, self.connection_serial_number);
        put_u16_le(&mut out, self.originator_vendor_id);
        put_u32_le(&mut out, self.originator_serial_number);
        let len = self.connection_path.len();
        put_u8(&mut out, ((len / 2) + (len % 2)) as u8);
        put_u8(&mut out, 0);
        put_slice(&mut out, self.connection_path.as_slice());
        assert(out@ =~= forward_close_bytes(*self));
        out
    }
}

} // verus!
