//! The encapsulation header: command, length, session handle, status,
//! sender context, options, then the command data.

use vstd::prelude::*;
use vstd::std_specs::convert::FromSpecImpl;
use vstd::string::*;

use crate::error::{Error, Result};
use crate::text::{dec, hex, push_dec, push_hex};
use crate::wire::{from_le16, from_le32, get_u16_le, get_u32_le, get_u8, le16, le32, lemma_le16, lemma_le32, put_slice, put_u16_le, put_u32_le};

verus! {

/// Encapsulation commands.
#[derive(Clone, Copy, PartialEq, Eq, Structural, Hash, PartialOrd, Ord, Default, Debug)]
pub struct EncapsCommand(pub u16);

/// The constants are the wire values: `EncapsCommand(EncapsCommand::X)` is the code `X`.
impl EncapsCommand {
    pub const NOP: u16 = 0x0000;
    pub const LIST_SERVICES: u16 = 0x0004;
    pub const LIST_IDENTITY: u16 = 0x0063;
    pub const LIST_INTERFACES: u16 = 0x0064;
    pub const REGISTER_SESSION: u16 = 0x0065;
    pub const UN_REGISTER_SESSION: u16 = 0x0066;
    pub const SEND_RR_DATA: u16 = 0x006F;
    pub const SEND_UNIT_DATA: u16 = 0x0070;
    pub const INDICATE_STATUS: u16 = 0x0072;
    pub const CANCEL: u16 = 0x0073;

    /// The name of a code this crate knows.
    pub open spec fn name_of(v: u16) -> Option<&'static str> {
        match v {
            0x0000 => Some("NOP"),
            0x0004 => Some("LIST_SERVICES"),
            0x0063 => Some("LIST_IDENTITY"),
            0x0064 => Some("LIST_INTERFACES"),
            0x0065 => Some("REGISTER_SESSION"),
            0x0066 => Some("UN_REGISTER_SESSION"),
            0x006F => Some("SEND_RR_DATA"),
            0x0070 => Some("SEND_UNIT_DATA"),
            0x0072 => Some("INDICATE_STATUS"),
            0x0073 => Some("CANCEL"),
            _ => None,
        }
    }

    /// Name of the code, if it is one this crate knows.
    pub fn name(self) -> (r: Option<&'static str>)
        ensures
            r == Self::name_of(self.0),
    {
        match self.0 {
            0x0000 => Some("NOP"),
            0x0004 => Some("LIST_SERVICES"),
            0x0063 => Some("LIST_IDENTITY"),
            0x0064 => Some("LIST_INTERFACES"),
            0x0065 => Some("REGISTER_SESSION"),
            0x0066 => Some("UN_REGISTER_SESSION"),
            0x006F => Some("SEND_RR_DATA"),
            0x0070 => Some("SEND_UNIT_DATA"),
            0x0072 => Some("INDICATE_STATUS"),
            0x0073 => Some("CANCEL"),
            _ => None,
        }
    }

    /// `NAME(0x..)` for a known code, `EncapsCommand(0x..)` otherwise.
    pub open spec fn display(self) -> Seq<char> {
        Self::display_name(self.0) + "(0x"@ + hex(self.0 as nat) + ")"@
    }

    /// The name of a known code, or the type's name.
    pub open spec fn display_name(v: u16) -> Seq<char> {
        match Self::name_of(v) {
            Some(n) => n@,
            None => "EncapsCommand"@,
        }
    }

    /// The code's name and value, e.g. `RED(0x1)`.
    pub fn to_string(&self) -> (r: String)
        ensures
            r@ == self.display(),
    {
        let ghost head = Self::display_name(self.0);
        let mut s = match self.name() {
            Some(n) => String::from_str(n),
            None => String::from_str("EncapsCommand"),
        };
        assert(s@ == head);
        s.append("(0x");
        push_hex(&mut s, self.0 as u64);
        assert(s@ == head + "(0x"@ + hex(self.0 as nat));
        s.append(")");
        assert(s@ =~= self.display());
        s
    }
}

impl From<u16> for EncapsCommand {
    fn from(v: u16) -> (r: Self) {
        Self(v)
    }
}

impl FromSpecImpl<u16> for EncapsCommand {
    open spec fn obeys_from_spec() -> bool {
        true
    }

    open spec fn from_spec(v: u16) -> Self {
        Self(v)
    }
}

impl From<EncapsCommand> for u16 {
    fn from(v: EncapsCommand) -> (r: u16) {
        v.0
    }
}

impl FromSpecImpl<EncapsCommand> for u16 {
    open spec fn obeys_from_spec() -> bool {
        true
    }

    open spec fn from_spec(v: EncapsCommand) -> Self {
        v.0
    }
}
/// Encapsulation status codes.
#[derive(Clone, Copy, PartialEq, Eq, Structural, Hash, PartialOrd, Ord, Default, Debug)]
pub struct EncapsStatus(pub u32);

/// The constants are the wire values: `EncapsStatus(EncapsStatus::X)` is the code `X`.
impl EncapsStatus {
    pub const SUCCESS: u32 = 0x0000;
    pub const UNSUPPORTED_COMMAND: u32 = 0x0001;
    pub const INSUFFICIENT_MEMORY: u32 = 0x0002;
    pub const INVALID_FORMAT_OR_DATA: u32 = 0x0003;
    pub const INVALID_SESSION_HANDLE: u32 = 0x0064;
    pub const UNSUPPORTED_PROTOCOL_VERSION: u32 = 0x0069;

    /// The name of a code this crate knows.
    pub open spec fn name_of(v: u32) -> Option<&'static str> {
        match v {
            0x0000 => Some("SUCCESS"),
            0x0001 => Some("UNSUPPORTED_COMMAND"),
            0x0002 => Some("INSUFFICIENT_MEMORY"),
            0x0003 => Some("INVALID_FORMAT_OR_DATA"),
            0x0064 => Some("INVALID_SESSION_HANDLE"),
            0x0069 => Some("UNSUPPORTED_PROTOCOL_VERSION"),
            _ => None,
        }
    }

    /// Name of the code, if it is one this crate knows.
    pub fn name(self) -> (r: Option<&'static str>)
        ensures
            r == Self::name_of(self.0),
    {
        match self.0 {
            0x0000 => Some("SUCCESS"),
            0x0001 => Some("UNSUPPORTED_COMMAND"),
            0x0002 => Some("INSUFFICIENT_MEMORY"),
            0x0003 => Some("INVALID_FORMAT_OR_DATA"),
            0x0064 => Some("INVALID_SESSION_HANDLE"),
            0x0069 => Some("UNSUPPORTED_PROTOCOL_VERSION"),
            _ => None,
        }
    }

    /// `NAME(0x..)` for a known code, `EncapsStatus(0x..)` otherwise.
    pub open spec fn display(self) -> Seq<char> {
        Self::display_name(self.0) + "(0x"@ + hex(self.0 as nat) + ")"@
    }

    /// The name of a known code, or the type's name.
    pub open spec fn display_name(v: u32) -> Seq<char> {
        match Self::name_of(v) {
            Some(n) => n@,
            None => "EncapsStatus"@,
        }
    }

    /// The code's name and value, e.g. `RED(0x1)`.
    pub fn to_string(&self) -> (r: String)
        ensures
            r@ == self.display(),
    {
        let ghost head = Self::display_name(self.0);
        let mut s = match self.name() {
            Some(n) => String::from_str(n),
            None => String::from_str("EncapsStatus"),
        };
        assert(s@ == head);
        s.append("(0x");
        push_hex(&mut s, self.0 as u64);
        assert(s@ == head + "(0x"@ + hex(self.0 as nat));
        s.append(")");
        assert(s@ =~= self.display());
        s
    }
}

impl From<u32> for EncapsStatus {
    fn from(v: u32) -> (r: Self) {
        Self(v)
    }
}

impl FromSpecImpl<u32> for EncapsStatus {
    open spec fn obeys_from_spec() -> bool {
        true
    }

    open spec fn from_spec(v: u32) -> Self {
        Self(v)
    }
}

impl From<EncapsStatus> for u32 {
    fn from(v: EncapsStatus) -> (r: u32) {
        v.0
    }
}

impl FromSpecImpl<EncapsStatus> for u32 {
    open spec fn obeys_from_spec() -> bool {
        true
    }

    open spec fn from_spec(v: EncapsStatus) -> Self {
        v.0
    }
}
/// Length of the encapsulation header.
pub const HEADER_SIZE: usize = 24;

/// Encapsulation packet: 24-byte header followed by command data.
#[derive(Debug, Clone, Default, PartialEq, Eq)]
pub struct EncapsPacket {
    pub command: EncapsCommand,
    pub session_handle: u32,
    pub status: EncapsStatus,
    pub sender_context: [u8; 8],
    pub options: u32,
    pub data: Vec<u8>,
}

/// What a packet holds, with its sender context and data as sequences.
pub ghost struct EncapsView {
    pub command: u16,
    pub session_handle: u32,
    pub status: u32,
    pub sender_context: Seq<u8>,
    pub options: u32,
    pub data: Seq<u8>,
}

impl View for EncapsPacket {
    type V = EncapsView;

    open spec fn view(&self) -> EncapsView {
        EncapsView {
            command: self.command.0,
            session_handle: self.session_handle,
            status: self.status.0,
            sender_context: self.sender_context@,
            options: self.options,
            data: self.data@,
        }
    }
}

/// The encoding of a packet: command, data length (modulo 2^16), session
/// handle, status, sender context, options, data.
pub open spec fn encaps_bytes(p: EncapsView) -> Seq<u8> {
    le16(p.command) + le16(p.data.len() as u16) + le32(p.session_handle) + le32(p.status) + p.sender_context
        + le32(p.options) + p.data
}

/// A packet decodes when it holds the whole header and exactly as much data
/// as the header's length field says.
pub open spec fn encaps_ok(s: Seq<u8>) -> bool {
    s.len() >= 24 && s.len() - 24 == from_le16(s.skip(2))
}

/// The packet a well-formed encoding holds.
pub open spec fn decode_encaps(s: Seq<u8>) -> EncapsView {
    EncapsView {
        command: from_le16(s),
        session_handle: from_le32(s.skip(4)),
        status: from_le32(s.skip(8)),
        sender_context: s.subrange(12, 20),
        options: from_le32(s.skip(20)),
        data: s.skip(24),
    }
}

/// Decoding an encoded packet gives it back, when its data fits the 16-bit
/// length field.
pub proof fn lemma_encaps_round_trip(p: EncapsView)
    requires
        p.sender_context.len() == 8,
        p.data.len() <= 0xFFFF,
    ensures
        encaps_ok(encaps_bytes(p)),
        decode_encaps(encaps_bytes(p)) == p,
{
    let s = encaps_bytes(p);
    lemma_le16(p.command);
    lemma_le16(p.data.len() as u16);
    lemma_le32(p.session_handle);
    lemma_le32(p.status);
    lemma_le32(p.options);
    assert(s.take(2) =~= le16(p.command));
    assert(s.skip(2).take(2) =~= le16(p.data.len() as u16));
    assert(s.skip(4).take(4) =~= le32(p.session_handle));
    assert(s.skip(8).take(4) =~= le32(p.status));
    assert(s.skip(20).take(4) =~= le32(p.options));
    assert(from_le16(s) == from_le16(le16(p.command)));
    assert(from_le16(s.skip(2)) == from_le16(le16(p.data.len() as u16)));
    assert(from_le32(s.skip(4)) == from_le32(le32(p.session_handle)));
    assert(from_le32(s.skip(8)) == from_le32(le32(p.status)));
    assert(from_le32(s.skip(20)) == from_le32(le32(p.options)));
    assert(s.subrange(12, 20) =~= p.sender_context);
    assert(s.skip(24) =~= p.data);
    assert(decode_encaps(s) =~= p);
}

impl EncapsPacket {
    /// A packet with zero status, sender context, and options.
    pub fn new(command: EncapsCommand, session_handle: u32, data: Vec<u8>) -> (r: Self)
        ensures
            r@ == (EncapsView {
                command: command.0,
                session_handle,
                status: 0,
                sender_context: seq![0u8, 0, 0, 0, 0, 0, 0, 0],
                options: 0,
                data: data@,
            }),
    {
        let r = Self { command, session_handle, status: EncapsStatus(0), sender_context: [0u8; 8], options: 0, data };
        assert(r.sender_context@ =~= seq![0u8, 0, 0, 0, 0, 0, 0, 0]);
        r
    }

    /// Register Session with protocol version 1 and no options.
    pub fn register_session() -> (r: Self)
        ensures
            r@ == EncapsPacket::new_spec(EncapsCommand::REGISTER_SESSION, 0, seq![1u8, 0, 0, 0]),
    {
        let mut data: Vec<u8> = Vec::new();
        data.push(1);
        data.push(0);
        data.push(0);
        data.push(0);
        assert(data@ =~= seq![1u8, 0, 0, 0]);
        Self::new(EncapsCommand(EncapsCommand::REGISTER_SESSION), 0, data)
    }

    pub fn unregister_session(session_handle: u32) -> (r: Self)
        ensures
            r@ == EncapsPacket::new_spec(EncapsCommand::UN_REGISTER_SESSION, session_handle, seq![]),
    {
        Self::new(EncapsCommand(EncapsCommand::UN_REGISTER_SESSION), session_handle, Vec::new())
    }

    /// SendRRData with interface handle 0 and the given timeout (seconds).
    pub fn send_rr_data(session_handle: u32, timeout: u16, cpf: &[u8]) -> (r: Self)
        ensures
            r@ == EncapsPacket::new_spec(EncapsCommand::SEND_RR_DATA, session_handle, le32(0) + le16(timeout) + cpf@),
    {
        let mut data: Vec<u8> = Vec::new();
        put_u32_le(&mut data, 0);
        put_u16_le(&mut data, timeout);
        put_slice(&mut data, cpf);
        Self::new(EncapsCommand(EncapsCommand::SEND_RR_DATA), session_handle, data)
    }

    pub fn list_identity() -> (r: Self)
        ensures
            r@ == EncapsPacket::new_spec(EncapsCommand::LIST_IDENTITY, 0, seq![]),
    {
        Self::new(EncapsCommand(EncapsCommand::LIST_IDENTITY), 0, Vec::new())
    }

    /// What [`EncapsPacket::new`] makes.
    pub open spec fn new_spec(command: u16, session_handle: u32, data: Seq<u8>) -> EncapsView {
        EncapsView {
            command,
            session_handle,
            status: 0,
            sender_context: seq![0u8, 0, 0, 0, 0, 0, 0, 0],
            options: 0,
            data,
        }
    }

    pub fn encode(&self) -> (out: Vec<u8>)
        ensures
            out@ == encaps_bytes(self@),
    {
        let mut out: Vec<u8> = Vec::new();
        put_u16_le(&mut out, self.command.0);
        put_u16_le(&mut out, self.data.len() as u16);
        put_u32_le(&mut out, self.session_handle);
        put_u32_le(&mut out, self.status.0);
        put_slice(&mut out, self.sender_context.as_slice());
        put_u32_le(&mut out, self.options);
        put_slice(&mut out, self.data.as_slice());
        assert(out@ =~= encaps_bytes(self@));
        out
    }

    /// Decodes a complete packet; the data length must match the header.
    pub fn decode(data: &[u8]) -> (r: Result<Self>)
        ensures
            r is Ok <==> encaps_ok(data@),
            r matches Ok(p) ==> p@ == decode_encaps(data@),
            r matches Err(e) ==> e is InvalidPacket,
            data@.len() < 24 ==> (r matches Err(Error::InvalidPacket(m)) && m@
                == "encapsulation header must be 24 bytes, got "@ + dec(data@.len())),
            data@.len() >= 24 && data@.len() - 24 != from_le16(data@.skip(2)) ==> (r matches Err(
                Error::InvalidPacket(m),
            ) && m@ == "encapsulation data must be "@ + dec(from_le16(data@.skip(2)) as nat) + " bytes, got "@ + dec(
                (data@.len() - 24) as nat,
            )),
    {
        if data.len() < HEADER_SIZE {
            let mut m = String::from_str("encapsulation header must be 24 bytes, got ");
            push_dec(&mut m, data.len() as u64);
            return Err(Error::InvalidPacket(m));
        }
        let mut buf = data;
        let command = EncapsCommand(get_u16_le(&mut buf));
        let length = get_u16_le(&mut buf) as usize;
        let session_handle = get_u32_le(&mut buf);
        let status = EncapsStatus(get_u32_le(&mut buf));
        let c0 = get_u8(&mut buf);
        let c1 = get_u8(&mut buf);
        let c2 = get_u8(&mut buf);
        let c3 = get_u8(&mut buf);
        let c4 = get_u8(&mut buf);
        let c5 = get_u8(&mut buf);
        let c6 = get_u8(&mut buf);
        let c7 = get_u8(&mut buf);
        let sender_context = [c0, c1, c2, c3, c4, c5, c6, c7];
        let options = get_u32_le(&mut buf);
        assert(buf@ =~= data@.skip(24));
        assert(data@.skip(2).skip(2) =~= data@.skip(4));
        assert(data@.skip(4).skip(4) =~= data@.skip(8));
        assert(data@.skip(8).skip(4) =~= data@.skip(12));
        assert(data@.skip(12).skip(8) =~= data@.skip(20));
        if buf.len() != length {
            let mut m = String::from_str("encapsulation data must be ");
            push_dec(&mut m, length as u64);
            m.append(" bytes, got ");
            push_dec(&mut m, buf.len() as u64);
            return Err(Error::InvalidPacket(m));
        }
        let p = Self {
            command,
            session_handle,
            status,
            sender_context,
            options,
            data: vstd::slice::slice_to_vec(buf),
        };
        assert(p.sender_context@ =~= data@.subrange(12, 20));
        assert(p@ =~= decode_encaps(data@));
        Ok(p)
    }

    /// Data length field of an encoded header.
    pub fn length_from_header(header: &[u8; 24]) -> (r: usize)
        ensures
            r == from_le16(header@.skip(2)),
    {
        header[2] as usize + 0x100 * header[3] as usize
    }
}

} // verus!
