//! Connection parameters of a Forward Open: network parameters, transport
//! class and trigger, and the settings of an I/O connection.

use vstd::prelude::*;

use super::path::ConnectionPath;
use crate::wire::put_slice;

verus! {

/// How a connection's packets are addressed.
#[derive(Debug, Clone, Copy, PartialEq, Eq, Structural, Default)]
pub enum ConnectionType {
    /// No data in this direction (e.g. the O->T side of a listen-only connection).
    Null,
    Multicast,
    #[default]
    PointToPoint,
    Reserved,
}

impl ConnectionType {
    /// The 2-bit field value.
    pub open spec fn code(self) -> u32 {
        match self {
            ConnectionType::Null => 0,
            ConnectionType::Multicast => 1,
            ConnectionType::PointToPoint => 2,
            ConnectionType::Reserved => 3,
        }
    }

    pub open spec fn from_code(v: u32) -> Self {
        if v == 0 {
            ConnectionType::Null
        } else if v == 1 {
            ConnectionType::Multicast
        } else if v == 2 {
            ConnectionType::PointToPoint
        } else {
            ConnectionType::Reserved
        }
    }
}

#[derive(Debug, Clone, Copy, PartialEq, Eq, Structural, Default)]
pub enum Priority {
    Low,
    High,
    #[default]
    Scheduled,
    Urgent,
}

impl Priority {
    /// The 2-bit field value.
    pub open spec fn code(self) -> u32 {
        match self {
            Priority::Low => 0,
            Priority::High => 1,
            Priority::Scheduled => 2,
            Priority::Urgent => 3,
        }
    }

    pub open spec fn from_code(v: u32) -> Self {
        if v == 0 {
            Priority::Low
        } else if v == 1 {
            Priority::High
        } else if v == 2 {
            Priority::Scheduled
        } else {
            Priority::Urgent
        }
    }
}

#[derive(Debug, Clone, Copy, PartialEq, Eq, Structural, Default)]
pub enum SizeType {
    #[default]
    Fixed,
    Variable,
}

impl SizeType {
    /// The 1-bit field value.
    pub open spec fn code(self) -> u32 {
        match self {
            SizeType::Fixed => 0,
            SizeType::Variable => 1,
        }
    }
}

/// Network connection parameters as they appear in a Forward Open. `size` is
/// the size on the wire, including the sequence count and run/idle header.
#[derive(Debug, Clone, Copy, PartialEq, Eq, Structural, Default)]
pub struct NetworkParams {
    pub redundant_owner: bool,
    pub connection_type: ConnectionType,
    pub priority: Priority,
    pub size_type: SizeType,
    pub size: u16,
}

/// Largest size the 16-bit (non-large) Forward Open can carry.
pub const MAX_SMALL_SIZE: u16 = 0x1FF;

/// The flag bits of the 16-bit form: redundant owner (bit 15), connection
/// type (13-14), priority (10-11), fixed/variable (9).
pub open spec fn params_flags(p: NetworkParams) -> u32 {
    ((if p.redundant_owner { 0x8000u32 } else { 0u32 }) + p.connection_type.code() * 0x2000
        + p.priority.code() * 0x400 + p.size_type.code() * 0x200) as u32
}

/// The encoded parameters: flags and the size (its low 9 bits in the 16-bit
/// form); the 32-bit form of Large Forward Open moves the flags up by 16 bits.
pub open spec fn encode_params(p: NetworkParams, large: bool) -> u32 {
    if large {
        (params_flags(p) * 0x1_0000 + p.size) as u32
    } else {
        (params_flags(p) + p.size % 0x200) as u32
    }
}

/// The parameters a raw value holds.
pub open spec fn decode_params(raw: u32, large: bool) -> NetworkParams {
    let flags: u32 = if large { raw / 0x1_0000 } else { raw };
    let size: u32 = if large { raw % 0x1_0000 } else { raw % 0x200 };
    NetworkParams {
        redundant_owner: (flags / 0x8000) % 2 == 1,
        connection_type: ConnectionType::from_code((flags / 0x2000) % 4),
        priority: Priority::from_code((flags / 0x400) % 4),
        size_type: if (flags / 0x200) % 2 == 1 { SizeType::Variable } else { SizeType::Fixed },
        size: size as u16,
    }
}

fn connection_type_code(t: ConnectionType) -> (r: u32)
    ensures
        r == t.code(),
{
    match t {
        ConnectionType::Null => 0,
        ConnectionType::Multicast => 1,
        ConnectionType::PointToPoint => 2,
        ConnectionType::Reserved => 3,
    }
}

fn priority_code(p: Priority) -> (r: u32)
    ensures
        r == p.code(),
{
    match p {
        Priority::Low => 0,
        Priority::High => 1,
        Priority::Scheduled => 2,
        Priority::Urgent => 3,
    }
}

impl NetworkParams {
    /// Encodes the 16-bit form (`large = false`) or the 32-bit form used by
    /// Large Forward Open, which moves the flags up by 16 bits.
    pub fn encode(&self, large: bool) -> (r: u32)
        ensures
            r == encode_params(*self, large),
    {
        let redundant: u32 = if self.redundant_owner { 0x8000 } else { 0 };
        let size_type: u32 = match self.size_type {
            SizeType::Fixed => 0,
            SizeType::Variable => 1,
        };
        let flags: u32 = redundant + connection_type_code(self.connection_type) * 0x2000
            + priority_code(self.priority) * 0x400 + size_type * 0x200;
        if large {
            flags * 0x1_0000 + self.size as u32
        } else {
            flags + (self.size % 0x200) as u32
        }
    }

    pub fn decode(raw: u32, large: bool) -> (r: Self)
        ensures
            r == decode_params(raw, large),
    {
        let flags: u32 = if large { raw / 0x1_0000 } else { raw };
        let size: u32 = if large { raw % 0x1_0000 } else { raw % 0x200 };
        let ct = (flags / 0x2000) % 4;
        let pr = (flags / 0x400) % 4;
        Self {
            redundant_owner: (flags / 0x8000) % 2 == 1,
            connection_type: if ct == 0 {
                ConnectionType::Null
            } else if ct == 1 {
                ConnectionType::Multicast
            } else if ct == 2 {
                ConnectionType::PointToPoint
            } else {
                ConnectionType::Reserved
            },
            priority: if pr == 0 {
                Priority::Low
            } else if pr == 1 {
                Priority::High
            } else if pr == 2 {
                Priority::Scheduled
            } else {
                Priority::Urgent
            },
            size_type: if (flags / 0x200) % 2 == 1 {
                SizeType::Variable
            } else {
                SizeType::Fixed
            },
            size: size as u16,
        }
    }
}

/// Decoding encoded parameters gives them back, when the size fits the form.
pub proof fn lemma_params_round_trip(p: NetworkParams, large: bool)
    requires
        large || p.size <= MAX_SMALL_SIZE,
    ensures
        decode_params(encode_params(p, large), large) == p,
{
    let ro: u32 = if p.redundant_owner { 1 } else { 0 };
    let ct = p.connection_type.code();
    let pr = p.priority.code();
    let st = p.size_type.code();
    let f = params_flags(p);
    assert(f == ro * 0x8000 + ct * 0x2000 + pr * 0x400 + st * 0x200);
    assert(f / 0x8000 == ro && f / 0x2000 % 4 == ct && f / 0x400 % 4 == pr && f / 0x200 % 2 == st) by (nonlinear_arith)
        requires
            ro <= 1,
            ct <= 3,
            pr <= 3,
            st <= 1,
            f == ro * 0x8000 + ct * 0x2000 + pr * 0x400 + st * 0x200,
    ;
    if large {
        let v = (f * 0x1_0000 + p.size) as u32;
        assert(v / 0x1_0000 == f && v % 0x1_0000 == p.size) by (nonlinear_arith)
            requires
                f < 0x1_0000,
                p.size < 0x1_0000,
                v == f * 0x1_0000 + p.size,
        ;
    } else {
        let v = (f + p.size % 0x200) as u32;
        assert(v / 0x8000 == f / 0x8000 && v / 0x2000 % 4 == ct && v / 0x400 % 4 == pr && v / 0x200 % 2 == st
            && v % 0x200 == p.size) by (nonlinear_arith)
            requires
                ro <= 1,
                ct <= 3,
                pr <= 3,
                st <= 1,
                f == ro * 0x8000 + ct * 0x2000 + pr * 0x400 + st * 0x200,
                p.size <= 0x1FF,
                v == f + p.size,
        ;
    }
}

#[derive(Debug, Clone, Copy, PartialEq, Eq, Structural, Default)]
pub enum TransportClass {
    Class0,
    #[default]
    Class1,
    Class2,
    Class3,
}

impl TransportClass {
    /// The class number.
    pub open spec fn code(self) -> u8 {
        match self {
            TransportClass::Class0 => 0,
            TransportClass::Class1 => 1,
            TransportClass::Class2 => 2,
            TransportClass::Class3 => 3,
        }
    }

    /// Classes 1-3 prefix data with a 16-bit sequence count.
    pub fn has_sequence_count(self) -> (r: bool)
        ensures
            r == (self != TransportClass::Class0),
    {
        self != TransportClass::Class0
    }
}

/// What makes the target produce data.
#[derive(Debug, Clone, Copy, PartialEq, Eq, Structural, Default)]
pub enum Trigger {
    #[default]
    Cyclic,
    ChangeOfState,
    Application,
}

impl Trigger {
    /// The 3-bit field value.
    pub open spec fn code(self) -> u8 {
        match self {
            Trigger::Cyclic => 0,
            Trigger::ChangeOfState => 1,
            Trigger::Application => 2,
        }
    }
}

/// The transport class/trigger byte of a Forward Open.
#[derive(Debug, Clone, Copy, PartialEq, Eq, Structural, Default)]
pub struct TransportTrigger {
    pub class: TransportClass,
    pub trigger: Trigger,
    /// Direction bit: set when the target is the server of a class 2/3
    /// connection. Clear for I/O connections.
    pub server: bool,
}

/// The byte: direction (bit 7), trigger (bits 4-6), class (bits 0-3).
pub open spec fn encode_transport(t: TransportTrigger) -> u8 {
    ((if t.server { 0x80u8 } else { 0u8 }) + t.trigger.code() * 0x10 + t.class.code()) as u8
}

/// The class, trigger, and direction a byte holds; class values above 3 read
/// as class 3, and trigger values other than 1 and 2 as cyclic.
pub open spec fn decode_transport(raw: u8) -> TransportTrigger {
    let c = raw % 0x10;
    let t = (raw / 0x10) % 8;
    TransportTrigger {
        class: if c == 0 {
            TransportClass::Class0
        } else if c == 1 {
            TransportClass::Class1
        } else if c == 2 {
            TransportClass::Class2
        } else {
            TransportClass::Class3
        },
        trigger: if t == 1 {
            Trigger::ChangeOfState
        } else if t == 2 {
            Trigger::Application
        } else {
            Trigger::Cyclic
        },
        server: raw / 0x80 == 1,
    }
}

impl TransportTrigger {
    pub fn encode(&self) -> (r: u8)
        ensures
            r == encode_transport(*self),
    {
        let server: u8 = if self.server { 0x80 } else { 0 };
        let trigger: u8 = match self.trigger {
            Trigger::Cyclic => 0,
            Trigger::ChangeOfState => 1,
            Trigger::Application => 2,
        };
        let class: u8 = match self.class {
            TransportClass::Class0 => 0,
            TransportClass::Class1 => 1,
            TransportClass::Class2 => 2,
            TransportClass::Class3 => 3,
        };
        server + trigger * 0x10 + class
    }

    pub fn decode(raw: u8) -> (r: Self)
        ensures
            r == decode_transport(raw),
    {
        let c = raw % 0x10;
        let t = (raw / 0x10) % 8;
        Self {
            class: if c == 0 {
                TransportClass::Class0
            } else if c == 1 {
                TransportClass::Class1
            } else if c == 2 {
                TransportClass::Class2
            } else {
                TransportClass::Class3
            },
            trigger: if t == 1 {
                Trigger::ChangeOfState
            } else if t == 2 {
                Trigger::Application
            } else {
                Trigger::Cyclic
            },
            server: raw / 0x80 == 1,
        }
    }
}

/// Where each setting stands in the network connection parameters of a
/// Forward Open: the size in the low 9 bits (16 in the large form), then,
/// from bit 9 (bit 25 in the large form), fixed (0) or variable (1) size,
/// the priority in two bits as low 0, high 1, scheduled 2, urgent 3, the
/// connection type in two bits as null 0, multicast 1, point-to-point 2,
/// reserved 3, and the redundant-owner bit.
pub proof fn lemma_params_layout(p: NetworkParams, large: bool)
    requires
        large || p.size <= MAX_SMALL_SIZE,
    ensures
        ({
            let raw = encode_params(p, large);
            let flags: u32 = if large { raw / 0x1_0000 } else { raw };
            &&& (if large { raw % 0x1_0000 } else { raw % 0x200 }) == p.size
            &&& ((flags / 0x200) % 2 == 0 <==> p.size_type == SizeType::Fixed)
            &&& ((flags / 0x400) % 4 == 0 <==> p.priority == Priority::Low)
            &&& ((flags / 0x400) % 4 == 1 <==> p.priority == Priority::High)
            &&& ((flags / 0x400) % 4 == 2 <==> p.priority == Priority::Scheduled)
            &&& ((flags / 0x400) % 4 == 3 <==> p.priority == Priority::Urgent)
            &&& ((flags / 0x2000) % 4 == 0 <==> p.connection_type == ConnectionType::Null)
            &&& ((flags / 0x2000) % 4 == 1 <==> p.connection_type == ConnectionType::Multicast)
            &&& ((flags / 0x2000) % 4 == 2 <==> p.connection_type == ConnectionType::PointToPoint)
            &&& ((flags / 0x2000) % 4 == 3 <==> p.connection_type == ConnectionType::Reserved)
            &&& ((flags / 0x8000) % 2 == 1 <==> p.redundant_owner)
        }),
{
    lemma_params_round_trip(p, large);
}

/// Where the class, trigger and direction stand in the transport byte of a
/// Forward Open: the class number in bits 0-3 (0 to 3), the trigger in bits
/// 4-6 as cyclic 0, change of state 1, application object 2, and the server
/// direction in bit 7.
pub proof fn lemma_transport_layout(t: TransportTrigger)
    ensures
        ({
            let b = encode_transport(t);
            &&& (b % 0x10 == 0 <==> t.class == TransportClass::Class0)
            &&& (b % 0x10 == 1 <==> t.class == TransportClass::Class1)
            &&& (b % 0x10 == 2 <==> t.class == TransportClass::Class2)
            &&& (b % 0x10 == 3 <==> t.class == TransportClass::Class3)
            &&& (b / 0x10) % 8 <= 2
            &&& ((b / 0x10) % 8 == 0 <==> t.trigger == Trigger::Cyclic)
            &&& ((b / 0x10) % 8 == 1 <==> t.trigger == Trigger::ChangeOfState)
            &&& ((b / 0x10) % 8 == 2 <==> t.trigger == Trigger::Application)
            &&& (b / 0x80 == 1 <==> t.server)
        }),
{
}

/// Decoding the encoded byte gives the transport back.
pub proof fn lemma_transport_round_trip(t: TransportTrigger)
    ensures
        decode_transport(encode_transport(t)) == t,
{
}

/// One direction of an I/O connection.
#[derive(Debug, Clone, Copy, PartialEq, Eq, Structural)]
pub struct Direction {
    /// Application data size in bytes, without sequence count or run/idle
    /// header; 0 for a heartbeat.
    pub size: u16,
    /// Requested packet interval, microseconds.
    pub rpi_us: u64,
    pub connection_type: ConnectionType,
    pub priority: Priority,
    pub size_type: SizeType,
    /// Data is preceded by a 32-bit run/idle header.
    pub run_idle_header: bool,
}

impl Direction {
    /// Point-to-point, scheduled priority, fixed size, no run/idle header.
    pub fn new(size: u16, rpi_us: u64) -> (r: Self)
        ensures
            r == (Direction {
                size,
                rpi_us,
                connection_type: ConnectionType::PointToPoint,
                priority: Priority::Scheduled,
                size_type: SizeType::Fixed,
                run_idle_header: false,
            }),
    {
        Self {
            size,
            rpi_us,
            connection_type: ConnectionType::PointToPoint,
            priority: Priority::Scheduled,
            size_type: SizeType::Fixed,
            run_idle_header: false,
        }
    }

    pub fn with_run_idle_header(self) -> (r: Self)
        ensures
            r == (Direction { run_idle_header: true, ..self }),
    {
        let mut d = self;
        d.run_idle_header = true;
        d
    }
}

/// Largest configuration data a simple data segment can carry (255 words).
pub const MAX_CONFIG_DATA: usize = 510;

/// An I/O connection to open with a Forward Open.
#[derive(Debug, Clone, PartialEq, Eq)]
pub struct ConnectionConfig {
    pub path: ConnectionPath,
    /// Data for the configuration assembly named in the path, sent with the
    /// Forward Open. Empty for none; at most [`MAX_CONFIG_DATA`] bytes.
    pub config_data: Vec<u8>,
    /// Outputs, originator to target.
    pub o2t: Direction,
    /// Inputs, target to originator.
    pub t2o: Direction,
    pub transport_class: TransportClass,
    pub trigger: Trigger,
    /// The connection times out after `4 << timeout_multiplier` RPIs without
    /// data. At most 7.
    pub timeout_multiplier: u8,
    /// Identifies this scanner to the target, together with the serial number.
    pub originator_vendor_id: u16,
    pub originator_serial_number: u32,
}

/// Bytes on the wire for one direction: sequence count (classes 1-3),
/// run/idle header, data.
pub open spec fn wire_size_of(class: TransportClass, dir: Direction) -> nat {
    (if class != TransportClass::Class0 { 2nat } else { 0nat }) + (if dir.run_idle_header { 4nat } else { 0nat })
        + dir.size as nat
}

/// The simple data segment carrying configuration data: `0x80`, the length
/// in words, the data (at most [`MAX_CONFIG_DATA`] bytes of it), and a pad
/// byte if its length is odd. Nothing for empty data.
pub open spec fn config_segment(data: Seq<u8>) -> Seq<u8> {
    if data.len() == 0 {
        seq![]
    } else {
        let d = if data.len() > 510 { data.take(510) } else { data };
        let words = (d.len() + 1) / 2;
        seq![0x80u8, words as u8] + d + (if d.len() % 2 == 1 { seq![0u8] } else { seq![] })
    }
}

impl ConnectionConfig {
    /// Class 1, cyclic, timeout multiplier 0 (4 RPIs), originator IDs 0.
    pub fn new(path: ConnectionPath, o2t: Direction, t2o: Direction) -> (r: Self)
        ensures
            r.path == path,
            r.config_data@.len() == 0,
            r.o2t == o2t,
            r.t2o == t2o,
            r.transport_class == TransportClass::Class1,
            r.trigger == Trigger::Cyclic,
            r.timeout_multiplier == 0,
            r.originator_vendor_id == 0,
            r.originator_serial_number == 0,
    {
        Self {
            path,
            config_data: Vec::new(),
            o2t,
            t2o,
            transport_class: TransportClass::Class1,
            trigger: Trigger::Cyclic,
            timeout_multiplier: 0,
            originator_vendor_id: 0,
            originator_serial_number: 0,
        }
    }

    /// Bytes on the wire for one direction: sequence count, run/idle header, data.
    pub fn wire_size(&self, dir: &Direction) -> (r: usize)
        ensures
            r == wire_size_of(self.transport_class, *dir),
    {
        let seq: usize = if self.transport_class.has_sequence_count() { 2 } else { 0 };
        let header: usize = if dir.run_idle_header { 4 } else { 0 };
        seq + header + dir.size as usize
    }

    /// The connection path as sent in a Forward Open: `path`, then
    /// `config_data` as a simple data segment (truncated to [`MAX_CONFIG_DATA`]).
    pub fn encoded_path(&self) -> (out: Vec<u8>)
        ensures
            out@ == self.path@ + config_segment(self.config_data@),
    {
        let mut out = vstd::slice::slice_to_vec(self.path.as_bytes());
        if self.config_data.len() > 0 {
            let n = if self.config_data.len() > MAX_CONFIG_DATA { MAX_CONFIG_DATA } else { self.config_data.len() };
            let data = vstd::slice::slice_subrange(self.config_data.as_slice(), 0, n);
            let words = (n + 1) / 2;
            out.push(0x80);
            out.push(words as u8);
            put_slice(&mut out, data);
            if n % 2 == 1 {
                out.push(0);
            }
            assert(data@ =~= (if self.config_data@.len() > 510 { self.config_data@.take(510) } else { self.config_data@ }));
        }
        assert(out@ =~= self.path@ + config_segment(self.config_data@));
        out
    }
}

} // verus!
