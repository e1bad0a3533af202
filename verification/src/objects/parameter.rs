//! Parameter object (class 0x0F): reading a parameter's value, limits,
//! descriptor, and scaling from a device.

use vstd::prelude::*;
use vstd::string::*;
use vstd::utf8::{decode_utf8, valid_utf8};

use crate::cip::{CipDataType, EPath, EPathView, MessageRouterResponse, ServiceCode};
use crate::error::{Error, Result};
use crate::message_router::{read_answered, request_succeeded, MessageRouter};
use crate::session::Session;
use crate::text::push_dec;
use crate::wire::{
    from_le16, from_le32, from_le64, get_u16_le, get_u32_le, get_u64_le, get_u8, le16, le32, le64, lemma_le16, lemma_le32,
    lemma_le64, lossy_text, put_u16_le, put_u32_le, try_get_short_string, try_get_u16_le, try_get_u8, try_get_vec, try_skip,
};

verus! {

const VALUE: u16 = 1;
const DATA_SIZE: u16 = 6;
const SCALING_MULTIPLIER: u16 = 13;

/// A fixed-size little-endian CIP integer, as parameter values hold them.
pub trait CipValue: Sized + Copy {
    /// The value of the little-endian `bytes`.
    spec fn from_le_bytes(bytes: Seq<u8>) -> Self;

    /// The size of the value in bytes.
    spec fn size_spec() -> nat;

    /// The size of the value in bytes.
    fn size() -> (r: usize)
        ensures
            r == Self::size_spec(),
    ;

    fn decode(bytes: &[u8]) -> (r: Self)
        requires
            bytes@.len() == Self::size_spec(),
        ensures
            r == Self::from_le_bytes(bytes@),
    ;

    fn encode(self) -> (r: Vec<u8>)
        ensures
            r@.len() == Self::size_spec(),
            Self::from_le_bytes(r@) == self,
    ;
}

impl CipValue for u8 {
    open spec fn from_le_bytes(bytes: Seq<u8>) -> u8 {
        bytes[0]
    }

    open spec fn size_spec() -> nat {
        1
    }

    fn size() -> (r: usize) {
        1
    }

    fn decode(bytes: &[u8]) -> (r: u8) {
        bytes[0]
    }

    fn encode(self) -> (r: Vec<u8>) {
        let mut v: Vec<u8> = Vec::new();
        v.push(self);
        v
    }
}

impl CipValue for i8 {
    open spec fn from_le_bytes(bytes: Seq<u8>) -> i8 {
        bytes[0] as i8
    }

    open spec fn size_spec() -> nat {
        1
    }

    fn size() -> (r: usize) {
        1
    }

    fn decode(bytes: &[u8]) -> (r: i8) {
        bytes[0] as i8
    }

    fn encode(self) -> (r: Vec<u8>) {
        let mut v: Vec<u8> = Vec::new();
        v.push(self as u8);
        let x = self;
        assert((x as u8) as i8 == x) by (bit_vector);
        v
    }
}

impl CipValue for u16 {
    open spec fn from_le_bytes(bytes: Seq<u8>) -> u16 {
        from_le16(bytes)
    }

    open spec fn size_spec() -> nat {
        2
    }

    fn size() -> (r: usize) {
        2
    }

    fn decode(bytes: &[u8]) -> (r: u16) {
        let mut b = bytes;
        get_u16_le(&mut b)
    }

    fn encode(self) -> (r: Vec<u8>) {
        let mut v: Vec<u8> = Vec::new();
        put_u16_le(&mut v, self);
        proof {
            lemma_le16(self);
        }
        v
    }
}

impl CipValue for i16 {
    open spec fn from_le_bytes(bytes: Seq<u8>) -> i16 {
        from_le16(bytes) as i16
    }

    open spec fn size_spec() -> nat {
        2
    }

    fn size() -> (r: usize) {
        2
    }

    fn decode(bytes: &[u8]) -> (r: i16) {
        let mut b = bytes;
        get_u16_le(&mut b) as i16
    }

    fn encode(self) -> (r: Vec<u8>) {
        let mut v: Vec<u8> = Vec::new();
        put_u16_le(&mut v, self as u16);
        proof {
            lemma_le16(self as u16);
        }
        let x = self;
        assert((x as u16) as i16 == x) by (bit_vector);
        v
    }
}

impl CipValue for u32 {
    open spec fn from_le_bytes(bytes: Seq<u8>) -> u32 {
        from_le32(bytes)
    }

    open spec fn size_spec() -> nat {
        4
    }

    fn size() -> (r: usize) {
        4
    }

    fn decode(bytes: &[u8]) -> (r: u32) {
        let mut b = bytes;
        get_u32_le(&mut b)
    }

    fn encode(self) -> (r: Vec<u8>) {
        let mut v: Vec<u8> = Vec::new();
        put_u32_le(&mut v, self);
        proof {
            lemma_le32(self);
        }
        v
    }
}

impl CipValue for i32 {
    open spec fn from_le_bytes(bytes: Seq<u8>) -> i32 {
        from_le32(bytes) as i32
    }

    open spec fn size_spec() -> nat {
        4
    }

    fn size() -> (r: usize) {
        4
    }

    fn decode(bytes: &[u8]) -> (r: i32) {
        let mut b = bytes;
        get_u32_le(&mut b) as i32
    }

    fn encode(self) -> (r: Vec<u8>) {
        let mut v: Vec<u8> = Vec::new();
        put_u32_le(&mut v, self as u32);
        proof {
            lemma_le32(self as u32);
        }
        let x = self;
        assert((x as u32) as i32 == x) by (bit_vector);
        v
    }
}

/// The eight little-endian bytes of `v`.
fn le64_bytes(v: u64) -> (r: Vec<u8>)
    ensures
        r@ == le64(v),
{
    let mut b: Vec<u8> = Vec::new();
    put_u32_le(&mut b, (v % 0x1_0000_0000) as u32);
    put_u32_le(&mut b, (v / 0x1_0000_0000) as u32);
    assert(b@ =~= le64(v));
    b
}

impl CipValue for u64 {
    open spec fn from_le_bytes(bytes: Seq<u8>) -> u64 {
        from_le64(bytes)
    }

    open spec fn size_spec() -> nat {
        8
    }

    fn size() -> (r: usize) {
        8
    }

    fn decode(bytes: &[u8]) -> (r: u64) {
        let mut b = bytes;
        get_u64_le(&mut b)
    }

    fn encode(self) -> (r: Vec<u8>) {
        let v = le64_bytes(self);
        proof {
            lemma_le64(self);
        }
        v
    }
}

impl CipValue for i64 {
    open spec fn from_le_bytes(bytes: Seq<u8>) -> i64 {
        from_le64(bytes) as i64
    }

    open spec fn size_spec() -> nat {
        8
    }

    fn size() -> (r: usize) {
        8
    }

    fn decode(bytes: &[u8]) -> (r: i64) {
        let mut b = bytes;
        get_u64_le(&mut b) as i64
    }

    fn encode(self) -> (r: Vec<u8>) {
        let v = le64_bytes(self as u64);
        proof {
            lemma_le64(self as u64);
        }
        let x = self;
        assert((x as u64) as i64 == x) by (bit_vector);
        v
    }
}

/// A value of type `T` read from `bytes`: an error unless they are exactly
/// its size.
fn decode_value<T: CipValue>(bytes: &[u8]) -> (r: Result<T>)
    ensures
        match r {
            Ok(v) => bytes@.len() == T::size_spec() && v == T::from_le_bytes(bytes@),
            Err(e) => e is InvalidPacket && bytes@.len() != T::size_spec(),
        },
{
    match check_value_size(bytes, T::size()) {
        Ok(()) => Ok(T::decode(bytes)),
        Err(e) => Err(e),
    }
}

/// Parameter object (class 0x0F). Read only.
#[derive(Debug, Clone, PartialEq)]
pub struct ParameterObject {
    pub instance_id: u16,
    pub has_full_attributes: bool,
    pub is_scalable: bool,
    pub is_read_only: bool,
    pub data_type: CipDataType,
    pub name: String,
    pub units: String,
    pub help: String,
    pub scaling_multiplier: u16,
    pub scaling_divisor: u16,
    pub scaling_base: u16,
    pub scaling_offset: i16,
    pub precision: u8,
    value: Vec<u8>,
    min_value: Vec<u8>,
    max_value: Vec<u8>,
    default_value: Vec<u8>,
}

/// What a parameter holds, with its strings and values as sequences.
pub ghost struct ParameterView {
    pub instance_id: u16,
    pub has_full_attributes: bool,
    pub is_scalable: bool,
    pub is_read_only: bool,
    pub data_type: CipDataType,
    pub name: Seq<char>,
    pub units: Seq<char>,
    pub help: Seq<char>,
    pub scaling_multiplier: u16,
    pub scaling_divisor: u16,
    pub scaling_base: u16,
    pub scaling_offset: i16,
    pub precision: u8,
    pub value: Seq<u8>,
    pub min_value: Seq<u8>,
    pub max_value: Seq<u8>,
    pub default_value: Seq<u8>,
}

impl View for ParameterObject {
    type V = ParameterView;

    closed spec fn view(&self) -> ParameterView {
        ParameterView {
            instance_id: self.instance_id,
            has_full_attributes: self.has_full_attributes,
            is_scalable: self.is_scalable,
            is_read_only: self.is_read_only,
            data_type: self.data_type,
            name: self.name@,
            units: self.units@,
            help: self.help@,
            scaling_multiplier: self.scaling_multiplier,
            scaling_divisor: self.scaling_divisor,
            scaling_base: self.scaling_base,
            scaling_offset: self.scaling_offset,
            precision: self.precision,
            value: self.value@,
            min_value: self.min_value@,
            max_value: self.max_value@,
            default_value: self.default_value@,
        }
    }
}

impl ParameterView {
    /// The parameter read from the attributes `s` with value size `ds`.
    pub open spec fn attributes_from(self, s: Seq<u8>, ds: nat, full: bool) -> bool {
        let d = descriptor_at(s, ds);
        &&& self.value == s.take(ds as int)
        &&& self.is_scalable == supports_scaling(descriptor(s, ds))
        &&& self.is_read_only == read_only(descriptor(s, ds))
        &&& self.data_type == CipDataType(s[d + 2])
        &&& full ==> {
            let n = name_at(s, ds);
            let u = units_at(s, ds);
            let h = help_at(s, ds);
            let l = limits_at(s, ds);
            &&& text_of(self.name, s.subrange(n + 1, string_end(s, n)))
            &&& text_of(self.units, s.subrange(u + 1, string_end(s, u)))
            &&& text_of(self.help, s.subrange(h + 1, string_end(s, h)))
            &&& self.min_value == s.subrange(l, l + ds)
            &&& self.max_value == s.subrange(l + ds, l + 2 * ds)
            &&& self.default_value == s.subrange(l + 2 * ds, l + 3 * ds)
            &&& self.is_scalable ==> self.precision == s[l + 3 * ds + 16]
        }
    }

    /// The scaling attributes (multiplier, divisor, base, offset) read from
    /// their four replies, one after the other.
    pub open spec fn scaling_from(self, s: Seq<u8>) -> bool {
        &&& self.scaling_multiplier == from_le16(s)
        &&& self.scaling_divisor == from_le16(s.skip(2))
        &&& self.scaling_base == from_le16(s.skip(4))
        &&& self.scaling_offset == from_le16(s.skip(6)) as i16
    }

    /// The defaults of a parameter built offline: no name, no scaling
    /// (multiplier, divisor, and base 1), values of `type_size` zero bytes.
    pub open spec fn is_new(self, instance_id: u16, has_full_attributes: bool, type_size: nat) -> bool {
        &&& self.instance_id == instance_id
        &&& self.has_full_attributes == has_full_attributes
        &&& !self.is_scalable && !self.is_read_only
        &&& self.data_type == CipDataType(CipDataType::ANY)
        &&& self.name.len() == 0 && self.units.len() == 0 && self.help.len() == 0
        &&& self.scaling_multiplier == 1 && self.scaling_divisor == 1 && self.scaling_base == 1
        &&& self.scaling_offset == 0 && self.precision == 0
        &&& self.value == Seq::new(type_size, |_i: int| 0u8)
        &&& self.min_value == Seq::new(type_size, |_i: int| 0u8)
        &&& self.max_value == Seq::new(type_size, |_i: int| 0u8)
        &&& self.default_value == Seq::new(type_size, |_i: int| 0u8)
    }

    /// All but the value are as `ParameterObject::new` leaves them.
    pub open spec fn is_new_except_value(self, instance_id: u16, has_full_attributes: bool, type_size: nat) -> bool {
        &&& self.instance_id == instance_id
        &&& self.has_full_attributes == has_full_attributes
        &&& self.name.len() == 0 && self.units.len() == 0 && self.help.len() == 0
        &&& self.scaling_multiplier == 1 && self.scaling_divisor == 1 && self.scaling_base == 1
        &&& self.scaling_offset == 0 && self.precision == 0
        &&& self.min_value == Seq::new(type_size, |_i: int| 0u8)
        &&& self.max_value == Seq::new(type_size, |_i: int| 0u8)
        &&& self.default_value == Seq::new(type_size, |_i: int| 0u8)
    }

}

/// The text of a string attribute: its bytes as `from_utf8_lossy` reads
/// them; its characters, when it is valid UTF-8.
pub open spec fn text_of(t: Seq<char>, bytes: Seq<u8>) -> bool {
    &&& t == lossy_text(bytes)
    &&& valid_utf8(bytes) ==> t == decode_utf8(bytes)
}

/// Where the descriptor starts: after the value and the link path.
pub open spec fn descriptor_at(s: Seq<u8>, ds: nat) -> int {
    ds + 1 + s[ds as int]
}

/// The end of the SHORT_STRING that starts at `at`.
pub open spec fn string_end(s: Seq<u8>, at: int) -> int {
    at + 1 + s[at]
}

/// A SHORT_STRING starts at `at`.
pub open spec fn string_at(s: Seq<u8>, at: int) -> bool {
    at < s.len() && string_end(s, at) <= s.len()
}

/// The three strings of the full attributes: name, units, help.
pub open spec fn name_at(s: Seq<u8>, ds: nat) -> int {
    descriptor_at(s, ds) + 4
}

pub open spec fn units_at(s: Seq<u8>, ds: nat) -> int {
    string_end(s, name_at(s, ds))
}

pub open spec fn help_at(s: Seq<u8>, ds: nat) -> int {
    string_end(s, units_at(s, ds))
}

/// Where the limits (minimum, maximum, default) start.
pub open spec fn limits_at(s: Seq<u8>, ds: nat) -> int {
    string_end(s, help_at(s, ds))
}

/// The descriptor word.
pub open spec fn descriptor(s: Seq<u8>, ds: nat) -> u16 {
    from_le16(s.skip(descriptor_at(s, ds)))
}

/// Descriptor bit 2: the parameter supports scaling.
pub open spec fn supports_scaling(desc: u16) -> bool {
    (desc / 4) % 2 == 1
}

/// Descriptor bit 4: the parameter is read only.
pub open spec fn read_only(desc: u16) -> bool {
    (desc / 16) % 2 == 1
}

/// A Get_Attributes_All reply holds the attributes read with a value size
/// of `ds`: value, link path, descriptor, and data type; with `full`, also
/// the data size, name, units, help, limits, and (when scalable) the
/// scaling attributes and their links, then the precision.
pub open spec fn attributes_ok(s: Seq<u8>, ds: nat, full: bool) -> bool {
    &&& s.len() > ds
    &&& descriptor_at(s, ds) + 3 <= s.len()
    &&& full ==> {
        &&& string_at(s, name_at(s, ds))
        &&& string_at(s, units_at(s, ds))
        &&& string_at(s, help_at(s, ds))
        &&& limits_at(s, ds) + 3 * ds <= s.len()
        &&& supports_scaling(descriptor(s, ds)) ==> limits_at(s, ds) + 3 * ds + 17 <= s.len()
    }
}

impl ParameterObject {
    /// Parameter object class ID.
    pub const CLASS_ID: u16 = 0x0F;

    /// A parameter with zeroed values of `type_size` bytes and no scaling,
    /// built without talking to a device.
    pub fn new(instance_id: u16, has_full_attributes: bool, type_size: usize) -> (r: Self)
        ensures
            r@.is_new(instance_id, has_full_attributes, type_size as nat),
    {
        let r = Self {
            instance_id,
            has_full_attributes,
            is_scalable: false,
            is_read_only: false,
            data_type: CipDataType(CipDataType::ANY),
            name: String::new(),
            units: String::new(),
            help: String::new(),
            scaling_multiplier: 1,
            scaling_divisor: 1,
            scaling_base: 1,
            scaling_offset: 0,
            precision: 0,
            value: zeros(type_size),
            min_value: zeros(type_size),
            max_value: zeros(type_size),
            default_value: zeros(type_size),
        };
        r
    }

    /// Decodes a Get_Attributes_All reply into a parameter made by
    /// [`ParameterObject::new`] with value size `data_size`.
    #[verifier::rlimit(60)]
    pub fn decode_attributes(instance_id: u16, full: bool, data_size: usize, data: &[u8]) -> (r: Result<Self>)
        ensures
            r is Ok <==> attributes_ok(data@, data_size as nat, full),
            r matches Err(e) ==> e is Truncated,
            r matches Ok(p) ==> p@.attributes_from(data@, data_size as nat, full) && p@.instance_id == instance_id
                && p@.has_full_attributes == full,
            r matches Ok(p) ==> !(full && p@.is_scalable) ==> p@.scaling_multiplier == 1 && p@.scaling_divisor == 1
                && p@.scaling_base == 1 && p@.scaling_offset == 0 && p@.precision == 0,
            r matches Ok(p) ==> !full ==> p@.is_new_except_value(instance_id, full, data_size as nat),
    {
        let ghost s = data@;
        let ghost ds = data_size as nat;
        let mut param = Self::new(instance_id, full, data_size);
        let mut buf = data;
        param.value = match try_get_vec(&mut buf, data_size) {
            Ok(v) => v,
            Err(e) => return Err(e),
        };
        let link_path_size = match try_get_u8(&mut buf) {
            Ok(v) => v as usize,
            Err(e) => return Err(e),
        };
        match try_skip(&mut buf, link_path_size) {
            Ok(()) => {},
            Err(e) => return Err(e),
        }
        let ghost d = descriptor_at(s, ds);
        assert(buf@ =~= s.skip(d));
        let desc = match try_get_u16_le(&mut buf) {
            Ok(v) => v,
            Err(e) => return Err(e),
        };
        param.data_type = match try_get_u8(&mut buf) {
            Ok(v) => CipDataType(v),
            Err(e) => return Err(e),
        };
        assert(s.skip(d).skip(2)[0] == s[d + 2]);
        param.is_scalable = (desc / 4) % 2 == 1;
        param.is_read_only = (desc / 16) % 2 == 1;
        if full {
            match try_skip(&mut buf, 1) {
                Ok(()) => {},
                Err(e) => return Err(e),
            }
            let ghost n = name_at(s, ds);
            assert(buf@ =~= s.skip(n));
            param.name = match try_get_short_string(&mut buf) {
                Ok(v) => v,
                Err(e) => return Err(e),
            };
            assert(s.skip(n).subrange(1, 1 + s[n]) =~= s.subrange(n + 1, string_end(s, n)));
            let ghost u = units_at(s, ds);
            assert(buf@ =~= s.skip(u));
            param.units = match try_get_short_string(&mut buf) {
                Ok(v) => v,
                Err(e) => return Err(e),
            };
            assert(s.skip(u).subrange(1, 1 + s[u]) =~= s.subrange(u + 1, string_end(s, u)));
            let ghost h = help_at(s, ds);
            assert(buf@ =~= s.skip(h));
            param.help = match try_get_short_string(&mut buf) {
                Ok(v) => v,
                Err(e) => return Err(e),
            };
            assert(s.skip(h).subrange(1, 1 + s[h]) =~= s.subrange(h + 1, string_end(s, h)));
            let ghost l = limits_at(s, ds);
            assert(buf@ =~= s.skip(l));
            param.min_value = match try_get_vec(&mut buf, data_size) {
                Ok(v) => v,
                Err(e) => return Err(e),
            };
            param.max_value = match try_get_vec(&mut buf, data_size) {
                Ok(v) => v,
                Err(e) => return Err(e),
            };
            param.default_value = match try_get_vec(&mut buf, data_size) {
                Ok(v) => v,
                Err(e) => return Err(e),
            };
            assert(param.min_value@ =~= s.subrange(l, l + ds));
            assert(param.max_value@ =~= s.subrange(l + ds, l + 2 * ds));
            assert(param.default_value@ =~= s.subrange(l + 2 * ds, l + 3 * ds));
            assert(buf@ =~= s.skip(l + 3 * ds));
            if param.is_scalable {
                // Scaling attributes 13-16 and their links 17-20, then precision.
                match try_skip(&mut buf, 16) {
                    Ok(()) => {},
                    Err(e) => return Err(e),
                }
                param.precision = match try_get_u8(&mut buf) {
                    Ok(v) => v,
                    Err(e) => return Err(e),
                };
                assert(s.skip(l + 3 * ds).skip(16)[0] == s[l + 3 * ds + 16]);
            }
        }
        assert(param.value@ =~= s.take(ds as int));
        Ok(param)
    }

    /// Sets the scaling attributes from their four replies, one after the
    /// other (multiplier, divisor, base, offset).
    pub fn apply_scaling(&mut self, scaling: &[u8]) -> (r: Result<()>)
        ensures
            r is Ok <==> scaling@.len() >= 8,
            r matches Err(e) ==> e is Truncated,
            r is Ok ==> final(self)@.scaling_from(scaling@),
            final(self)@ == (ParameterView {
                scaling_multiplier: final(self)@.scaling_multiplier,
                scaling_divisor: final(self)@.scaling_divisor,
                scaling_base: final(self)@.scaling_base,
                scaling_offset: final(self)@.scaling_offset,
                ..old(self)@
            }),
    {
        let mut buf = scaling;
        let m = match try_get_u16_le(&mut buf) {
            Ok(v) => v,
            Err(e) => return Err(e),
        };
        let d = match try_get_u16_le(&mut buf) {
            Ok(v) => v,
            Err(e) => return Err(e),
        };
        let b = match try_get_u16_le(&mut buf) {
            Ok(v) => v,
            Err(e) => return Err(e),
        };
        let o = match try_get_u16_le(&mut buf) {
            Ok(v) => v,
            Err(e) => return Err(e),
        };
        assert(scaling@.skip(2).skip(2) =~= scaling@.skip(4));
        assert(scaling@.skip(4).skip(2) =~= scaling@.skip(6));
        self.scaling_multiplier = m;
        self.scaling_divisor = d;
        self.scaling_base = b;
        self.scaling_offset = o as i16;
        Ok(())
    }

    /// Reads the parameter from a device: its value size (attribute 6), then
    /// all attributes with Get_Attributes_All. With `full_attributes`, also
    /// the name, units, help, limits, and, for a scalable parameter, the
    /// scaling attributes 13-16, each read on its own.
    pub fn read<S: Session + ?Sized>(session: &S, router: &MessageRouter, instance_id: u16, full_attributes: bool) -> (r: Result<Self>)
        ensures
            r matches Ok(p) ==> exists|size_resp: MessageRouterResponse, all_resp: MessageRouterResponse|
                #![trigger read_answered(session, router@, 0x0F, instance_id, 6, size_resp), request_succeeded(session, router@, ServiceCode::GET_ATTRIBUTE_ALL,
                    EPathView { class_id: 0x0F, instance_id: Some(instance_id), attribute_id: None }, Seq::<u8>::empty(), all_resp)]
                read_answered(session, router@, 0x0F, instance_id, 6, size_resp)
                && size_resp.data@.len() >= 1
                && request_succeeded(session, router@, ServiceCode::GET_ATTRIBUTE_ALL,
                    EPathView { class_id: 0x0F, instance_id: Some(instance_id), attribute_id: None }, Seq::<u8>::empty(), all_resp)
                && p@.attributes_from(all_resp.data@, size_resp.data@[0] as nat, full_attributes)
                && p@.instance_id == instance_id && p@.has_full_attributes == full_attributes,
            r matches Ok(p) ==> (full_attributes && p@.is_scalable) ==> exists|r13: MessageRouterResponse, r14: MessageRouterResponse, r15: MessageRouterResponse, r16: MessageRouterResponse|
                #![trigger read_answered(session, router@, 0x0F, instance_id, 13, r13), read_answered(session, router@, 0x0F, instance_id, 14, r14),
                    read_answered(session, router@, 0x0F, instance_id, 15, r15), read_answered(session, router@, 0x0F, instance_id, 16, r16)]
                read_answered(session, router@, 0x0F, instance_id, 13, r13)
                && read_answered(session, router@, 0x0F, instance_id, 14, r14)
                && read_answered(session, router@, 0x0F, instance_id, 15, r15)
                && read_answered(session, router@, 0x0F, instance_id, 16, r16)
                && p@.scaling_from(r13.data@ + r14.data@ + r15.data@ + r16.data@),
    {
        let size_data = match router.read_attribute(session, Self::CLASS_ID, instance_id, DATA_SIZE, "read parameter data size") {
            Ok(d) => d,
            Err(e) => return Err(e),
        };
        let mut size_buf = size_data.as_slice();
        let data_size = match try_get_u8(&mut size_buf) {
            Ok(v) => v as usize,
            Err(e) => return Err(e),
        };
        let empty: [u8; 0] = [];
        assert(empty@ =~= Seq::<u8>::empty());
        let all = match router.request_checked(
            session,
            ServiceCode(ServiceCode::GET_ATTRIBUTE_ALL),
            &EPath::instance(Self::CLASS_ID, instance_id),
            empty.as_slice(),
            "read parameter attributes",
        ) {
            Ok(r) => r,
            Err(e) => return Err(e),
        };
        let mut param = match Self::decode_attributes(instance_id, full_attributes, data_size, all.data.as_slice()) {
            Ok(p) => p,
            Err(e) => return Err(e),
        };
        if full_attributes && param.is_scalable {
            // Scaling values are read individually.
            let mut scaling = match Self::read_scaling_attribute(session, router, instance_id, SCALING_MULTIPLIER) {
                Ok(d) => d,
                Err(e) => return Err(e),
            };
            let mut d14 = match Self::read_scaling_attribute(session, router, instance_id, 14) {
                Ok(d) => d,
                Err(e) => return Err(e),
            };
            let mut d15 = match Self::read_scaling_attribute(session, router, instance_id, 15) {
                Ok(d) => d,
                Err(e) => return Err(e),
            };
            let mut d16 = match Self::read_scaling_attribute(session, router, instance_id, 16) {
                Ok(d) => d,
                Err(e) => return Err(e),
            };
            let ghost (g13, g14, g15, g16) = (scaling@, d14@, d15@, d16@);
            scaling.append(&mut d14);
            scaling.append(&mut d15);
            scaling.append(&mut d16);
            assert(scaling@ =~= g13 + g14 + g15 + g16);
            match param.apply_scaling(scaling.as_slice()) {
                Ok(()) => {},
                Err(e) => return Err(e),
            }
        }
        Ok(param)
    }

    fn read_scaling_attribute<S: Session + ?Sized>(session: &S, router: &MessageRouter, instance_id: u16, id: u16) -> (r: Result<Vec<u8>>)
        ensures
            r matches Ok(d) ==> exists|resp: MessageRouterResponse| #[trigger]
                read_answered(session, router@, 0x0F, instance_id, id, resp) && resp.data@ == d@,
    {
        let mut context = String::from_str("read parameter attribute ");
        push_dec(&mut context, id as u64);
        router.read_attribute(session, Self::CLASS_ID, instance_id, id, context.as_str())
    }

    /// Re-reads the value attribute.
    pub fn update_value<S: Session + ?Sized>(&mut self, session: &S, router: &MessageRouter) -> (r: Result<()>)
        ensures
            r is Ok ==> exists|resp: MessageRouterResponse| #[trigger]
                read_answered(session, router@, 0x0F, old(self)@.instance_id, 1, resp)
                && final(self)@ == (ParameterView { value: resp.data@, ..old(self)@ }),
            r is Err ==> final(self)@ == old(self)@,
    {
        let data = match router.read_attribute(session, Self::CLASS_ID, self.instance_id, VALUE, "read parameter value") {
            Ok(d) => d,
            Err(e) => return Err(e),
        };
        let ghost before = self@;
        let ghost bytes = data@;
        self.value = data;
        proof {
            let resp = choose|resp: MessageRouterResponse|
                #[trigger] read_answered(session, router@, 0x0F, before.instance_id, 1, resp) && resp.data@ == bytes;
            assert(self@ == (ParameterView { value: resp.data@, ..before }));
        }
        Ok(())
    }

    pub fn raw_value(&self) -> (r: &[u8])
        ensures
            r@ == self@.value,
    {
        self.value.as_slice()
    }

    pub fn raw_min_value(&self) -> (r: &[u8])
        ensures
            r@ == self@.min_value,
    {
        self.min_value.as_slice()
    }

    pub fn raw_max_value(&self) -> (r: &[u8])
        ensures
            r@ == self@.max_value,
    {
        self.max_value.as_slice()
    }

    pub fn raw_default_value(&self) -> (r: &[u8])
        ensures
            r@ == self@.default_value,
    {
        self.default_value.as_slice()
    }

    /// The value as `T`: an error unless it is exactly `T`'s size.
    pub fn actual_value<T: CipValue>(&self) -> (r: Result<T>)
        ensures
            match r {
                Ok(v) => self@.value.len() == T::size_spec() && v == T::from_le_bytes(self@.value),
                Err(e) => e is InvalidPacket && self@.value.len() != T::size_spec(),
            },
    {
        decode_value(self.value.as_slice())
    }

    /// The minimum as `T`: an error unless it is exactly `T`'s size.
    pub fn min_value<T: CipValue>(&self) -> (r: Result<T>)
        ensures
            match r {
                Ok(v) => self@.min_value.len() == T::size_spec() && v == T::from_le_bytes(self@.min_value),
                Err(e) => e is InvalidPacket && self@.min_value.len() != T::size_spec(),
            },
    {
        decode_value(self.min_value.as_slice())
    }

    /// The maximum as `T`: an error unless it is exactly `T`'s size.
    pub fn max_value<T: CipValue>(&self) -> (r: Result<T>)
        ensures
            match r {
                Ok(v) => self@.max_value.len() == T::size_spec() && v == T::from_le_bytes(self@.max_value),
                Err(e) => e is InvalidPacket && self@.max_value.len() != T::size_spec(),
            },
    {
        decode_value(self.max_value.as_slice())
    }

    /// The default as `T`: an error unless it is exactly `T`'s size.
    pub fn default_value<T: CipValue>(&self) -> (r: Result<T>)
        ensures
            match r {
                Ok(v) => self@.default_value.len() == T::size_spec() && v == T::from_le_bytes(self@.default_value),
                Err(e) => e is InvalidPacket && self@.default_value.len() != T::size_spec(),
            },
    {
        decode_value(self.default_value.as_slice())
    }

    pub fn set_raw_min_value(&mut self, bytes: Vec<u8>)
        ensures
            final(self)@ == (ParameterView { min_value: bytes@, ..old(self)@ }),
    {
        self.min_value = bytes;
    }

    pub fn set_raw_max_value(&mut self, bytes: Vec<u8>)
        ensures
            final(self)@ == (ParameterView { max_value: bytes@, ..old(self)@ }),
    {
        self.max_value = bytes;
    }

    pub fn set_raw_default_value(&mut self, bytes: Vec<u8>)
        ensures
            final(self)@ == (ParameterView { default_value: bytes@, ..old(self)@ }),
    {
        self.default_value = bytes;
    }
}

/// A value of `size` bytes can be read from `bytes` only when it holds
/// exactly that many.
pub fn check_value_size(bytes: &[u8], size: usize) -> (r: Result<()>)
    ensures
        r is Ok <==> bytes@.len() == size,
        r matches Err(e) ==> e is InvalidPacket,
{
    if bytes.len() != size {
        let mut msg = String::from_str("parameter value is ");
        push_dec(&mut msg, bytes.len() as u64);
        msg.append(" bytes, requested type is ");
        push_dec(&mut msg, size as u64);
        return Err(Error::InvalidPacket(msg));
    }
    Ok(())
}

/// `n` zero bytes.
fn zeros(n: usize) -> (v: Vec<u8>)
    ensures
        v@ == Seq::new(n as nat, |_i: int| 0u8),
{
    let mut v: Vec<u8> = Vec::new();
    let mut i: usize = 0;
    while i < n
        invariant
            i <= n,
            v@ == Seq::new(i as nat, |_i: int| 0u8),
        decreases n - i,
    {
        v.push(0);
        i = i + 1;
        assert(v@ =~= Seq::new(i as nat, |_i: int| 0u8));
    }
    v
}

} // verus!
