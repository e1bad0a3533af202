//! CIP data type, service, and general status codes.
//!
//! Each is a newtype over the wire integer rather than an enum, so that codes
//! a device sends but this crate does not know still decode.

use vstd::prelude::*;
use vstd::std_specs::convert::FromSpecImpl;
use vstd::string::*;

use crate::text::{hex, push_hex};

verus! {

/// CIP elementary data type codes.
#[derive(Clone, Copy, PartialEq, Eq, Structural, Hash, PartialOrd, Ord, Default, Debug)]
pub struct CipDataType(pub u8);

/// The constants are the wire values: `CipDataType(CipDataType::X)` is the code `X`.
impl CipDataType {
    pub const ANY: u8 = 0x00;
    pub const BOOL: u8 = 0xC1;
    pub const SINT: u8 = 0xC2;
    pub const INT: u8 = 0xC3;
    pub const DINT: u8 = 0xC4;
    pub const LINT: u8 = 0xC5;
    pub const USINT: u8 = 0xC6;
    pub const UINT: u8 = 0xC7;
    pub const UDINT: u8 = 0xC8;
    pub const ULINT: u8 = 0xC9;
    pub const REAL: u8 = 0xCA;
    pub const LREAL: u8 = 0xCB;
    pub const STIME: u8 = 0xCC;
    pub const DATE: u8 = 0xCD;
    pub const TIME_OF_DAY: u8 = 0xCE;
    pub const DATE_AND_TIME: u8 = 0xCF;
    pub const STRING: u8 = 0xD0;
    pub const BYTE: u8 = 0xD1;
    pub const WORD: u8 = 0xD2;
    pub const DWORD: u8 = 0xD3;
    pub const LWORD: u8 = 0xD4;
    pub const STRING2: u8 = 0xD5;
    pub const FTIME: u8 = 0xD6;
    pub const LTIME: u8 = 0xD7;
    pub const ITIME: u8 = 0xD8;
    pub const STRINGN: u8 = 0xD9;
    pub const SHORT_STRING: u8 = 0xDA;
    pub const TIME: u8 = 0xDB;
    pub const EPATH: u8 = 0xDC;
    pub const ENG_UNIT: u8 = 0xDD;
    pub const USINT_USINT: u8 = 0xA0;
    pub const USINT6: u8 = 0xA2;
    pub const MEMBER_LIST: u8 = 0xA3;
    pub const BYTE_ARRAY: u8 = 0xA4;

    /// The name of a code this crate knows.
    pub open spec fn name_of(v: u8) -> Option<&'static str> {
        match v {
            0x00 => Some("ANY"),
            0xC1 => Some("BOOL"),
            0xC2 => Some("SINT"),
            0xC3 => Some("INT"),
            0xC4 => Some("DINT"),
            0xC5 => Some("LINT"),
            0xC6 => Some("USINT"),
            0xC7 => Some("UINT"),
            0xC8 => Some("UDINT"),
            0xC9 => Some("ULINT"),
            0xCA => Some("REAL"),
            0xCB => Some("LREAL"),
            0xCC => Some("STIME"),
            0xCD => Some("DATE"),
            0xCE => Some("TIME_OF_DAY"),
            0xCF => Some("DATE_AND_TIME"),
            0xD0 => Some("STRING"),
            0xD1 => Some("BYTE"),
            0xD2 => Some("WORD"),
            0xD3 => Some("DWORD"),
            0xD4 => Some("LWORD"),
            0xD5 => Some("STRING2"),
            0xD6 => Some("FTIME"),
            0xD7 => Some("LTIME"),
            0xD8 => Some("ITIME"),
            0xD9 => Some("STRINGN"),
            0xDA => Some("SHORT_STRING"),
            0xDB => Some("TIME"),
            0xDC => Some("EPATH"),
            0xDD => Some("ENG_UNIT"),
            0xA0 => Some("USINT_USINT"),
            0xA2 => Some("USINT6"),
            0xA3 => Some("MEMBER_LIST"),
            0xA4 => Some("BYTE_ARRAY"),
            _ => None,
        }
    }

    /// Name of the code, if it is one this crate knows.
    pub fn name(self) -> (r: Option<&'static str>)
        ensures
            r == Self::name_of(self.0),
    {
        match self.0 {
            0x00 => Some("ANY"),
            0xC1 => Some("BOOL"),
            0xC2 => Some("SINT"),
            0xC3 => Some("INT"),
            0xC4 => Some("DINT"),
            0xC5 => Some("LINT"),
            0xC6 => Some("USINT"),
            0xC7 => Some("UINT"),
            0xC8 => Some("UDINT"),
            0xC9 => Some("ULINT"),
            0xCA => Some("REAL"),
            0xCB => Some("LREAL"),
            0xCC => Some("STIME"),
            0xCD => Some("DATE"),
            0xCE => Some("TIME_OF_DAY"),
            0xCF => Some("DATE_AND_TIME"),
            0xD0 => Some("STRING"),
            0xD1 => Some("BYTE"),
            0xD2 => Some("WORD"),
            0xD3 => Some("DWORD"),
            0xD4 => Some("LWORD"),
            0xD5 => Some("STRING2"),
            0xD6 => Some("FTIME"),
            0xD7 => Some("LTIME"),
            0xD8 => Some("ITIME"),
            0xD9 => Some("STRINGN"),
            0xDA => Some("SHORT_STRING"),
            0xDB => Some("TIME"),
            0xDC => Some("EPATH"),
            0xDD => Some("ENG_UNIT"),
            0xA0 => Some("USINT_USINT"),
            0xA2 => Some("USINT6"),
            0xA3 => Some("MEMBER_LIST"),
            0xA4 => Some("BYTE_ARRAY"),
            _ => None,
        }
    }

    /// `NAME(0x..)` for a known code, `CipDataType(0x..)` otherwise.
    pub open spec fn display(self) -> Seq<char> {
        Self::display_name(self.0) + "(0x"@ + hex(self.0 as nat) + ")"@
    }

    /// The name of a known code, or the type's name.
    pub open spec fn display_name(v: u8) -> Seq<char> {
        match Self::name_of(v) {
            Some(n) => n@,
            None => "CipDataType"@,
        }
    }

    /// The code's name and value, e.g. `RED(0x1)`.
    pub fn to_string(&self) -> (r: String)
        ensures
            r@ == self.display(),
    {
        let ghost head = Self::display_name(self.0);
        let mut s = match self.name() {
            Some(n) => String::from_str(n),
            None => String::from_str("CipDataType"),
        };
        assert(s@ == head);
        s.append("(0x");
        push_hex(&mut s, self.0 as u64);
        assert(s@ == head + "(0x"@ + hex(self.0 as nat));
        s.append(")");
        assert(s@ =~= self.display());
        s
    }
}

impl From<u8> for CipDataType {
    fn from(v: u8) -> (r: Self) {
        Self(v)
    }
}

impl FromSpecImpl<u8> for CipDataType {
    open spec fn obeys_from_spec() -> bool {
        true
    }

    open spec fn from_spec(v: u8) -> Self {
        Self(v)
    }
}

impl From<CipDataType> for u8 {
    fn from(v: CipDataType) -> (r: u8) {
        v.0
    }
}

impl FromSpecImpl<CipDataType> for u8 {
    open spec fn obeys_from_spec() -> bool {
        true
    }

    open spec fn from_spec(v: CipDataType) -> Self {
        v.0
    }
}
/// CIP service codes common to all objects.
#[derive(Clone, Copy, PartialEq, Eq, Structural, Hash, PartialOrd, Ord, Default, Debug)]
pub struct ServiceCode(pub u8);

/// The constants are the wire values: `ServiceCode(ServiceCode::X)` is the code `X`.
impl ServiceCode {
    pub const NONE: u8 = 0x00;
    pub const GET_ATTRIBUTE_ALL: u8 = 0x01;
    pub const SET_ATTRIBUTE_ALL: u8 = 0x02;
    pub const GET_ATTRIBUTE_LIST: u8 = 0x03;
    pub const SET_ATTRIBUTE_LIST: u8 = 0x04;
    pub const RESET: u8 = 0x05;
    pub const START: u8 = 0x06;
    pub const STOP: u8 = 0x07;
    pub const CREATE_OBJECT_INSTANCE: u8 = 0x08;
    pub const DELETE_OBJECT_INSTANCE: u8 = 0x09;
    pub const MULTIPLE_SERVICE_PACKET: u8 = 0x0A;
    pub const APPLY_ATTRIBUTES: u8 = 0x0D;
    pub const GET_ATTRIBUTE_SINGLE: u8 = 0x0E;
    pub const SET_ATTRIBUTE_SINGLE: u8 = 0x10;
    pub const FIND_NEXT_OBJECT_INSTANCE: u8 = 0x11;
    pub const ERROR_RESPONSE: u8 = 0x14;
    pub const RESTORE: u8 = 0x15;
    pub const SAVE: u8 = 0x16;
    pub const NO_OPERATION: u8 = 0x17;
    pub const GET_MEMBER: u8 = 0x18;
    pub const SET_MEMBER: u8 = 0x19;
    pub const INSERT_MEMBER: u8 = 0x1A;
    pub const REMOVE_MEMBER: u8 = 0x1B;
    pub const GROUP_SYNC: u8 = 0x1C;

    /// The name of a code this crate knows.
    pub open spec fn name_of(v: u8) -> Option<&'static str> {
        match v {
            0x00 => Some("NONE"),
            0x01 => Some("GET_ATTRIBUTE_ALL"),
            0x02 => Some("SET_ATTRIBUTE_ALL"),
            0x03 => Some("GET_ATTRIBUTE_LIST"),
            0x04 => Some("SET_ATTRIBUTE_LIST"),
            0x05 => Some("RESET"),
            0x06 => Some("START"),
            0x07 => Some("STOP"),
            0x08 => Some("CREATE_OBJECT_INSTANCE"),
            0x09 => Some("DELETE_OBJECT_INSTANCE"),
            0x0A => Some("MULTIPLE_SERVICE_PACKET"),
            0x0D => Some("APPLY_ATTRIBUTES"),
            0x0E => Some("GET_ATTRIBUTE_SINGLE"),
            0x10 => Some("SET_ATTRIBUTE_SINGLE"),
            0x11 => Some("FIND_NEXT_OBJECT_INSTANCE"),
            0x14 => Some("ERROR_RESPONSE"),
            0x15 => Some("RESTORE"),
            0x16 => Some("SAVE"),
            0x17 => Some("NO_OPERATION"),
            0x18 => Some("GET_MEMBER"),
            0x19 => Some("SET_MEMBER"),
            0x1A => Some("INSERT_MEMBER"),
            0x1B => Some("REMOVE_MEMBER"),
            0x1C => Some("GROUP_SYNC"),
            _ => None,
        }
    }

    /// Name of the code, if it is one this crate knows.
    pub fn name(self) -> (r: Option<&'static str>)
        ensures
            r == Self::name_of(self.0),
    {
        match self.0 {
            0x00 => Some("NONE"),
            0x01 => Some("GET_ATTRIBUTE_ALL"),
            0x02 => Some("SET_ATTRIBUTE_ALL"),
            0x03 => Some("GET_ATTRIBUTE_LIST"),
            0x04 => Some("SET_ATTRIBUTE_LIST"),
            0x05 => Some("RESET"),
            0x06 => Some("START"),
            0x07 => Some("STOP"),
            0x08 => Some("CREATE_OBJECT_INSTANCE"),
            0x09 => Some("DELETE_OBJECT_INSTANCE"),
            0x0A => Some("MULTIPLE_SERVICE_PACKET"),
            0x0D => Some("APPLY_ATTRIBUTES"),
            0x0E => Some("GET_ATTRIBUTE_SINGLE"),
            0x10 => Some("SET_ATTRIBUTE_SINGLE"),
            0x11 => Some("FIND_NEXT_OBJECT_INSTANCE"),
            0x14 => Some("ERROR_RESPONSE"),
            0x15 => Some("RESTORE"),
            0x16 => Some("SAVE"),
            0x17 => Some("NO_OPERATION"),
            0x18 => Some("GET_MEMBER"),
            0x19 => Some("SET_MEMBER"),
            0x1A => Some("INSERT_MEMBER"),
            0x1B => Some("REMOVE_MEMBER"),
            0x1C => Some("GROUP_SYNC"),
            _ => None,
        }
    }

    /// `NAME(0x..)` for a known code, `ServiceCode(0x..)` otherwise.
    pub open spec fn display(self) -> Seq<char> {
        Self::display_name(self.0) + "(0x"@ + hex(self.0 as nat) + ")"@
    }

    /// The name of a known code, or the type's name.
    pub open spec fn display_name(v: u8) -> Seq<char> {
        match Self::name_of(v) {
            Some(n) => n@,
            None => "ServiceCode"@,
        }
    }

    /// The code's name and value, e.g. `RED(0x1)`.
    pub fn to_string(&self) -> (r: String)
        ensures
            r@ == self.display(),
    {
        let ghost head = Self::display_name(self.0);
        let mut s = match self.name() {
            Some(n) => String::from_str(n),
            None => String::from_str("ServiceCode"),
        };
        assert(s@ == head);
        s.append("(0x");
        push_hex(&mut s, self.0 as u64);
        assert(s@ == head + "(0x"@ + hex(self.0 as nat));
        s.append(")");
        assert(s@ =~= self.display());
        s
    }
}

impl From<u8> for ServiceCode {
    fn from(v: u8) -> (r: Self) {
        Self(v)
    }
}

impl FromSpecImpl<u8> for ServiceCode {
    open spec fn obeys_from_spec() -> bool {
        true
    }

    open spec fn from_spec(v: u8) -> Self {
        Self(v)
    }
}

impl From<ServiceCode> for u8 {
    fn from(v: ServiceCode) -> (r: u8) {
        v.0
    }
}

impl FromSpecImpl<ServiceCode> for u8 {
    open spec fn obeys_from_spec() -> bool {
        true
    }

    open spec fn from_spec(v: ServiceCode) -> Self {
        v.0
    }
}
/// CIP general status codes returned in message router responses.
#[derive(Clone, Copy, PartialEq, Eq, Structural, Hash, PartialOrd, Ord, Default, Debug)]
pub struct GeneralStatusCode(pub u8);

/// The constants are the wire values: `GeneralStatusCode(GeneralStatusCode::X)` is the code `X`.
impl GeneralStatusCode {
    pub const SUCCESS: u8 = 0x00;
    pub const CONNECTION_FAILURE: u8 = 0x01;
    pub const RESOURCE_UNAVAILABLE: u8 = 0x02;
    pub const INVALID_PARAMETER_VALUE: u8 = 0x03;
    pub const PATH_SEGMENT_ERROR: u8 = 0x04;
    pub const PATH_DESTINATION_UNKNOWN: u8 = 0x05;
    pub const PARTIAL_TRANSFER: u8 = 0x06;
    pub const CONNECTION_LOST: u8 = 0x07;
    pub const SERVICE_NOT_SUPPORTED: u8 = 0x08;
    pub const INVALID_ATTRIBUTE_VALUE: u8 = 0x09;
    pub const ATTRIBUTE_LIST_ERROR: u8 = 0x0A;
    pub const ALREADY_IN_REQUESTED_MODE_OR_STATE: u8 = 0x0B;
    pub const OBJECT_STATE_CONFLICT: u8 = 0x0C;
    pub const OBJECT_ALREADY_EXISTS: u8 = 0x0D;
    pub const ATTRIBUTE_NOT_SETTABLE: u8 = 0x0E;
    pub const PRIVILEGE_VIOLATION: u8 = 0x0F;
    pub const DEVICE_STATE_CONFLICT: u8 = 0x10;
    pub const REPLY_DATA_TOO_LARGE: u8 = 0x11;
    pub const FRAGMENTATION_OF_PRIMITIVE_VALUE: u8 = 0x12;
    pub const NOT_ENOUGH_DATA: u8 = 0x13;
    pub const ATTRIBUTE_NOT_SUPPORTED: u8 = 0x14;
    pub const TOO_MUCH_DATA: u8 = 0x15;
    pub const OBJECT_DOES_NOT_EXIST: u8 = 0x16;
    pub const SVCFRAG_SEQNC_NOT_IN_PROGRESS: u8 = 0x17;
    pub const NO_STORED_ATTRIBUTE_DATA: u8 = 0x18;
    pub const STORE_OPERATION_FAILURE: u8 = 0x19;
    pub const ROUTING_FAILURE_REQUEST_SIZE: u8 = 0x1A;
    pub const ROUTING_FAILURE_RESPONSE_SIZE: u8 = 0x1B;
    pub const MISSING_ATTRIBUTE_LIST_ENTRY: u8 = 0x1C;
    pub const INVALID_ATTRIBUTE_LIST: u8 = 0x1D;
    pub const EMBEDDED_SERVICE_ERROR: u8 = 0x1E;
    pub const VENDOR_SPECIFIC: u8 = 0x1F;
    pub const INVALID_PARAMETER: u8 = 0x20;
    pub const WRITE_ONCE_WRITTEN: u8 = 0x21;
    pub const INVALID_REPLY_RECEIVED: u8 = 0x22;
    pub const KEY_FAILURE_IN_PATH: u8 = 0x25;
    pub const PATH_SIZE_INVALID: u8 = 0x26;
    pub const UNEXPECTED_ATTRIBUTE: u8 = 0x27;
    pub const INVALID_MEMBER_ID: u8 = 0x28;
    pub const MEMBER_NOT_SETTABLE: u8 = 0x29;

    /// The name of a code this crate knows.
    pub open spec fn name_of(v: u8) -> Option<&'static str> {
        match v {
            0x00 => Some("SUCCESS"),
            0x01 => Some("CONNECTION_FAILURE"),
            0x02 => Some("RESOURCE_UNAVAILABLE"),
            0x03 => Some("INVALID_PARAMETER_VALUE"),
            0x04 => Some("PATH_SEGMENT_ERROR"),
            0x05 => Some("PATH_DESTINATION_UNKNOWN"),
            0x06 => Some("PARTIAL_TRANSFER"),
            0x07 => Some("CONNECTION_LOST"),
            0x08 => Some("SERVICE_NOT_SUPPORTED"),
            0x09 => Some("INVALID_ATTRIBUTE_VALUE"),
            0x0A => Some("ATTRIBUTE_LIST_ERROR"),
            0x0B => Some("ALREADY_IN_REQUESTED_MODE_OR_STATE"),
            0x0C => Some("OBJECT_STATE_CONFLICT"),
            0x0D => Some("OBJECT_ALREADY_EXISTS"),
            0x0E => Some("ATTRIBUTE_NOT_SETTABLE"),
            0x0F => Some("PRIVILEGE_VIOLATION"),
            0x10 => Some("DEVICE_STATE_CONFLICT"),
            0x11 => Some("REPLY_DATA_TOO_LARGE"),
            0x12 => Some("FRAGMENTATION_OF_PRIMITIVE_VALUE"),
            0x13 => Some("NOT_ENOUGH_DATA"),
            0x14 => Some("ATTRIBUTE_NOT_SUPPORTED"),
            0x15 => Some("TOO_MUCH_DATA"),
            0x16 => Some("OBJECT_DOES_NOT_EXIST"),
            0x17 => Some("SVCFRAG_SEQNC_NOT_IN_PROGRESS"),
            0x18 => Some("NO_STORED_ATTRIBUTE_DATA"),
            0x19 => Some("STORE_OPERATION_FAILURE"),
            0x1A => Some("ROUTING_FAILURE_REQUEST_SIZE"),
            0x1B => Some("ROUTING_FAILURE_RESPONSE_SIZE"),
            0x1C => Some("MISSING_ATTRIBUTE_LIST_ENTRY"),
            0x1D => Some("INVALID_ATTRIBUTE_LIST"),
            0x1E => Some("EMBEDDED_SERVICE_ERROR"),
            0x1F => Some("VENDOR_SPECIFIC"),
            0x20 => Some("INVALID_PARAMETER"),
            0x21 => Some("WRITE_ONCE_WRITTEN"),
            0x22 => Some("INVALID_REPLY_RECEIVED"),
            0x25 => Some("KEY_FAILURE_IN_PATH"),
            0x26 => Some("PATH_SIZE_INVALID"),
            0x27 => Some("UNEXPECTED_ATTRIBUTE"),
            0x28 => Some("INVALID_MEMBER_ID"),
            0x29 => Some("MEMBER_NOT_SETTABLE"),
            _ => None,
        }
    }

    /// Name of the code, if it is one this crate knows.
    pub fn name(self) -> (r: Option<&'static str>)
        ensures
            r == Self::name_of(self.0),
    {
        match self.0 {
            0x00 => Some("SUCCESS"),
            0x01 => Some("CONNECTION_FAILURE"),
            0x02 => Some("RESOURCE_UNAVAILABLE"),
            0x03 => Some("INVALID_PARAMETER_VALUE"),
            0x04 => Some("PATH_SEGMENT_ERROR"),
            0x05 => Some("PATH_DESTINATION_UNKNOWN"),
            0x06 => Some("PARTIAL_TRANSFER"),
            0x07 => Some("CONNECTION_LOST"),
            0x08 => Some("SERVICE_NOT_SUPPORTED"),
            0x09 => Some("INVALID_ATTRIBUTE_VALUE"),
            0x0A => Some("ATTRIBUTE_LIST_ERROR"),
            0x0B => Some("ALREADY_IN_REQUESTED_MODE_OR_STATE"),
            0x0C => Some("OBJECT_STATE_CONFLICT"),
            0x0D => Some("OBJECT_ALREADY_EXISTS"),
            0x0E => Some("ATTRIBUTE_NOT_SETTABLE"),
            0x0F => Some("PRIVILEGE_VIOLATION"),
            0x10 => Some("DEVICE_STATE_CONFLICT"),
            0x11 => Some("REPLY_DATA_TOO_LARGE"),
            0x12 => Some("FRAGMENTATION_OF_PRIMITIVE_VALUE"),
            0x13 => Some("NOT_ENOUGH_DATA"),
            0x14 => Some("ATTRIBUTE_NOT_SUPPORTED"),
            0x15 => Some("TOO_MUCH_DATA"),
            0x16 => Some("OBJECT_DOES_NOT_EXIST"),
            0x17 => Some("SVCFRAG_SEQNC_NOT_IN_PROGRESS"),
            0x18 => Some("NO_STORED_ATTRIBUTE_DATA"),
            0x19 => Some("STORE_OPERATION_FAILURE"),
            0x1A => Some("ROUTING_FAILURE_REQUEST_SIZE"),
            0x1B => Some("ROUTING_FAILURE_RESPONSE_SIZE"),
            0x1C => Some("MISSING_ATTRIBUTE_LIST_ENTRY"),
            0x1D => Some("INVALID_ATTRIBUTE_LIST"),
            0x1E => Some("EMBEDDED_SERVICE_ERROR"),
            0x1F => Some("VENDOR_SPECIFIC"),
            0x20 => Some("INVALID_PARAMETER"),
            0x21 => Some("WRITE_ONCE_WRITTEN"),
            0x22 => Some("INVALID_REPLY_RECEIVED"),
            0x25 => Some("KEY_FAILURE_IN_PATH"),
            0x26 => Some("PATH_SIZE_INVALID"),
            0x27 => Some("UNEXPECTED_ATTRIBUTE"),
            0x28 => Some("INVALID_MEMBER_ID"),
            0x29 => Some("MEMBER_NOT_SETTABLE"),
            _ => None,
        }
    }

    /// `NAME(0x..)` for a known code, `GeneralStatusCode(0x..)` otherwise.
    pub open spec fn display(self) -> Seq<char> {
        Self::display_name(self.0) + "(0x"@ + hex(self.0 as nat) + ")"@
    }

    /// The name of a known code, or the type's name.
    pub open spec fn display_name(v: u8) -> Seq<char> {
        match Self::name_of(v) {
            Some(n) => n@,
            None => "GeneralStatusCode"@,
        }
    }

    /// The code's name and value, e.g. `RED(0x1)`.
    pub fn to_string(&self) -> (r: String)
        ensures
            r@ == self.display(),
    {
        let ghost head = Self::display_name(self.0);
        let mut s = match self.name() {
            Some(n) => String::from_str(n),
            None => String::from_str("GeneralStatusCode"),
        };
        assert(s@ == head);
        s.append("(0x");
        push_hex(&mut s, self.0 as u64);
        assert(s@ == head + "(0x"@ + hex(self.0 as nat));
        s.append(")");
        assert(s@ =~= self.display());
        s
    }
}

impl From<u8> for GeneralStatusCode {
    fn from(v: u8) -> (r: Self) {
        Self(v)
    }
}

impl FromSpecImpl<u8> for GeneralStatusCode {
    open spec fn obeys_from_spec() -> bool {
        true
    }

    open spec fn from_spec(v: u8) -> Self {
        Self(v)
    }
}

impl From<GeneralStatusCode> for u8 {
    fn from(v: GeneralStatusCode) -> (r: u8) {
        v.0
    }
}

impl FromSpecImpl<GeneralStatusCode> for u8 {
    open spec fn obeys_from_spec() -> bool {
        true
    }

    open spec fn from_spec(v: GeneralStatusCode) -> Self {
        v.0
    }
}
} // verus!
