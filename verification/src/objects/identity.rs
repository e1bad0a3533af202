//! Identity object (class 0x01).

use vstd::prelude::*;
use vstd::utf8::{decode_utf8, valid_utf8};

use crate::cip::{CipRevision, EPath, EPathView, GeneralStatusCode, MessageRouterResponse, ServiceCode};
use crate::error::{Error, Result};
use crate::eip::ItemView;
use crate::message_router::{answered, MessageRouter};
use crate::session::Session;
use crate::wire::{from_le16, from_le32, lossy_text, try_get_short_string, try_get_u16_le, try_get_u32_le};

verus! {

/// Identity object (class 0x01).
#[derive(Debug, Clone, Default, PartialEq, Eq)]
pub struct IdentityObject {
    pub instance_id: u16,
    pub vendor_id: u16,
    pub device_type: u16,
    pub product_code: u16,
    pub revision: CipRevision,
    pub status: u16,
    pub serial_number: u32,
    pub product_name: String,
}

/// The attributes decode when the 14 bytes of numbers and the product name
/// (a length byte and that many bytes) are all there.
pub open spec fn identity_ok(s: Seq<u8>) -> bool {
    s.len() >= 15 && s.len() - 15 >= s[14]
}

/// The bytes an identity's attributes take in `s`.
pub open spec fn identity_len(s: Seq<u8>) -> nat {
    (15 + s[14]) as nat
}

impl IdentityObject {
    /// Identity object class ID.
    pub const CLASS_ID: u16 = 0x01;

    /// The identity decoded from the attributes `s`: vendor ID, device
    /// type, product code, revision, status, serial number, and product name
    /// (its characters, when it is valid UTF-8).
    pub open spec fn decoded_from(self, instance_id: u16, s: Seq<u8>) -> bool {
        &&& self.instance_id == instance_id
        &&& self.vendor_id == from_le16(s)
        &&& self.device_type == from_le16(s.skip(2))
        &&& self.product_code == from_le16(s.skip(4))
        &&& self.revision == (CipRevision { major: s[6], minor: s[7] })
        &&& self.status == from_le16(s.skip(8))
        &&& self.serial_number == from_le32(s.skip(10))
        &&& self.product_name@ == lossy_text(s.subrange(15, 15 + s[14]))
        &&& valid_utf8(s.subrange(15, 15 + s[14])) ==> self.product_name@ == decode_utf8(s.subrange(15, 15 + s[14]))
    }

    /// Reads the attributes from the front of `buf`.
    pub fn decode_from(instance_id: u16, buf: &mut &[u8]) -> (r: Result<Self>)
        ensures
            identity_ok(old(buf)@) ==> (r matches Ok(id) && id.decoded_from(instance_id, old(buf)@))
                && final(buf)@ == old(buf)@.skip(identity_len(old(buf)@) as int),
            !identity_ok(old(buf)@) ==> (r matches Err(e) && e is Truncated),
    {
        let ghost s = buf@;
        let vendor_id = match try_get_u16_le(buf) {
            Ok(v) => v,
            Err(e) => return Err(e),
        };
        let device_type = match try_get_u16_le(buf) {
            Ok(v) => v,
            Err(e) => return Err(e),
        };
        let product_code = match try_get_u16_le(buf) {
            Ok(v) => v,
            Err(e) => return Err(e),
        };
        let revision = match CipRevision::decode(buf) {
            Ok(v) => v,
            Err(e) => return Err(e),
        };
        let status = match try_get_u16_le(buf) {
            Ok(v) => v,
            Err(e) => return Err(e),
        };
        let serial_number = match try_get_u32_le(buf) {
            Ok(v) => v,
            Err(e) => return Err(e),
        };
        assert(buf@ =~= s.skip(14));
        assert(s.skip(2).skip(2) =~= s.skip(4));
        assert(s.skip(4).skip(2) =~= s.skip(6));
        assert(s.skip(8).skip(2) =~= s.skip(10));
        let ghost rest = buf@;
        let product_name = match try_get_short_string(buf) {
            Ok(v) => v,
            Err(e) => return Err(e),
        };
        assert(rest.subrange(1, 1 + rest[0]) =~= s.subrange(15, 15 + s[14]));
        assert(rest.skip(1 + rest[0]) =~= s.skip(identity_len(s) as int));
        Ok(Self { instance_id, vendor_id, device_type, product_code, revision, status, serial_number, product_name })
    }

    /// Decodes the attributes of a Get_Attributes_All reply.
    pub fn decode(instance_id: u16, data: &[u8]) -> (r: Result<Self>)
        ensures
            r is Ok <==> identity_ok(data@),
            r matches Ok(id) ==> id.decoded_from(instance_id, data@),
            r matches Err(e) ==> e is Truncated,
    {
        let mut buf = data;
        Self::decode_from(instance_id, &mut buf)
    }

    /// Reads all attributes with Get_Attributes_All.
    pub fn read<S: Session + ?Sized>(session: &S, router: &MessageRouter, instance_id: u16) -> (r: Result<Self>)
        ensures
            r matches Ok(id) ==> exists|resp: MessageRouterResponse|
                #![trigger answered(session, router@, ServiceCode(ServiceCode::GET_ATTRIBUTE_ALL),
                    EPathView { class_id: 1, instance_id: Some(instance_id), attribute_id: None },
                    Seq::<u8>::empty(), Seq::<ItemView>::empty(), resp)]
                answered(session, router@, ServiceCode(ServiceCode::GET_ATTRIBUTE_ALL),
                    EPathView { class_id: 1, instance_id: Some(instance_id), attribute_id: None },
                    Seq::<u8>::empty(), Seq::<ItemView>::empty(), resp)
                && resp.general_status.0 == GeneralStatusCode::SUCCESS
                && id.decoded_from(instance_id, resp.data@),
    {
        let empty: [u8; 0] = [];
        let path = EPath::instance(Self::CLASS_ID, instance_id);
        let response = match router.send_request(session, ServiceCode(ServiceCode::GET_ATTRIBUTE_ALL), &path, empty.as_slice()) {
            Ok(r) => r,
            Err(e) => return Err(e),
        };
        assert(empty@ =~= Seq::<u8>::empty());
        let ghost resp = response;
        let response = match response.check("read identity object") {
            Ok(r) => r,
            Err(e) => return Err(e),
        };
        Self::decode(instance_id, response.data.as_slice())
    }
}

} // verus!
