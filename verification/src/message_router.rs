//! Unconnected explicit requests (SendRRData) to a device's message router.

use vstd::prelude::*;
use vstd::string::*;

use crate::cip::{encode_path, encode_request, request_bytes, response_ok, EPath, EPathView, MessageRouterResponse, SegmentSize, ServiceCode};
use crate::eip::{
    decode_packet, item_views, packet_bytes, CommonPacket, CommonPacketItem, CommonPacketItemId, EncapsCommand,
    EncapsPacket, EncapsView, ItemView,
};
use crate::error::{Error, Fault, Result};
use crate::session::{exchange_error, Session};
use crate::wire::{le16, le32, try_skip};

verus! {

/// Sends unconnected explicit requests (SendRRData) to a device's message router.
#[derive(Debug, Clone, Copy, Default, PartialEq, Eq, Structural)]
pub struct MessageRouter {
    segment_size: SegmentSize,
}

impl View for MessageRouter {
    type V = SegmentSize;

    closed spec fn view(&self) -> SegmentSize {
        self.segment_size
    }
}

/// The items of a request: a null address, the unconnected data item
/// carrying the message router request, then any additional items.
pub open spec fn request_items(
    service: ServiceCode,
    path: EPathView,
    data: Seq<u8>,
    size: SegmentSize,
    additional: Seq<ItemView>,
) -> Seq<ItemView> {
    seq![
        (CommonPacketItemId(CommonPacketItemId::NULL_ADDRESS), Seq::<u8>::empty()),
        (CommonPacketItemId(CommonPacketItemId::UNCONNECTED_MESSAGE), request_bytes(service, encode_path(path, size), data)),
    ] + additional
}

/// The SendRRData packet of a request: interface handle 0, timeout 0, and
/// the common packet of [`request_items`].
pub open spec fn rr_request(
    session_handle: u32,
    service: ServiceCode,
    path: EPathView,
    data: Seq<u8>,
    size: SegmentSize,
    additional: Seq<ItemView>,
) -> EncapsView {
    EncapsPacket::new_spec(
        EncapsCommand::SEND_RR_DATA,
        session_handle,
        le32(0) + le16(0) + packet_bytes(request_items(service, path, data, size, additional)),
    )
}

/// The items of a SendRRData reply, after its interface handle and timeout.
pub open spec fn rr_reply_items(data: Seq<u8>) -> core::result::Result<Seq<ItemView>, Fault> {
    if data.len() < 6 {
        Err(Fault::Truncated)
    } else {
        decode_packet(data.skip(6))
    }
}

/// `resp` is the message router reply carried by the SendRRData reply data
/// `data`: the second item decodes to it, and the items after it are its
/// additional packet items.
pub open spec fn reply_decodes(data: Seq<u8>, resp: MessageRouterResponse) -> bool {
    &&& rr_reply_items(data) is Ok
    &&& rr_reply_items(data)->Ok_0.len() >= 2
    &&& response_ok(rr_reply_items(data)->Ok_0[1].1)
    &&& resp.fields_from(rr_reply_items(data)->Ok_0[1].1)
    &&& item_views(resp.additional_packet_items@) == rr_reply_items(data)->Ok_0.skip(2)
}

/// `session` answered the SendRRData request for `service`, `path`, and
/// `data` with a reply that decodes to `resp`.
pub open spec fn answered<S: Session + ?Sized>(
    session: &S,
    size: SegmentSize,
    service: ServiceCode,
    path: EPathView,
    data: Seq<u8>,
    additional: Seq<ItemView>,
    resp: MessageRouterResponse,
) -> bool {
    exists|h: u32, reply: EncapsView|
        #![trigger session.exchanged(rr_request(h, service, path, data, size, additional), reply)]
        session.exchanged(rr_request(h, service, path, data, size, additional), reply) && reply_decodes(
            reply.data,
            resp,
        )
}

impl MessageRouter {
    /// Encodes paths with 16-bit segments.
    pub fn new() -> (r: Self)
        ensures
            r@ == SegmentSize::Bits16,
    {
        Self { segment_size: SegmentSize::Bits16 }
    }

    /// Encodes paths with 8-bit segments where the IDs fit.
    pub fn with_8bit_path_segments() -> (r: Self)
        ensures
            r@ == SegmentSize::Bits8,
    {
        Self { segment_size: SegmentSize::Bits8 }
    }

    pub fn segment_size(&self) -> (r: SegmentSize)
        ensures
            r == self@,
    {
        self.segment_size
    }

    /// The SendRRData packet that carries a request.
    pub fn request_packet(
        &self,
        session_handle: u32,
        service: ServiceCode,
        path: &EPath,
        data: &[u8],
        additional_items: &[CommonPacketItem],
    ) -> (p: EncapsPacket)
        ensures
            p@ == rr_request(session_handle, service, path@, data@, self@, item_views(additional_items@)),
    {
        let request = encode_request(service, path, data, self.segment_size);
        let mut items: Vec<CommonPacketItem> = Vec::new();
        items.push(CommonPacketItem::null_address());
        items.push(CommonPacketItem::unconnected_data(request));
        let mut i: usize = 0;
        while i < additional_items.len()
            invariant
                i <= additional_items@.len(),
                item_views(items@) == request_items(service, path@, data@, self@, item_views(additional_items@.take(i as int))),
            decreases additional_items@.len() - i,
        {
            let ghost old_items = items@;
            let item = additional_items[i].clone_item();
            items.push(item);
            assert(item_views(items@) =~= item_views(old_items).push(additional_items@[i as int]@));
            assert(item_views(additional_items@.take(i + 1)) =~= item_views(additional_items@.take(i as int)).push(
                additional_items@[i as int]@,
            ));
            i = i + 1;
            assert(item_views(items@) =~= request_items(service, path@, data@, self@, item_views(additional_items@.take(i as int))));
        }
        assert(additional_items@.take(i as int) =~= additional_items@);
        let cpf = CommonPacket::new(items).encode();
        EncapsPacket::send_rr_data(session_handle, 0, cpf.as_slice())
    }

    /// Decodes the message router reply carried by a SendRRData reply.
    pub fn decode_reply(reply: &EncapsPacket) -> (r: Result<MessageRouterResponse>)
        ensures
            match rr_reply_items(reply@.data) {
                Err(f) => r matches Err(e) && e.is_fault(f),
                Ok(items) => if items.len() < 2 || !response_ok(items[1].1) {
                    r matches Err(e) && e is InvalidPacket
                } else {
                    r matches Ok(resp) && reply_decodes(reply@.data, resp)
                },
            },
    {
        let mut buf = reply.data.as_slice();
        match try_skip(&mut buf, 6) {
            Ok(()) => {},
            Err(e) => return Err(e),
        }
        let cp = match CommonPacket::decode(buf) {
            Ok(cp) => cp,
            Err(e) => return Err(e),
        };
        let mut items = cp.items;
        if items.len() < 2 {
            return Err(Error::InvalidPacket(String::from_str("SendRRData reply has no data item")));
        }
        let ghost all = items@;
        let rest = items.split_off(2);
        assert(all.skip(2) =~= rest@);
        let mut response = match MessageRouterResponse::decode(items[1].data.as_slice()) {
            Ok(r) => r,
            Err(e) => return Err(e),
        };
        response.additional_packet_items = rest;
        assert(item_views(rest@) =~= item_views(all).skip(2));
        Ok(response)
    }

    pub fn send_request<S: Session + ?Sized>(
        &self,
        session: &S,
        service: ServiceCode,
        path: &EPath,
        data: &[u8],
    ) -> (r: Result<MessageRouterResponse>)
        ensures
            r matches Ok(resp) ==> answered(session, self@, service, path@, data@, Seq::<ItemView>::empty(), resp),
            r matches Err(e) ==> exchange_error(e),
    {
        let none: Vec<CommonPacketItem> = Vec::new();
        let r = self.send_request_with_items(session, service, path, data, none.as_slice());
        assert(item_views(none@) =~= Seq::<ItemView>::empty());
        r
    }

    /// Sends a request with extra common packet items after the unconnected data
    /// item. Returns the response whatever its general status; see
    /// [`MessageRouterResponse::check`].
    pub fn send_request_with_items<S: Session + ?Sized>(
        &self,
        session: &S,
        service: ServiceCode,
        path: &EPath,
        data: &[u8],
        additional_items: &[CommonPacketItem],
    ) -> (r: Result<MessageRouterResponse>)
        ensures
            r matches Ok(resp) ==> answered(session, self@, service, path@, data@, item_views(additional_items@), resp),
            r matches Err(e) ==> exchange_error(e),
    {
        let handle = session.session_handle();
        let packet = self.request_packet(handle, service, path, data, additional_items);
        let reply = match session.send_and_receive(&packet) {
            Ok(reply) => reply,
            Err(e) => return Err(e),
        };
        let r = Self::decode_reply(&reply);
        proof {
            if r is Ok {
                assert(session.exchanged(
                    rr_request(handle, service, path@, data@, self@, item_views(additional_items@)),
                    reply@,
                ));
            }
        }
        r
    }
}

} // verus!

verus! {

/// `session` answered a Get_Attribute_Single of `class`/`instance`/`attribute`
/// with a successful reply `resp`.
pub open spec fn read_answered<S: Session + ?Sized>(
    session: &S,
    size: SegmentSize,
    class: u16,
    instance: u16,
    attribute: u16,
    resp: MessageRouterResponse,
) -> bool {
    &&& answered(
        session,
        size,
        ServiceCode(ServiceCode::GET_ATTRIBUTE_SINGLE),
        EPathView { class_id: class, instance_id: Some(instance), attribute_id: Some(attribute) },
        Seq::<u8>::empty(),
        Seq::<ItemView>::empty(),
        resp,
    )
    &&& resp.general_status.0 == crate::cip::GeneralStatusCode::SUCCESS
}

/// `session` answered a request for `service` on `path` with data `data`
/// with a reply whose general status is `status`, not success, with the
/// additional status words `additional`.
pub open spec fn request_rejected<S: Session + ?Sized>(
    session: &S,
    size: SegmentSize,
    service: u8,
    path: EPathView,
    data: Seq<u8>,
    status: crate::cip::GeneralStatusCode,
    additional: Seq<u16>,
) -> bool {
    exists|resp: MessageRouterResponse|
        #[trigger] answered(session, size, ServiceCode(service), path, data, Seq::<ItemView>::empty(), resp)
            && resp.general_status == status && status.0 != crate::cip::GeneralStatusCode::SUCCESS
            && resp.additional_status@ == additional
}

/// `session` answered a request for `service` on `path` with data `data`
/// with a successful reply `resp`.
pub open spec fn request_succeeded<S: Session + ?Sized>(
    session: &S,
    size: SegmentSize,
    service: u8,
    path: EPathView,
    data: Seq<u8>,
    resp: MessageRouterResponse,
) -> bool {
    &&& answered(session, size, ServiceCode(service), path, data, Seq::<ItemView>::empty(), resp)
    &&& resp.general_status.0 == crate::cip::GeneralStatusCode::SUCCESS
}

impl MessageRouter {
    /// Sends a request and checks its general status: the reply on success,
    /// an [`Error::Cip`] with `context` otherwise.
    pub fn request_checked<S: Session + ?Sized>(
        &self,
        session: &S,
        service: ServiceCode,
        path: &EPath,
        data: &[u8],
        context: &str,
    ) -> (r: Result<MessageRouterResponse>)
        ensures
            r matches Ok(resp) ==> request_succeeded(session, self@, service.0, path@, data@, resp),
            r matches Err(e) ==> exchange_error(e) || e is Cip,
            r matches Err(Error::Cip { context: c, status, additional }) ==> c@ == context@ && request_rejected(
                session,
                self@,
                service.0,
                path@,
                data@,
                status,
                additional@,
            ),
    {
        let resp = match self.send_request(session, service, path, data) {
            Ok(r) => r,
            Err(e) => return Err(e),
        };
        resp.check(context)
    }

    /// Reads one attribute with Get_Attribute_Single; its data on success.
    pub fn read_attribute<S: Session + ?Sized>(
        &self,
        session: &S,
        class: u16,
        instance: u16,
        attribute: u16,
        context: &str,
    ) -> (r: Result<Vec<u8>>)
        ensures
            r matches Ok(d) ==> exists|resp: MessageRouterResponse| #[trigger]
                read_answered(session, self@, class, instance, attribute, resp) && resp.data@ == d@,
    {
        let empty: [u8; 0] = [];
        assert(empty@ =~= Seq::<u8>::empty());
        let path = EPath::attribute(class, instance, attribute);
        let resp = match self.request_checked(session, ServiceCode(ServiceCode::GET_ATTRIBUTE_SINGLE), &path, empty.as_slice(), context) {
            Ok(r) => r,
            Err(e) => return Err(e),
        };
        let ghost g = resp;
        assert(read_answered(session, self@, class, instance, attribute, g));
        Ok(resp.data)
    }
}

} // verus!
