//! Opening and closing IO connections: the Forward Open request built from a
//! connection's configuration, the connection settings taken from the
//! reply, and the Forward Close.

use vstd::prelude::*;
use vstd::string::*;

use super::connection::IoConnectionConfig;
use crate::cip::connection_manager::{
    config_segment, forward_close_bytes, forward_open_bytes, wire_size_of, ConnectionConfig, ConnectionType,
    Direction, ForwardCloseRequest, ForwardOpenRequest, ForwardOpenResponse, NetworkParams, SizeType, TransportClass,
    TransportTrigger, CLASS_ID, FORWARD_CLOSE, FORWARD_OPEN, LARGE_FORWARD_OPEN, MAX_CONFIG_DATA, MAX_SMALL_SIZE,
};
use crate::cip::connection_manager::{forward_open_reply_ok, reply_shortfall};
use crate::cip::{EPath, EPathView, MessageRouterResponse, ServiceCode};
use crate::eip::{decode_sockaddr, decode_sockaddr_spec, item_views, CommonPacketItem, CommonPacketItemId, ItemView, SocketAddress};
use crate::error::{Error, Result};
use crate::wire::truncated;
use crate::message_router::{request_rejected, request_succeeded, MessageRouter};
use crate::session::{exchange_error, Session};
use crate::text::push_dec;
use crate::EIP_DEFAULT_IMPLICIT_PORT;

verus! {

/// The connection IDs and serial numbers handed out to Forward Open requests.
#[derive(Debug, Clone, Copy, PartialEq, Eq, Structural)]
pub struct ConnectionIds {
    pub next_serial: u16,
    /// The last connection ID handed out.
    pub next_connection_id: u32,
}

/// `n + 1`, wrapping at the top of the type.
pub open spec fn next_u32(n: u32) -> u32 {
    if n == u32::MAX { 0 } else { (n + 1) as u32 }
}

pub open spec fn next_u16(n: u16) -> u16 {
    if n == u16::MAX { 0 } else { (n + 1) as u16 }
}

impl ConnectionIds {
    /// Starting points taken from a random `seed`, so that IDs and serial
    /// numbers do not collide with those of an earlier run that the target
    /// may still hold: the serial number from its low 16 bits, the
    /// connection IDs from the next 16 bits, shifted to the top half.
    pub fn from_seed(seed: u64) -> (r: Self)
        ensures
            r.next_serial == seed % 0x1_0000,
            r.next_connection_id == ((seed / 0x1_0000) % 0x1_0000) * 0x1_0000,
    {
        let serial = (seed % 0x1_0000) as u16;
        let high = ((seed / 0x1_0000) % 0x1_0000) as u32;
        Self { next_serial: serial, next_connection_id: high * 0x1_0000 }
    }

    /// A fresh connection ID: one past the last.
    pub fn next_connection_id(&mut self) -> (r: u32)
        ensures
            r == next_u32(old(self).next_connection_id),
            *final(self) == (ConnectionIds { next_connection_id: r, ..*old(self) }),
    {
        self.next_connection_id = self.next_connection_id.wrapping_add(1);
        self.next_connection_id
    }

    /// A fresh connection serial number.
    pub fn next_serial_number(&mut self) -> (r: u16)
        ensures
            r == old(self).next_serial,
            *final(self) == (ConnectionIds { next_serial: next_u16(old(self).next_serial), ..*old(self) }),
    {
        let r = self.next_serial;
        self.next_serial = self.next_serial.wrapping_add(1);
        r
    }
}

/// The IDs of a Forward Open: an O->T connection ID for a multicast O->T
/// direction (the target picks it otherwise), then a T->O ID for a
/// point-to-point T->O direction, then the serial number; and the IDs left.
pub open spec fn allocate_ids(ids: ConnectionIds, c: ConnectionConfig) -> (u32, u32, u16, ConnectionIds) {
    let multicast = c.o2t.connection_type == ConnectionType::Multicast;
    let point = c.t2o.connection_type == ConnectionType::PointToPoint;
    let n1 = if multicast { next_u32(ids.next_connection_id) } else { ids.next_connection_id };
    let n2 = if point { next_u32(n1) } else { n1 };
    (
        if multicast { n1 } else { 0 },
        if point { n2 } else { 0 },
        ids.next_serial,
        ConnectionIds { next_serial: next_u16(ids.next_serial), next_connection_id: n2 },
    )
}

/// A configuration a Forward Open can carry: configuration data of at most
/// [`MAX_CONFIG_DATA`] bytes, a timeout multiplier of at most 7, transport
/// class 0 or 1, and sizes on the wire that fit in 16 bits.
pub open spec fn open_config_ok(c: ConnectionConfig) -> bool {
    &&& c.config_data@.len() <= MAX_CONFIG_DATA
    &&& c.timeout_multiplier <= 7
    &&& (c.transport_class == TransportClass::Class0 || c.transport_class == TransportClass::Class1)
    &&& wire_size_of(c.transport_class, c.o2t) <= u16::MAX
    &&& wire_size_of(c.transport_class, c.t2o) <= u16::MAX
}

/// A Large Forward Open is needed when either direction's size on the wire
/// exceeds [`MAX_SMALL_SIZE`].
pub open spec fn needs_large(c: ConnectionConfig) -> bool {
    wire_size_of(c.transport_class, c.o2t) > MAX_SMALL_SIZE || wire_size_of(c.transport_class, c.t2o)
        > MAX_SMALL_SIZE
}

/// A requested packet interval in microseconds, capped at `u32::MAX`.
pub open spec fn rpi_micros(us: u64) -> u32 {
    if us > u32::MAX { u32::MAX } else { us as u32 }
}

/// The network parameters of a direction with `wire` bytes on the wire.
pub open spec fn direction_params(d: Direction, wire: nat) -> NetworkParams {
    NetworkParams {
        redundant_owner: false,
        connection_type: d.connection_type,
        priority: d.priority,
        size_type: d.size_type,
        size: wire as u16,
    }
}

/// `r` is the Forward Open request for `c` with the given IDs: ticks of
/// 2^10 ms times 5 (the target gives up after about 5 s), the originator's
/// IDs and timeout multiplier, each direction's RPI and parameters, the
/// transport (client side), and the path with any configuration data.
pub open spec fn is_open_request(r: ForwardOpenRequest, c: ConnectionConfig, o2t_id: u32, t2o_id: u32, serial: u16) -> bool {
    &&& r.priority_time_tick == 0x0A
    &&& r.timeout_ticks == 0x05
    &&& r.o2t_connection_id == o2t_id
    &&& r.t2o_connection_id == t2o_id
    &&& r.connection_serial_number == serial
    &&& r.originator_vendor_id == c.originator_vendor_id
    &&& r.originator_serial_number == c.originator_serial_number
    &&& r.connection_timeout_multiplier == c.timeout_multiplier
    &&& r.o2t_rpi == rpi_micros(c.o2t.rpi_us)
    &&& r.o2t_params == direction_params(c.o2t, wire_size_of(c.transport_class, c.o2t))
    &&& r.t2o_rpi == rpi_micros(c.t2o.rpi_us)
    &&& r.t2o_params == direction_params(c.t2o, wire_size_of(c.transport_class, c.t2o))
    &&& r.transport == (TransportTrigger { class: c.transport_class, trigger: c.trigger, server: false })
    &&& r.path@ == c.path@ + config_segment(c.config_data@)
}

fn unsupported<T>(what: &str, value: u64, limit: &str) -> (r: Result<T>)
    ensures
        r matches Err(e) && e is Unsupported,
{
    let mut msg = String::from_str(what);
    push_dec(&mut msg, value);
    msg.append(limit);
    Err(Error::Unsupported(msg))
}

fn direction_params_of(d: &Direction, wire: usize) -> (r: NetworkParams)
    requires
        wire <= u16::MAX,
    ensures
        r == direction_params(*d, wire as nat),
{
    NetworkParams {
        redundant_owner: false,
        connection_type: d.connection_type,
        priority: d.priority,
        size_type: d.size_type,
        size: wire as u16,
    }
}

fn rpi_of(us: u64) -> (r: u32)
    ensures
        r == rpi_micros(us),
{
    if us > 0xFFFF_FFFF { 0xFFFF_FFFF } else { us as u32 }
}

/// Builds the Forward Open request for `config`, taking its IDs from `ids`,
/// and says whether it needs a Large Forward Open. A configuration that a
/// Forward Open cannot carry is refused with `Unsupported`, before any ID is
/// taken.
pub fn forward_open_request(config: &ConnectionConfig, ids: &mut ConnectionIds) -> (r: Result<(ForwardOpenRequest, bool)>)
    ensures
        r is Ok <==> open_config_ok(*config),
        r matches Err(e) ==> e is Unsupported && *final(ids) == *old(ids),
        r matches Ok((req, large)) ==> {
            let (o2t_id, t2o_id, serial, rest) = allocate_ids(*old(ids), *config);
            &&& is_open_request(req, *config, o2t_id, t2o_id, serial)
            &&& large == needs_large(*config)
            &&& *final(ids) == rest
        },
{
    if config.config_data.len() > MAX_CONFIG_DATA {
        return unsupported(
            "configuration data is ",
            config.config_data.len() as u64,
            " bytes; at most 510 fit in a Forward Open",
        );
    }
    if config.timeout_multiplier > 7 {
        return unsupported("timeout multiplier ", config.timeout_multiplier as u64, " is above the maximum of 7");
    }
    match config.transport_class {
        TransportClass::Class0 | TransportClass::Class1 => {},
        _ => {
            return Err(
                Error::Unsupported(String::from_str("only transport classes 0 and 1 are supported for I/O connections")),
            );
        },
    }
    let o2t_wire = config.wire_size(&config.o2t);
    let t2o_wire = config.wire_size(&config.t2o);
    let largest = if o2t_wire >= t2o_wire { o2t_wire } else { t2o_wire };
    if largest > 0xFFFF {
        return unsupported("connection size ", largest as u64, " is above the maximum of 65535");
    }
    let large = largest > MAX_SMALL_SIZE as usize;
    let o2t_connection_id = if config.o2t.connection_type == ConnectionType::Multicast {
        ids.next_connection_id()
    } else {
        0
    };
    let t2o_connection_id = if config.t2o.connection_type == ConnectionType::PointToPoint {
        ids.next_connection_id()
    } else {
        0
    };
    let connection_serial_number = ids.next_serial_number();
    let request = ForwardOpenRequest {
        priority_time_tick: 0x0A,
        timeout_ticks: 0x05,
        o2t_connection_id,
        t2o_connection_id,
        connection_serial_number,
        originator_vendor_id: config.originator_vendor_id,
        originator_serial_number: config.originator_serial_number,
        connection_timeout_multiplier: config.timeout_multiplier,
        o2t_rpi: rpi_of(config.o2t.rpi_us),
        o2t_params: direction_params_of(&config.o2t, o2t_wire),
        t2o_rpi: rpi_of(config.t2o.rpi_us),
        t2o_params: direction_params_of(&config.t2o, t2o_wire),
        transport: TransportTrigger { class: config.transport_class, trigger: config.trigger, server: false },
        path: config.encoded_path(),
    };
    Ok((request, large))
}

/// Where to send O->T data: the address from the Forward Open reply's O->T
/// sockaddr item, with an unspecified IP (0.0.0.0) replaced by the device's
/// IP and a zero port by the implicit messaging port 2222; the device's IP
/// and port 2222 when the reply has no such item.
pub open spec fn o2t_destination_spec(sockaddr: Option<SocketAddress>, peer_ip: u32) -> SocketAddress {
    match sockaddr {
        None => SocketAddress { ip: peer_ip, port: EIP_DEFAULT_IMPLICIT_PORT },
        Some(a) => SocketAddress {
            ip: if a.ip == 0 { peer_ip } else { a.ip },
            port: if a.port == 0 { EIP_DEFAULT_IMPLICIT_PORT } else { a.port },
        },
    }
}

pub fn o2t_destination(sockaddr: Option<SocketAddress>, peer_ip: u32) -> (r: SocketAddress)
    ensures
        r == o2t_destination_spec(sockaddr, peer_ip),
{
    match sockaddr {
        None => SocketAddress { ip: peer_ip, port: EIP_DEFAULT_IMPLICIT_PORT },
        Some(addr) => SocketAddress {
            ip: if addr.ip == 0 { peer_ip } else { addr.ip },
            port: if addr.port == 0 { EIP_DEFAULT_IMPLICIT_PORT } else { addr.port },
        },
    }
}

/// The data of the first item of type `id`.
pub open spec fn first_item(items: Seq<ItemView>, id: u16) -> Option<Seq<u8>>
    decreases items.len(),
{
    if items.len() == 0 {
        None
    } else if items[0].0 == CommonPacketItemId(id) {
        Some(items[0].1)
    } else {
        first_item(items.skip(1), id)
    }
}

/// Finds the first item of type `id`.
fn find_item(items: &Vec<CommonPacketItem>, id: u16) -> (r: Option<&CommonPacketItem>)
    ensures
        match first_item(item_views(items@), id) {
            None => r is None,
            Some(d) => r matches Some(item) && item.data@ == d,
        },
{
    let mut i: usize = 0;
    assert(item_views(items@).skip(0) =~= item_views(items@));
    while i < items.len()
        invariant
            i <= items@.len(),
            first_item(item_views(items@), id) == first_item(item_views(items@).skip(i as int), id),
        decreases items@.len() - i,
    {
        let ghost rest = item_views(items@).skip(i as int);
        assert(rest.skip(1) =~= item_views(items@).skip(i + 1));
        if items[i].type_id.0 == id {
            return Some(&items[i]);
        }
        i = i + 1;
    }
    assert(item_views(items@).skip(i as int) =~= Seq::<ItemView>::empty());
    None
}

/// An opened connection: its settings, the Forward Close that closes it,
/// and the T->O packet interval the target granted (microseconds).
#[derive(Debug, Clone, PartialEq, Eq)]
pub struct OpenedConnection {
    pub config: IoConnectionConfig,
    pub close_request: ForwardCloseRequest,
    pub t2o_api_us: u32,
}

/// The connection opened for `c` from the Forward Open reply `s`, with O->T
/// data sent to `destination` and T->O data taken from `peer_ip`: the IDs,
/// serial number, and intervals the reply gives, a timeout of
/// `4 << timeout_multiplier` T->O intervals, and sizes, formats, and
/// sequence count from the configuration.
pub open spec fn opened_from(
    o: OpenedConnection,
    c: ConnectionConfig,
    s: Seq<u8>,
    destination: SocketAddress,
    peer_ip: u32,
) -> bool {
    let t2o_api = crate::wire::from_le32(s.skip(20));
    &&& o.config == (IoConnectionConfig {
        o2t_id: crate::wire::from_le32(s),
        t2o_id: crate::wire::from_le32(s.skip(4)),
        serial_number: crate::wire::from_le16(s.skip(8)),
        o2t_api_ns: (crate::wire::from_le32(s.skip(16)) * 1000) as u64,
        timeout_ns: (t2o_api * 1000 * (4u64 << c.timeout_multiplier)) as u64,
        o2t_size: c.o2t.size as usize,
        t2o_size: c.t2o.size as usize,
        o2t_fixed: c.o2t.size_type == SizeType::Fixed,
        t2o_fixed: c.t2o.size_type == SizeType::Fixed,
        has_sequence_count: c.transport_class != TransportClass::Class0,
        o2t_real_time_format: c.o2t.run_idle_header,
        t2o_real_time_format: c.t2o.run_idle_header,
        destination,
        peer_ip,
    })
    &&& o.t2o_api_us == t2o_api
    &&& o.close_request.connection_serial_number == crate::wire::from_le16(s.skip(8))
    &&& o.close_request.originator_vendor_id == c.originator_vendor_id
    &&& o.close_request.originator_serial_number == c.originator_serial_number
    &&& o.close_request.connection_path@ == c.path@
}

/// `o` was opened for `c` from the reply `s` whose additional items are
/// `items`: O->T data goes to the address of the first O->T sockaddr item
/// (which holds a whole address), with [`o2t_destination_spec`]'s fallbacks.
pub open spec fn opened_with_items(o: OpenedConnection, c: ConnectionConfig, s: Seq<u8>, items: Seq<ItemView>) -> bool {
    let peer = o.config.peer_ip;
    match first_item(items, CommonPacketItemId::O2T_SOCKADDR_INFO) {
        None => opened_from(o, c, s, o2t_destination_spec(None, peer), peer),
        Some(d) => d.len() >= 16 && opened_from(o, c, s, o2t_destination_spec(Some(decode_sockaddr_spec(d)), peer), peer),
    }
}

/// The path of the Connection Manager instance that opens and closes
/// connections.
pub open spec fn connection_manager_path() -> EPathView {
    EPathView { class_id: CLASS_ID, instance_id: Some(1), attribute_id: None }
}

/// The service that opens a connection for `c`.
pub open spec fn open_service(c: ConnectionConfig) -> u8 {
    if needs_large(c) { LARGE_FORWARD_OPEN } else { FORWARD_OPEN }
}

/// The O->T sockaddr item of a Forward Open reply, when there is one, holds
/// a whole address.
pub open spec fn sockaddr_fits(items: Seq<ItemView>) -> bool {
    match first_item(items, CommonPacketItemId::O2T_SOCKADDR_INFO) {
        None => true,
        Some(d) => d.len() >= 16,
    }
}

/// The connection that a successful Forward Open reply `response` opens for
/// `config` with the device `peer_ip` (see [`opened_with_items`]). Fails
/// with `Truncated` for the first field of the reply that is cut short, or
/// for an O->T sockaddr item shorter than an address.
pub fn opened_connection(config: &ConnectionConfig, response: &MessageRouterResponse, peer_ip: u32) -> (r: Result<
    OpenedConnection,
>)
    requires
        config.timeout_multiplier <= 7,
    ensures
        r is Ok <==> forward_open_reply_ok(response.data@) && sockaddr_fits(item_views(response.additional_packet_items@)),
        r matches Ok(o) ==> opened_with_items(o, *config, response.data@, item_views(response.additional_packet_items@))
            && o.config.peer_ip == peer_ip,
        !forward_open_reply_ok(response.data@) ==> r == Err::<OpenedConnection, Error>(
            truncated(reply_shortfall(response.data@).0, reply_shortfall(response.data@).1),
        ),
        forward_open_reply_ok(response.data@) ==> match first_item(
            item_views(response.additional_packet_items@),
            CommonPacketItemId::O2T_SOCKADDR_INFO,
        ) {
            Some(d) => d.len() < 16 ==> r == Err::<OpenedConnection, Error>(truncated(16, d.len())),
            None => true,
        },
{
    let reply = match ForwardOpenResponse::decode(response.data.as_slice()) {
        Ok(r) => r,
        Err(e) => return Err(e),
    };
    let sockaddr = match find_item(&response.additional_packet_items, CommonPacketItemId::O2T_SOCKADDR_INFO) {
        None => None,
        Some(item) => {
            let mut buf = item.data.as_slice();
            match decode_sockaddr(&mut buf) {
                Ok(a) => Some(a),
                Err(e) => return Err(e),
            }
        },
    };
    let destination = o2t_destination(sockaddr, peer_ip);
    let m = config.timeout_multiplier;
    assert(m <= 7 ==> (4u64 << m) <= 512) by (bit_vector);
    let multiplier: u64 = 4u64 << m;
    let api_ns: u64 = reply.t2o_api as u64 * 1000;
    assert(api_ns * multiplier <= 0xFFFF_FFFFu64 * 1000 * 512) by (nonlinear_arith)
        requires
            multiplier <= 512,
            api_ns <= 0xFFFF_FFFFu64 * 1000,
    ;
    let io_config = IoConnectionConfig {
        o2t_id: reply.o2t_network_connection_id,
        t2o_id: reply.t2o_network_connection_id,
        serial_number: reply.connection_serial_number,
        o2t_api_ns: reply.o2t_api as u64 * 1000,
        timeout_ns: api_ns * multiplier,
        o2t_size: config.o2t.size as usize,
        t2o_size: config.t2o.size as usize,
        o2t_fixed: config.o2t.size_type == SizeType::Fixed,
        t2o_fixed: config.t2o.size_type == SizeType::Fixed,
        has_sequence_count: config.transport_class.has_sequence_count(),
        o2t_real_time_format: config.o2t.run_idle_header,
        t2o_real_time_format: config.t2o.run_idle_header,
        destination,
        peer_ip,
    };
    let close_request = ForwardCloseRequest {
        connection_serial_number: reply.connection_serial_number,
        originator_vendor_id: config.originator_vendor_id,
        originator_serial_number: config.originator_serial_number,
        connection_path: vstd::slice::slice_to_vec(config.path.as_bytes()),
    };
    Ok(OpenedConnection { config: io_config, close_request, t2o_api_us: reply.t2o_api })
}

/// Opens an I/O connection over `session`: a Forward Open, or a Large
/// Forward Open when either direction's size on the wire exceeds
/// [`MAX_SMALL_SIZE`], with IDs taken from `ids`; then the connection's
/// settings from the reply, with the session's device as the peer. A
/// configuration a Forward Open cannot carry is refused with `Unsupported`
/// before anything is sent; a reply with a non-success status is a `Cip`
/// error with that status.
pub fn open_connection<S: Session + ?Sized>(
    router: &MessageRouter,
    session: &S,
    config: &ConnectionConfig,
    ids: &mut ConnectionIds,
) -> (r: Result<OpenedConnection>)
    ensures
        !open_config_ok(*config) ==> (r matches Err(e) && e is Unsupported) && *final(ids) == *old(ids),
        open_config_ok(*config) ==> *final(ids) == allocate_ids(*old(ids), *config).3,
        r matches Ok(o) ==> exists|req: ForwardOpenRequest, resp: MessageRouterResponse|
            #![trigger request_succeeded(session, router@, open_service(*config), connection_manager_path(), forward_open_bytes(req, needs_large(*config)), resp)]
            is_open_request(
                req,
                *config,
                allocate_ids(*old(ids), *config).0,
                allocate_ids(*old(ids), *config).1,
                allocate_ids(*old(ids), *config).2,
            ) && request_succeeded(
                session,
                router@,
                open_service(*config),
                connection_manager_path(),
                forward_open_bytes(req, needs_large(*config)),
                resp,
            ) && crate::cip::connection_manager::forward_open_reply_ok(resp.data@) && opened_with_items(
                o,
                *config,
                resp.data@,
                item_views(resp.additional_packet_items@),
            ),
        r matches Ok(o) ==> o.config.peer_ip == session.remote().ip,
        (r matches Err(e) && e is Unsupported) <==> !open_config_ok(*config),
        r matches Err(e) ==> e is Unsupported || e is Cip || exchange_error(e),
        r matches Err(Error::Cip { status, additional, .. }) ==> open_config_ok(*config) && exists|req: ForwardOpenRequest|
            #![trigger request_rejected(session, router@, open_service(*config), connection_manager_path(), forward_open_bytes(req, needs_large(*config)), status, additional@)]
            is_open_request(
                req,
                *config,
                allocate_ids(*old(ids), *config).0,
                allocate_ids(*old(ids), *config).1,
                allocate_ids(*old(ids), *config).2,
            ) && request_rejected(
                session,
                router@,
                open_service(*config),
                connection_manager_path(),
                forward_open_bytes(req, needs_large(*config)),
                status,
                additional@,
            ),
{
    let (request, large) = match forward_open_request(config, ids) {
        Ok(x) => x,
        Err(e) => return Err(e),
    };
    let service: u8 = if large { LARGE_FORWARD_OPEN } else { FORWARD_OPEN };
    let body = request.encode(large);
    let path = EPath::instance(CLASS_ID, 1);
    let response = match router.request_checked(session, ServiceCode(service), &path, body.as_slice(), "forward open") {
        Ok(r) => r,
        Err(e) => {
            proof {
                if e is Cip {
                    assert(request_rejected(
                        session,
                        router@,
                        open_service(*config),
                        connection_manager_path(),
                        forward_open_bytes(request, needs_large(*config)),
                        e->status,
                        e->additional@,
                    ));
                }
            }
            return Err(e);
        },
    };
    let peer_ip = session.remote_addr().ip;
    let opened = match opened_connection(config, &response, peer_ip) {
        Ok(o) => o,
        Err(e) => return Err(e),
    };
    proof {
        let ghost g = response;
        assert(request_succeeded(session, router@, open_service(*config), connection_manager_path(), forward_open_bytes(request, needs_large(*config)), g));
    }
    Ok(opened)
}

/// Closes a connection over `session` with the Forward Close `request`; a
/// reply with a non-success status is a `Cip` error.
pub fn close_connection<S: Session + ?Sized>(
    router: &MessageRouter,
    session: &S,
    request: &ForwardCloseRequest,
) -> (r: Result<()>)
    ensures
        r is Ok ==> exists|resp: MessageRouterResponse|
            #[trigger] request_succeeded(session, router@, FORWARD_CLOSE, connection_manager_path(), forward_close_bytes(*request), resp),
        r matches Err(e) ==> e is Cip || exchange_error(e),
        r matches Err(Error::Cip { status, additional, .. }) ==> request_rejected(
            session,
            router@,
            FORWARD_CLOSE,
            connection_manager_path(),
            forward_close_bytes(*request),
            status,
            additional@,
        ),
{
    let body = request.encode();
    let path = EPath::instance(CLASS_ID, 1);
    let response = match router.request_checked(session, ServiceCode(FORWARD_CLOSE), &path, body.as_slice(), "forward close") {
        Ok(r) => r,
        Err(e) => return Err(e),
    };
    proof {
        let ghost g = response;
        assert(request_succeeded(session, router@, FORWARD_CLOSE, connection_manager_path(), forward_close_bytes(*request), g));
    }
    Ok(())
}

} // verus!
