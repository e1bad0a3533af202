//! Explicit messaging against a session that answers from a queue.

use std::cell::RefCell;
use std::collections::VecDeque;

use eipscanner::cip::connection_manager::{
    ConnectionConfig, ConnectionPath, ConnectionType, Direction, ForwardCloseRequest, NetworkParams, CLASS_ID,
    FORWARD_CLOSE, FORWARD_OPEN, LARGE_FORWARD_OPEN, MAX_CONFIG_DATA,
};
use eipscanner::cip::{CipDataType, CipRevision, EPath, GeneralStatusCode, MessageRouterResponse, ServiceCode};
use eipscanner::eip::{encode_sockaddr, CommonPacket, CommonPacketItem, CommonPacketItemId, EncapsPacket, SocketAddress};
use eipscanner::io::{close_connection, open_connection, opened_connection, ConnectionIds};
use eipscanner::objects::file::FileObjectStateCode;
use eipscanner::objects::{FileObject, IdentityObject, ParameterObject};
use eipscanner::session::check_reply;
use eipscanner::{Error, MessageRouter, Result, Session};

#[derive(Debug, Clone, PartialEq, Eq)]
struct Request {
    service: ServiceCode,
    path: EPath,
    data: Vec<u8>,
}

type Reply = (GeneralStatusCode, Vec<u8>, Vec<CommonPacketItem>);

/// A session that answers message router requests from a queue and records
/// what it was asked.
struct MockSession {
    replies: RefCell<VecDeque<Reply>>,
    requests: RefCell<Vec<Request>>,
    remote: SocketAddress,
}

impl MockSession {
    fn new() -> Self {
        MockSession {
            replies: RefCell::new(VecDeque::new()),
            requests: RefCell::new(Vec::new()),
            remote: SocketAddress::new(0x7F00_0001, 44818),
        }
    }

    fn reply(self, data: &[u8]) -> Self {
        self.reply_status(GeneralStatusCode(GeneralStatusCode::SUCCESS), data)
    }

    fn reply_status(self, status: GeneralStatusCode, data: &[u8]) -> Self {
        self.replies.borrow_mut().push_back((status, data.to_vec(), Vec::new()));
        self
    }

    fn reply_with_items(self, data: &[u8], items: Vec<CommonPacketItem>) -> Self {
        self.replies
            .borrow_mut()
            .push_back((GeneralStatusCode(GeneralStatusCode::SUCCESS), data.to_vec(), items));
        self
    }

    fn requests(&self) -> Vec<Request> {
        self.requests.borrow().clone()
    }
}

impl Session for MockSession {
    fn send_and_receive(&self, packet: &EncapsPacket) -> Result<EncapsPacket> {
        let cpf = CommonPacket::decode(&packet.data[6..])?;
        let mr = cpf.items[1].data.clone();
        let path_len = mr[1] as usize * 2;
        self.requests.borrow_mut().push(Request {
            service: ServiceCode(mr[0]),
            path: EPath::decode(&mr[2..2 + path_len])?,
            data: mr[2 + path_len..].to_vec(),
        });
        let (status, data, extra) = self
            .replies
            .borrow_mut()
            .pop_front()
            .ok_or_else(|| Error::InvalidPacket("mock session has no reply queued".into()))?;
        let mut response = vec![mr[0] | 0x80, 0, status.0, 0];
        response.extend(data);
        let mut items = vec![CommonPacketItem::null_address(), CommonPacketItem::unconnected_data(response)];
        items.extend(extra);
        let mut reply_data = vec![0; 6];
        reply_data.extend(CommonPacket::new(items).encode());
        Ok(EncapsPacket::new(packet.command, packet.session_handle, reply_data))
    }

    fn session_handle(&self) -> u32 {
        1
    }

    fn remote(&self) -> SocketAddress {
        self.remote
    }

    fn remote_addr(&self) -> SocketAddress {
        self.remote
    }
}

// ---- Identity object ----

#[test]
fn read_all_attributes() {
    let session = MockSession::new().reply(&[
        1, 0, 2, 0, 3, 0, 4, 5, 0x30, 0, 0x78, 0x56, 0x34, 0x12, 5, b'D', b'r', b'i', b'v', b'e',
    ]);
    let identity = IdentityObject::read(&session, &MessageRouter::new(), 1).unwrap();
    assert_eq!(identity.vendor_id, 1);
    assert_eq!(identity.device_type, 2);
    assert_eq!(identity.product_code, 3);
    assert_eq!(identity.revision, CipRevision::new(4, 5));
    assert_eq!(identity.status, 0x30);
    assert_eq!(identity.serial_number, 0x12345678);
    assert_eq!(identity.product_name, "Drive");

    let req = &session.requests()[0];
    assert_eq!(req.service, ServiceCode(ServiceCode::GET_ATTRIBUTE_ALL));
    assert_eq!(req.path, EPath::instance(1, 1));
}

#[test]
fn error_status() {
    let session = MockSession::new()
        .reply_status(GeneralStatusCode(GeneralStatusCode::OBJECT_DOES_NOT_EXIST), &[]);
    let err = IdentityObject::read(&session, &MessageRouter::new(), 1).unwrap_err();
    assert!(matches!(
        err,
        Error::Cip { status: GeneralStatusCode(GeneralStatusCode::OBJECT_DOES_NOT_EXIST), .. }
    ));
}

#[test]
fn short_reply() {
    let session = MockSession::new().reply(&[1, 0, 2]);
    assert!(matches!(
        IdentityObject::read(&session, &MessageRouter::new(), 1),
        Err(Error::Truncated { .. })
    ));
}

// ---- Parameter object ----

const ID: u16 = 1;

fn param_data(descriptor: u8) -> Vec<u8> {
    let mut d = vec![0x01, 0, 0, 0, 6, 0x20, 0x05, 0x24, 0x02, 0x30, 0x01, descriptor, 0];
    d.push(CipDataType::UDINT);
    d.push(4);
    d.extend(b"\x05PARAM\x03MPa\x04HELP");
    d.extend([0, 0, 0, 0, 5, 0, 0, 0, 3, 0, 0, 0]);
    d.extend([2, 0, 4, 0, 1, 0, 6, 0, 0, 0, 0, 0, 0, 0, 0, 0, 1]);
    d
}

fn param_session(full: bool, descriptor: u8) -> MockSession {
    let s = MockSession::new().reply(&[4]).reply(&param_data(descriptor));
    if full && descriptor & 0x04 != 0 {
        s.reply(&[2, 0]).reply(&[4, 0]).reply(&[1, 0]).reply(&[6, 0])
    } else {
        s
    }
}

/// `(actual + offset) * multiplier * base / (divisor * 10^precision)`: the
/// engineering value, which the application computes in floating point.
fn eng(p: &ParameterObject, actual: u32) -> f64 {
    (actual as f64 + p.scaling_offset as f64) * p.scaling_multiplier as f64 * p.scaling_base as f64
        / (p.scaling_divisor as f64 * 10f64.powi(p.precision as i32))
}

#[test]
fn read_stub_data() {
    let s = param_session(false, 0x04);
    let p = ParameterObject::read(&s, &MessageRouter::new(), ID, false).unwrap();
    assert!(!p.has_full_attributes);
    assert!(p.is_scalable);
    assert!(!p.is_read_only);
    assert_eq!(p.actual_value::<u32>().unwrap(), 1);
    assert_eq!(p.data_type, CipDataType(CipDataType::UDINT));
    assert_eq!(p.name, "");
    let reqs = s.requests();
    assert_eq!(reqs[0].path, EPath::attribute(0x0F, ID, 6));
    assert_eq!(reqs[1].service, ServiceCode(ServiceCode::GET_ATTRIBUTE_ALL));
}

#[test]
fn read_full_data() {
    let s = param_session(true, 0x04);
    let p = ParameterObject::read(&s, &MessageRouter::new(), ID, true).unwrap();
    assert!(p.has_full_attributes);
    assert_eq!(p.name, "PARAM");
    assert_eq!(p.units, "MPa");
    assert_eq!(p.help, "HELP");
    assert_eq!(p.min_value::<u32>().unwrap(), 0);
    assert_eq!(p.max_value::<u32>().unwrap(), 5);
    assert_eq!(p.default_value::<u32>().unwrap(), 3);
    assert_eq!(
        (p.scaling_multiplier, p.scaling_divisor, p.scaling_base, p.scaling_offset, p.precision),
        (2, 4, 1, 6, 1)
    );
    assert!((eng(&p, p.actual_value::<u32>().unwrap()) - 0.35).abs() < 1e-12);
    assert!((eng(&p, p.min_value::<u32>().unwrap()) - 0.3).abs() < 1e-12);
    assert!((eng(&p, p.max_value::<u32>().unwrap()) - 0.55).abs() < 1e-12);
    assert!((eng(&p, p.default_value::<u32>().unwrap()) - 0.45).abs() < 1e-12);
    let ids: Vec<_> = s.requests()[2..].iter().map(|r| r.path.attribute_id()).collect();
    assert_eq!(ids, [Some(13), Some(14), Some(15), Some(16)]);
}

#[test]
fn update_value() {
    let s = param_session(true, 0x04).reply(&[4, 0, 0, 0]);
    let router = MessageRouter::new();
    let mut p = ParameterObject::read(&s, &router, ID, true).unwrap();
    p.update_value(&s, &router).unwrap();
    assert_eq!(p.actual_value::<u32>().unwrap(), 4);
    assert_eq!(s.requests().last().unwrap().path, EPath::attribute(0x0F, ID, 1));
}

#[test]
fn read_only_descriptor() {
    let s = param_session(false, 0x10);
    let p = ParameterObject::read(&s, &MessageRouter::new(), ID, false).unwrap();
    assert!(p.is_read_only);
}

#[test]
fn wrong_type_size() {
    let p = ParameterObject::new(ID, false, 4);
    assert!(p.actual_value::<u16>().is_err());
}

#[test]
fn typed_values_are_little_endian() {
    let mut p = ParameterObject::new(ID, false, 2);
    p.set_raw_min_value(vec![0xFE, 0xFF]);
    assert_eq!(p.min_value::<i16>().unwrap(), -2);
    assert_eq!(p.min_value::<u16>().unwrap(), 0xFFFE);
    assert!(p.min_value::<u8>().is_err());
    p.set_raw_max_value(vec![1, 2, 3, 4, 5, 6, 7, 8]);
    assert_eq!(p.max_value::<u64>().unwrap(), 0x0807_0605_0403_0201);
    assert_eq!(p.raw_value(), [0, 0]);
    assert!(matches!(p.default_value::<i32>(), Err(Error::InvalidPacket(_))));
}

// ---- File object ----

#[test]
fn upload_in_three_packets() {
    let s = MockSession::new()
        .reply(&[2]) // state: loaded
        .reply(&[7, 0, 0, 0, 3]) // file size 7, transfer size 3
        .reply(&[0, 0, b'a', b'b', b'c'])
        .reply(&[1, 1, b'd', b'e', b'f'])
        .reply(&[2, 2, b'g', 0xAA, 0xBB]);
    let mut file = FileObject::new(&s, MessageRouter::new(), 1).unwrap();
    assert_eq!(file.state(), FileObjectStateCode(FileObjectStateCode::FILE_LOADED));
    assert_eq!(file.upload(&s).unwrap(), b"abcdefg");
    assert_eq!(file.state(), FileObjectStateCode(FileObjectStateCode::FILE_LOADED));

    let reqs = s.requests();
    assert_eq!(reqs[1].service, ServiceCode(ServiceCode::INITIATE_UPLOAD));
    assert_eq!(reqs[1].data, [255]);
    assert_eq!(reqs[2].data, [0]);
    assert_eq!(reqs[4].data, [2]);
}

#[test]
fn wrong_file_size() {
    let s = MockSession::new().reply(&[2]).reply(&[5, 0, 0, 0, 3]).reply(&[0, 4, b'a', b'b', 0, 0]);
    let mut file = FileObject::new(&s, MessageRouter::new(), 1).unwrap();
    let err = file.upload(&s).unwrap_err();
    assert!(matches!(
        err,
        Error::Cip { status: GeneralStatusCode(GeneralStatusCode::INVALID_PARAMETER), .. }
    ));
}

#[test]
fn wrong_transfer_number() {
    let s = MockSession::new().reply(&[2]).reply(&[5, 0, 0, 0, 3]).reply(&[3, 0, 1, 2, 3]);
    let mut file = FileObject::new(&s, MessageRouter::new(), 1).unwrap();
    assert!(file.upload(&s).is_err());
}

#[test]
fn empty_file_cannot_be_uploaded() {
    let s = MockSession::new().reply(&[1]);
    let mut file = FileObject::new(&s, MessageRouter::new(), 1).unwrap();
    assert_eq!(file.state(), FileObjectStateCode(FileObjectStateCode::FILE_EMPTY));
    assert!(file.upload(&s).is_err());
    assert_eq!(s.requests().len(), 1);
}

#[test]
fn uploading_state_is_treated_as_loaded() {
    let s = MockSession::new().reply(&[5]);
    let file = FileObject::new(&s, MessageRouter::new(), 1).unwrap();
    assert_eq!(file.state(), FileObjectStateCode(FileObjectStateCode::FILE_LOADED));
}

#[test]
fn unsupported_file_state() {
    let s = MockSession::new().reply(&[4]);
    assert!(matches!(FileObject::new(&s, MessageRouter::new(), 1), Err(Error::Unsupported(_))));
}

#[test]
fn failed_initiate_ends_the_upload() {
    let s = MockSession::new()
        .reply(&[2])
        .reply_status(GeneralStatusCode(GeneralStatusCode::PRIVILEGE_VIOLATION), &[]);
    let mut file = FileObject::new(&s, MessageRouter::new(), 1).unwrap();
    assert!(matches!(
        file.upload(&s),
        Err(Error::Cip { status: GeneralStatusCode(GeneralStatusCode::PRIVILEGE_VIOLATION), .. })
    ));
    assert_eq!(s.requests().len(), 2);
}

#[test]
fn unknown_packet_type_is_an_error() {
    let s = MockSession::new().reply(&[2]).reply(&[5, 0, 0, 0, 3]).reply(&[0, 7, 1, 2, 3]);
    let mut file = FileObject::new(&s, MessageRouter::new(), 1).unwrap();
    assert!(matches!(file.upload(&s), Err(Error::InvalidPacket(_))));
    let (status, data) = file.take_outcome().unwrap();
    assert_eq!(status, GeneralStatusCode(GeneralStatusCode::INVALID_REPLY_RECEIVED));
    assert!(data.is_empty());
}

#[test]
fn transfers_step_by_step() {
    let s = MockSession::new().reply(&[2]).reply(&[2, 0, 0, 0, 2]).reply(&[0, 4, b'h', b'i', 0, 0]);
    let mut file = FileObject::new(&s, MessageRouter::new(), 1).unwrap();
    file.begin_upload(&s).unwrap();
    assert_eq!(file.state(), FileObjectStateCode(FileObjectStateCode::TRANSFER_UPLOAD_IN_PROGRESS));
    assert!(!file.handle_transfers(&s).unwrap());
    assert!(!file.handle_transfers(&s).unwrap(), "nothing to transfer");
    assert_eq!(
        file.take_outcome(),
        Some((GeneralStatusCode(GeneralStatusCode::SUCCESS), b"hi".to_vec()))
    );
}

// ---- Forward Open and Forward Close ----

const O2T_ID: u32 = 0xAA00_0001;
const RPI_US: u64 = 5_000;

fn forward_open_reply(t2o_id: u32) -> Vec<u8> {
    let mut d = Vec::new();
    d.extend(O2T_ID.to_le_bytes());
    d.extend(t2o_id.to_le_bytes());
    d.extend(1u16.to_le_bytes());
    d.extend(342u16.to_le_bytes());
    d.extend(0x12345u32.to_le_bytes());
    d.extend((RPI_US as u32).to_le_bytes());
    d.extend((RPI_US as u32).to_le_bytes());
    d.extend(0u16.to_le_bytes());
    d
}

fn params() -> ConnectionConfig {
    let mut config = ConnectionConfig::new(
        ConnectionPath::assembly(1, 150, 100),
        Direction::new(2, RPI_US).with_run_idle_header(),
        Direction::new(3, RPI_US),
    );
    config.originator_vendor_id = 342;
    config.originator_serial_number = 0x12345;
    config
}

fn sockaddr_items(addr: SocketAddress) -> Vec<CommonPacketItem> {
    let mut sockaddr = Vec::new();
    encode_sockaddr(addr, &mut sockaddr);
    vec![CommonPacketItem::new(CommonPacketItemId(CommonPacketItemId::O2T_SOCKADDR_INFO), sockaddr)]
}

#[test]
fn rejected_forward_open() {
    let session =
        MockSession::new().reply_status(GeneralStatusCode(GeneralStatusCode::CONNECTION_FAILURE), &[]);
    let mut ids = ConnectionIds { next_serial: 1, next_connection_id: 0 };
    let err = open_connection(&MessageRouter::new(), &session, &params(), &mut ids).unwrap_err();
    assert!(matches!(err, Error::Cip { .. }));
    match err {
        Error::Cip { status, .. } => assert_eq!(status, GeneralStatusCode(GeneralStatusCode::CONNECTION_FAILURE)),
        _ => unreachable!(),
    }
}

#[test]
fn config_data_is_sent_after_the_path() {
    let session = MockSession::new()
        .reply_with_items(&forward_open_reply(0), sockaddr_items(SocketAddress::new(0x7F00_0001, 2222)));
    let mut ids = ConnectionIds { next_serial: 1, next_connection_id: 0 };
    let with_config = ConnectionConfig { config_data: vec![0xA1, 0xA2, 0xA3], ..params() };
    open_connection(&MessageRouter::new(), &session, &with_config, &mut ids).unwrap();

    let body = &session.requests()[0].data;
    // Path size in words: 8 path bytes + 2 segment header + 4 padded data.
    assert_eq!(body[35], 7);
    assert_eq!(&body[36 + 8..], [0x80, 2, 0xA1, 0xA2, 0xA3, 0]);

    let too_big = ConnectionConfig { config_data: vec![0; MAX_CONFIG_DATA + 1], ..params() };
    assert!(matches!(
        open_connection(&MessageRouter::new(), &session, &too_big, &mut ids),
        Err(Error::Unsupported(_))
    ));
    assert_eq!(session.requests().len(), 1, "nothing sent for oversized data");
}

/// Sizes beyond the 16-bit form switch to Large Forward Open, whose network
/// parameters are 32 bits.
#[test]
fn large_sizes_use_large_forward_open() {
    let session = MockSession::new()
        .reply_with_items(&forward_open_reply(0), sockaddr_items(SocketAddress::new(0x7F00_0001, 2222)));
    let mut ids = ConnectionIds { next_serial: 1, next_connection_id: 0 };
    let config = ConnectionConfig { o2t: Direction::new(600, RPI_US), ..params() };
    open_connection(&MessageRouter::new(), &session, &config, &mut ids).unwrap();
    let req = &session.requests()[0];
    assert_eq!(req.service, ServiceCode(LARGE_FORWARD_OPEN));
    let o2t_params = u32::from_le_bytes(req.data[26..30].try_into().unwrap());
    assert_eq!(NetworkParams::decode(o2t_params, true).size, 602);
}

#[test]
fn forward_open_request_and_settings() {
    let session = MockSession::new()
        .reply_with_items(&forward_open_reply(0x55), sockaddr_items(SocketAddress::new(0, 3000)));
    let mut ids = ConnectionIds { next_serial: 7, next_connection_id: 0x10 };
    let config = ConnectionConfig { timeout_multiplier: 2, ..params() };
    let opened = open_connection(&MessageRouter::new(), &session, &config, &mut ids).unwrap();

    let request = &session.requests()[0];
    assert_eq!(request.service, ServiceCode(FORWARD_OPEN));
    assert_eq!(request.path, EPath::instance(CLASS_ID, 1));
    // Connection sizes include the sequence count (2) and run/idle header (4, O->T only).
    let o2t_ncp = u16::from_le_bytes([request.data[26], request.data[27]]);
    let t2o_ncp = u16::from_le_bytes([request.data[32], request.data[33]]);
    assert_eq!(o2t_ncp & 0x1FF, 2 + 2 + 4);
    assert_eq!(t2o_ncp & 0x1FF, 3 + 2);
    // Point-to-point T->O gets an ID from the scanner; the target picks the O->T one.
    assert_eq!(&request.data[2..6], [0, 0, 0, 0]);
    assert_eq!(&request.data[6..10], 0x11u32.to_le_bytes());
    assert_eq!(&request.data[10..12], 7u16.to_le_bytes());
    assert_eq!((ids.next_serial, ids.next_connection_id), (8, 0x11));

    let c = opened.config;
    assert_eq!((c.o2t_id, c.t2o_id, c.serial_number), (O2T_ID, 0x55, 1));
    assert_eq!(c.o2t_api_ns, RPI_US * 1000);
    assert_eq!(c.timeout_ns, RPI_US * 1000 * 16);
    assert_eq!(c.destination.to_string(), "127.0.0.1:3000");
    assert_eq!(c.peer_ip, 0x7F00_0001);
    assert_eq!((c.o2t_size, c.t2o_size), (2, 3));
    assert!(c.has_sequence_count && c.o2t_real_time_format && !c.t2o_real_time_format);
    assert_eq!(opened.t2o_api_us, RPI_US as u32);
    assert_eq!(opened.close_request.connection_path, ConnectionPath::assembly(1, 150, 100).as_bytes());
}

#[test]
fn multicast_output_gets_an_id_first() {
    let session = MockSession::new().reply(&forward_open_reply(0));
    let mut ids = ConnectionIds { next_serial: 0, next_connection_id: 0 };
    let mut config = params();
    config.o2t.connection_type = ConnectionType::Multicast;
    let opened = open_connection(&MessageRouter::new(), &session, &config, &mut ids).unwrap();
    let request = &session.requests()[0];
    assert_eq!(&request.data[2..6], 1u32.to_le_bytes());
    assert_eq!(&request.data[6..10], 2u32.to_le_bytes());
    assert_eq!(opened.config.destination.to_string(), "127.0.0.1:2222");
}

#[test]
fn unsupported_configurations_send_nothing() {
    let session = MockSession::new();
    let mut ids = ConnectionIds { next_serial: 0, next_connection_id: 0 };
    for config in [
        ConnectionConfig { timeout_multiplier: 8, ..params() },
        ConnectionConfig {
            transport_class: eipscanner::cip::connection_manager::TransportClass::Class3,
            ..params()
        },
        ConnectionConfig { t2o: Direction::new(u16::MAX, RPI_US), ..params() },
    ] {
        assert!(matches!(
            open_connection(&MessageRouter::new(), &session, &config, &mut ids),
            Err(Error::Unsupported(_))
        ));
    }
    assert_eq!((ids.next_serial, ids.next_connection_id), (0, 0));
    assert!(session.requests().is_empty());
}

#[test]
fn forward_close_request() {
    let session = MockSession::new().reply(&[]);
    let request = ForwardCloseRequest {
        connection_serial_number: 1,
        originator_vendor_id: 342,
        originator_serial_number: 0x12345,
        connection_path: ConnectionPath::assembly(1, 150, 100).into_bytes(),
    };
    close_connection(&MessageRouter::new(), &session, &request).unwrap();
    let close = &session.requests()[0];
    assert_eq!(close.service, ServiceCode(FORWARD_CLOSE));
    assert_eq!(&close.data[2..4], 1u16.to_le_bytes());
    assert_eq!(close.data[10], 4); // path size in words
}

// ---- Session replies ----

#[test]
fn session_reply_checks() {
    let ok = EncapsPacket::new(eipscanner::eip::EncapsCommand(0x6F), 9, vec![1, 2]).encode();
    assert_eq!(check_reply(9, &ok).unwrap().data, [1, 2]);
    assert_eq!(check_reply(0, &ok).unwrap().session_handle, 9);
    assert!(matches!(
        check_reply(8, &ok),
        Err(Error::WrongSessionHandle { expected: 8, received: 9 })
    ));
    let mut failed = EncapsPacket::new(eipscanner::eip::EncapsCommand(0x6F), 9, vec![]);
    failed.status = eipscanner::eip::EncapsStatus(0x64);
    assert!(matches!(check_reply(9, &failed.encode()), Err(Error::Encaps(_))));
    assert!(matches!(check_reply(9, &ok[..20]), Err(Error::InvalidPacket(_))));
    let err = check_reply(8, &ok).unwrap_err().to_string();
    assert_eq!(err, "wrong session handle: expected 0x00000008, received 0x00000009");
}

#[test]
fn connection_opened_from_a_reply() {
    let response = |data: Vec<u8>, items: Vec<CommonPacketItem>| MessageRouterResponse {
        service: ServiceCode(FORWARD_OPEN | 0x80),
        general_status: GeneralStatusCode(GeneralStatusCode::SUCCESS),
        additional_status: vec![],
        data,
        additional_packet_items: items,
    };
    let peer = 0x0A00_0005;
    let o = opened_connection(&params(), &response(forward_open_reply(0x77), vec![]), peer).unwrap();
    assert_eq!((o.config.o2t_id, o.config.t2o_id, o.config.peer_ip), (O2T_ID, 0x77, peer));
    assert_eq!(o.config.destination.to_string(), "10.0.0.5:2222");
    assert_eq!(o.close_request.connection_serial_number, 1);

    let with_addr = response(forward_open_reply(0x77), sockaddr_items(SocketAddress::new(0x0A00_0009, 2300)));
    let o = opened_connection(&params(), &with_addr, peer).unwrap();
    assert_eq!(o.config.destination.to_string(), "10.0.0.9:2300");

    let short = opened_connection(&params(), &response(forward_open_reply(0x77)[..20].to_vec(), vec![]), peer);
    assert!(matches!(short, Err(Error::Truncated { requested: 4, available: 0 })));
    let bad_item = vec![CommonPacketItem::new(CommonPacketItemId(CommonPacketItemId::O2T_SOCKADDR_INFO), vec![0; 4])];
    let cut = opened_connection(&params(), &response(forward_open_reply(0x77), bad_item), peer);
    assert!(matches!(cut, Err(Error::Truncated { requested: 16, available: 4 })));
}

#[test]
fn opened_connection_takes_the_session_peer() {
    let session = MockSession::new().reply(&forward_open_reply(0x55));
    let mut ids = ConnectionIds { next_serial: 1, next_connection_id: 0 };
    let opened = open_connection(&MessageRouter::new(), &session, &params(), &mut ids).unwrap();
    assert_eq!(opened.config.peer_ip, session.remote_addr().ip);
}
