use eipscanner::cip::connection_manager::{
    ConnectionConfig, ConnectionPath, ConnectionType, Direction, ElectronicKey, ForwardCloseRequest,
    ForwardOpenRequest, ForwardOpenResponse, NetworkParams, Priority, SizeType, TransportClass, TransportTrigger,
    Trigger,
};

#[test]
fn layout() {
    let req = ForwardCloseRequest {
        connection_serial_number: 0x0102,
        originator_vendor_id: 0x0304,
        originator_serial_number: 0x0506_0708,
        connection_path: vec![0x20, 0x04, 0x24, 0x01],
    };
    assert_eq!(
        req.encode(),
        [0, 0, 0x02, 0x01, 0x04, 0x03, 0x08, 0x07, 0x06, 0x05, 2, 0, 0x20, 0x04, 0x24, 0x01]
    );
}

fn request() -> ForwardOpenRequest {
    ForwardOpenRequest {
        priority_time_tick: 0x0A,
        timeout_ticks: 0x0E,
        o2t_connection_id: 0,
        t2o_connection_id: 0x1234_0001,
        connection_serial_number: 1,
        originator_vendor_id: 342,
        originator_serial_number: 0x12345,
        connection_timeout_multiplier: 1,
        o2t_rpi: 10_000,
        o2t_params: NetworkParams::decode(0x4822, false),
        t2o_rpi: 10_000,
        t2o_params: NetworkParams::decode(0x4822, false),
        transport: TransportTrigger::decode(1),
        path: vec![0x20, 0x04, 0x24, 0x01],
    }
}

#[test]
fn forward_open_layout() {
    let body = request().encode(false);
    assert_eq!(body.len(), 36 + 4);
    assert_eq!(&body[..2], [0x0A, 0x0E]);
    assert_eq!(&body[6..10], 0x1234_0001u32.to_le_bytes());
    assert_eq!(&body[26..28], [0x22, 0x48]);
    assert_eq!(&body[34..], [1, 2, 0x20, 0x04, 0x24, 0x01]);
}

#[test]
fn large_forward_open_layout() {
    let body = request().encode(true);
    assert_eq!(body.len(), 40 + 4);
    assert_eq!(&body[26..30], [0x22, 0, 0, 0x48]);
}

#[test]
fn decode_response() {
    let mut data = Vec::new();
    data.extend(0xAABB_CCDDu32.to_le_bytes());
    data.extend(0x1234_0001u32.to_le_bytes());
    data.extend(1u16.to_le_bytes());
    data.extend(342u16.to_le_bytes());
    data.extend(0x12345u32.to_le_bytes());
    data.extend(10_000u32.to_le_bytes());
    data.extend(20_000u32.to_le_bytes());
    data.push(1);
    data.push(0);
    data.extend([9, 8]);
    let resp = ForwardOpenResponse::decode(&data).unwrap();
    assert_eq!(resp.o2t_network_connection_id, 0xAABB_CCDD);
    assert_eq!(resp.t2o_api, 20_000);
    assert_eq!(resp.application_reply, [9, 8]);
    assert!(ForwardOpenResponse::decode(&data[..20]).is_err());
}

#[test]
fn network_params_small() {
    let p = NetworkParams {
        connection_type: ConnectionType::PointToPoint,
        priority: Priority::Scheduled,
        size_type: SizeType::Variable,
        size: 32,
        ..Default::default()
    };
    assert_eq!(p.encode(false), (2 << 13) | (2 << 10) | (1 << 9) | 32);
    assert_eq!(NetworkParams::decode(p.encode(false), false), p);
}

#[test]
fn network_params_large() {
    let p = NetworkParams {
        redundant_owner: true,
        connection_type: ConnectionType::Multicast,
        priority: Priority::Urgent,
        size_type: SizeType::Fixed,
        size: 1000,
    };
    assert_eq!(p.encode(true), (1 << 31) | (1 << 29) | (3 << 26) | 1000);
    assert_eq!(NetworkParams::decode(p.encode(true), true), p);
}

#[test]
fn network_params_small_form_keeps_nine_size_bits() {
    let p = NetworkParams { size: 0x3FF, ..Default::default() };
    assert_eq!(p.encode(false) & 0x3FF, 0x1FF);
}

#[test]
fn transport_trigger() {
    let t = TransportTrigger { class: TransportClass::Class1, trigger: Trigger::ChangeOfState, server: false };
    assert_eq!(t.encode(), 0x11);
    assert_eq!(TransportTrigger::decode(0x11), t);
    assert_eq!(TransportTrigger::decode(0x83).class, TransportClass::Class3);
    assert!(TransportTrigger::decode(0x83).server);
}

#[test]
fn wire_sizes_and_config_segment() {
    let rpi_us = 10_000;
    let mut c = ConnectionConfig::new(
        ConnectionPath::assembly(151, 150, 100),
        Direction::new(32, rpi_us).with_run_idle_header(),
        Direction::new(32, rpi_us),
    );
    assert_eq!((c.wire_size(&c.o2t), c.wire_size(&c.t2o)), (38, 34));
    assert_eq!(c.encoded_path(), c.path.as_bytes());

    c.config_data = vec![1, 2, 3];
    assert_eq!(c.encoded_path(), [0x20, 0x04, 0x24, 0x97, 0x2C, 0x96, 0x2C, 0x64, 0x80, 2, 1, 2, 3, 0]);

    c.transport_class = TransportClass::Class0;
    assert_eq!(c.wire_size(&c.o2t), 36);
}

#[test]
fn config_segment_is_cut_at_510_bytes() {
    let mut c = ConnectionConfig::new(ConnectionPath::new(), Direction::new(0, 1), Direction::new(0, 1));
    c.config_data = vec![7; 600];
    let path = c.encoded_path();
    assert_eq!(path.len(), 2 + 510);
    assert_eq!(&path[..2], [0x80, 255]);
}

#[test]
fn assembly_path() {
    assert_eq!(
        ConnectionPath::assembly(151, 150, 100).as_bytes(),
        [0x20, 0x04, 0x24, 0x97, 0x2C, 0x96, 0x2C, 0x64]
    );
}

#[test]
fn large_ids_use_16_bit_segments() {
    assert_eq!(
        ConnectionPath::new().class(4).instance(0x0300).connection_point(0x0102).as_bytes(),
        [0x20, 0x04, 0x25, 0x00, 0x00, 0x03, 0x2D, 0x00, 0x02, 0x01]
    );
}

#[test]
fn port_segments() {
    assert_eq!(ConnectionPath::new().backplane_slot(3).as_bytes(), [0x01, 0x03]);
    assert_eq!(
        ConnectionPath::new().port(2, b"10.0.0.1").as_bytes(),
        [0x12, 0x08, b'1', b'0', b'.', b'0', b'.', b'0', b'.', b'1']
    );
    assert_eq!(
        ConnectionPath::new().port(2, b"10.0.0.10").as_bytes(),
        [0x12, 0x09, b'1', b'0', b'.', b'0', b'.', b'0', b'.', b'1', b'0', 0]
    );
    assert_eq!(ConnectionPath::new().port(20, &[5]).as_bytes(), [0x0F, 20, 0, 5]);
}

#[test]
fn electronic_key() {
    let key = ElectronicKey {
        vendor_id: 1,
        device_type: 12,
        product_code: 65001,
        major_revision: 2,
        minor_revision: 3,
        compatibility: true,
    };
    assert_eq!(
        ConnectionPath::new().electronic_key(key).as_bytes(),
        [0x34, 0x04, 1, 0, 12, 0, 0xE9, 0xFD, 0x82, 3]
    );
}

#[test]
fn paths_join_and_convert() {
    let path = ConnectionPath::new().backplane_slot(3).then(ConnectionPath::assembly(151, 150, 100));
    assert_eq!(path.as_bytes(), [0x01, 0x03, 0x20, 0x04, 0x24, 0x97, 0x2C, 0x96, 0x2C, 0x64]);
    let raw: Vec<u8> = path.clone().into();
    assert_eq!(ConnectionPath::from(raw.clone()), path);
    assert_eq!(path.into_bytes(), raw);
}

#[test]
fn hex_round_trip() {
    let path: ConnectionPath = "20 04 24 97 2C 96 2C 64".parse().unwrap();
    assert_eq!(path, ConnectionPath::assembly(151, 150, 100));
    assert_eq!(path.to_string(), "20 04 24 97 2C 96 2C 64");
    assert!("20 xx".parse::<ConnectionPath>().is_err());
}

#[test]
fn route_strings() {
    assert_eq!(ConnectionPath::route("1,0").unwrap().as_bytes(), [0x01, 0x00]);
    assert_eq!(
        ConnectionPath::route(" 1, 0, 1 ,3 ").unwrap().as_bytes(),
        [0x01, 0x00, 0x01, 0x03]
    );
    assert_eq!(
        ConnectionPath::route("2,10.0.0.1").unwrap(),
        ConnectionPath::new().port(2, b"10.0.0.1")
    );
    assert_eq!(ConnectionPath::route("20,5").unwrap().as_bytes(), [0x0F, 20, 0, 5]);
    assert_eq!(ConnectionPath::route("").unwrap(), ConnectionPath::new());
    for bad in ["1", "0,1", "x,1", "1,256", "1,host"] {
        assert!(
            matches!(ConnectionPath::route(bad), Err(eipscanner::Error::InvalidInput(_))),
            "{bad}"
        );
    }
}

#[test]
fn route_rejects_malformed_addresses() {
    for bad in ["2,10.0.0", "2,10.0.0.256", "2,10.00.0.1", "2,+10.0.0.1", "2,10..0.1", "2,1.2.3.4.5"] {
        assert!(
            matches!(ConnectionPath::route(bad), Err(eipscanner::Error::InvalidInput(_))),
            "{bad}"
        );
    }
    assert_eq!(
        ConnectionPath::route("+2,0.0.0.0").unwrap().as_bytes(),
        [0x12, 7, b'0', b'.', b'0', b'.', b'0', b'.', b'0', 0]
    );
    assert_eq!(ConnectionPath::route("1,+7").unwrap().as_bytes(), [0x01, 7]);
}

#[test]
fn text_of_empty_and_short_paths() {
    assert_eq!(ConnectionPath::new().to_string(), "");
    assert_eq!(ConnectionPath::new().backplane_slot(10).to_string(), "01 0A");
    let spaced: ConnectionPath = "  a  0F\t1 ".parse().unwrap();
    assert_eq!(spaced.as_bytes(), [0x0A, 0x0F, 0x01]);
    assert!("100".parse::<ConnectionPath>().is_err());
}

#[test]
fn text_of_a_path_reads_back() {
    let path = ConnectionPath::from(vec![0x00, 0x0A, 0xFF, 0x10, 0x01]);
    let text = path.to_string();
    assert_eq!(text, "00 0A FF 10 01");
    assert_eq!(ConnectionPath::from_hex(&text).unwrap(), path);
    let empty = ConnectionPath::from(Vec::new());
    assert_eq!(ConnectionPath::from_hex(&empty.to_string()).unwrap(), empty);
}

#[test]
fn short_forward_open_reply_names_the_missing_field() {
    use_truncated(&[0u8; 20], 4, 0);
    use_truncated(&[0u8; 9], 2, 1);
    use_truncated(&[0u8; 25], 1, 0);
    let mut d = vec![0u8; 26];
    d[24] = 2;
    d.push(7);
    use_truncated(&d, 4, 1);
}

fn use_truncated(data: &[u8], requested: usize, available: usize) {
    match ForwardOpenResponse::decode(data) {
        Err(eipscanner::Error::Truncated { requested: r, available: a }) => {
            assert_eq!((r, a), (requested, available));
        }
        other => panic!("expected truncation, got {:?}", other.is_ok()),
    }
}

#[test]
fn joined_paths_append_their_bytes() {
    let routed = ConnectionPath::new().backplane_slot(3).then(ConnectionPath::assembly(151, 150, 100));
    assert_eq!(routed.to_string(), "01 03 20 04 24 97 2C 96 2C 64");
    let a = ConnectionPath::from(vec![1, 2]);
    let b = ConnectionPath::from(vec![3]);
    let c = ConnectionPath::from(vec![4, 5]);
    assert_eq!(a.clone().then(b.clone()).then(c.clone()), a.clone().then(b.then(c)));
    assert_eq!(ConnectionPath::new().then(a.clone()), a);
}
