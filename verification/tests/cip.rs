use eipscanner::cip::{
    encode_request, CipRevision, EPath, GeneralStatusCode, MessageRouterResponse, SegmentSize, ServiceCode,
};
use eipscanner::Error;

#[test]
fn encode_16_bit() {
    assert_eq!(
        EPath::attribute(5, 2, 1).encode(SegmentSize::Bits16),
        [0x21, 0, 5, 0, 0x25, 0, 2, 0, 0x31, 0, 1, 0]
    );
    assert_eq!(EPath::class(5).encode(SegmentSize::Bits16), [0x21, 0, 5, 0]);
}

#[test]
fn encode_8_bit_falls_back_for_large_ids() {
    assert_eq!(EPath::attribute(5, 2, 1).encode(SegmentSize::Bits8), [0x20, 5, 0x24, 2, 0x30, 1]);
    assert_eq!(EPath::instance(4, 300).encode(SegmentSize::Bits8), [0x20, 4, 0x25, 0, 0x2c, 0x01]);
}

#[test]
fn decode_8_bit() {
    let path = EPath::decode(&[0x20, 0x05, 0x24, 0x02, 0x30, 0x01]).unwrap();
    assert_eq!(path, EPath::attribute(5, 2, 1));
}

#[test]
fn decode_16_bit() {
    let path = EPath::decode(&[0x21, 0, 0x05, 0, 0x25, 0, 0x02, 0, 0x31, 0, 0x01, 0]).unwrap();
    assert_eq!(path, EPath::attribute(5, 2, 1));
}

#[test]
fn decode_mixed() {
    let path = EPath::decode(&[0x21, 0, 0x05, 0, 0x24, 0x02, 0x31, 0, 0x01, 0]).unwrap();
    assert_eq!(path, EPath::attribute(5, 2, 1));
}

#[test]
fn decode_partial_paths() {
    assert_eq!(EPath::decode(&[0x21, 0, 0x05, 0]).unwrap(), EPath::class(5));
    assert_eq!(EPath::decode(&[0x21, 0, 0x05, 0, 0x24, 0x02]).unwrap(), EPath::instance(5, 2));
}

#[test]
fn epath_decode_errors() {
    assert!(EPath::decode(&[0x21, 0, 0x05, 0, 0xf4, 0x02]).is_err());
    assert!(EPath::decode(&[0x21, 0, 0x05, 0, 0x24]).is_err());
}

#[test]
fn display() {
    assert_eq!(EPath::attribute(1, 2, 3).to_string(), "[classId=1 objectId=2 attributeId=3]");
    assert_eq!(EPath::class(1).to_string(), "[classId=1]");
}

#[test]
fn epath_round_trip_in_both_sizes() {
    for path in [EPath::class(0x1234), EPath::instance(7, 300), EPath::attribute(0x300, 0xFF, 0x100)] {
        for size in [SegmentSize::Bits8, SegmentSize::Bits16] {
            assert_eq!(EPath::decode(&path.encode(size)).unwrap(), path);
        }
    }
}

#[test]
fn epath_error_kinds() {
    assert!(matches!(
        EPath::decode(&[0x21, 0, 0x05]),
        Err(Error::Truncated { requested: 2, available: 1 })
    ));
    assert!(matches!(EPath::decode(&[0x44, 0]), Err(Error::InvalidPacket(_))));
    match EPath::decode(&[0xf4, 0]) {
        Err(Error::InvalidPacket(msg)) => assert_eq!(msg, "unknown EPATH segment 0xf4"),
        other => panic!("{other:?}"),
    }
}

#[test]
fn encode_get_attribute_single() {
    let req = encode_request(
        ServiceCode(ServiceCode::GET_ATTRIBUTE_SINGLE),
        &EPath::attribute(1, 1, 1),
        &[],
        SegmentSize::Bits16,
    );
    assert_eq!(req, [0x0E, 6, 0x21, 0, 1, 0, 0x25, 0, 1, 0, 0x31, 0, 1, 0]);
}

#[test]
fn decode_with_additional_status() {
    let resp = MessageRouterResponse::decode(&[0x8E, 0, 0x1F, 1, 0x34, 0x12, 0xAA]).unwrap();
    assert_eq!(resp.service, ServiceCode(0x8E));
    assert_eq!(resp.general_status, GeneralStatusCode(GeneralStatusCode::VENDOR_SPECIFIC));
    assert_eq!(resp.additional_status, [0x1234]);
    assert_eq!(resp.data, [0xAA]);
    assert!(matches!(resp.check("read"), Err(Error::Cip { .. })));
}

#[test]
fn message_router_decode_errors() {
    assert!(MessageRouterResponse::decode(&[0, 0, 0]).is_err());
    assert!(MessageRouterResponse::decode(&[0, 0, 0, 2, 0, 1]).is_err());
}

#[test]
fn check_passes_success_through() {
    let resp = MessageRouterResponse::decode(&[0x8E, 0, 0, 0, 9]).unwrap();
    assert!(resp.is_success());
    let ok = resp.clone().check("read").unwrap();
    assert_eq!(ok, resp);
    let failed = MessageRouterResponse::decode(&[0x8E, 0, 0x05, 1, 0x02, 0x01]).unwrap();
    match failed.check("read vendor ID") {
        Err(Error::Cip { context, status, additional }) => {
            assert_eq!(context, "read vendor ID");
            assert_eq!(status, GeneralStatusCode(GeneralStatusCode::PATH_DESTINATION_UNKNOWN));
            assert_eq!(additional, [0x0102]);
        }
        other => panic!("{other:?}"),
    }
}

#[test]
fn round_trip_and_display() {
    let rev = CipRevision::new(1, 2);
    let mut buf = Vec::new();
    rev.encode(&mut buf);
    assert_eq!(buf, [1, 2]);
    assert_eq!(CipRevision::decode(&mut &buf[..]).unwrap(), rev);
    assert_eq!(rev.to_string(), "1.2");
    assert_eq!(CipRevision::default(), CipRevision::new(0, 0));
}

#[test]
fn revision_decode_truncated() {
    assert!(matches!(CipRevision::decode(&mut &[7u8][..]), Err(Error::Truncated { .. })));
    assert_eq!(CipRevision::new(200, 15).to_string(), "200.15");
}

#[test]
fn known_and_unknown_codes_format() {
    assert_eq!(
        GeneralStatusCode(GeneralStatusCode::PATH_DESTINATION_UNKNOWN).to_string(),
        "PATH_DESTINATION_UNKNOWN(0x5)"
    );
    assert_eq!(GeneralStatusCode(0x7f).to_string(), "GeneralStatusCode(0x7f)");
    assert_eq!(ServiceCode::from(0x0E), ServiceCode(ServiceCode::GET_ATTRIBUTE_SINGLE));
}

#[test]
fn code_names() {
    assert_eq!(ServiceCode(0x0E).name(), Some("GET_ATTRIBUTE_SINGLE"));
    assert_eq!(ServiceCode(0x4E).name(), None);
    assert_eq!(u8::from(GeneralStatusCode(0x1F)), 0x1F);
    assert_eq!(eipscanner::cip::CipDataType(0xC8).to_string(), "UDINT(0xc8)");
}

#[test]
fn error_messages() {
    let cip = Error::Cip {
        context: "read vendor ID".to_string(),
        status: GeneralStatusCode(GeneralStatusCode::PATH_DESTINATION_UNKNOWN),
        additional: vec![0x0001, 0x00ff],
    };
    assert_eq!(
        cip.to_string(),
        "read vendor ID: CIP status PATH_DESTINATION_UNKNOWN(0x5), additional status [0001, 00ff]"
    );
    let none = Error::Cip {
        context: "x".to_string(),
        status: GeneralStatusCode(GeneralStatusCode::SUCCESS),
        additional: vec![],
    };
    assert_eq!(none.to_string(), "x: CIP status SUCCESS(0x0), additional status []");
    assert_eq!(
        Error::Truncated { requested: 4, available: 1 }.to_string(),
        "not enough data: needed 4 bytes, 1 available"
    );
    assert_eq!(
        Error::WrongSessionHandle { expected: 0x12, received: 0xABCDEF01 }.to_string(),
        "wrong session handle: expected 0x00000012, received 0xabcdef01"
    );
    assert_eq!(Error::IoThreadStopped.to_string(), "IO thread is not running");
}
