use eipscanner::cip::CipRevision;
use eipscanner::discovery::{broadcast_addresses, parse_list_identity_response, InterfaceAddress};

const LIST_IDENTITY_RESPONSE: &[u8] = &[
    0x63, 0x00, 0x00, 0x00, 0x00, 0x00, 0x00, 0x00, 0x00, 0x00, 0x00, 0x00,
    0x00, 0x00, 0x00, 0x00, 0x00, 0x00, 0x00, 0x00, 0x00, 0x00, 0x00, 0x00,
    0x02, 0x00,
    0x0c, 0x00, 0x42, 0x00, 0x01, 0x00, 0x00, 0x02, 0xaf, 0x12, 0xc0, 0xa8,
    0x01, 0x0f, 0x00, 0x00, 0x00, 0x00, 0x00, 0x00, 0x00, 0x00, 0x01, 0x00, 0x96, 0x00, 0x09, 0x00,
    0x05, 0x01, 0x30, 0x00, 0x92, 0xe1, 0x8d, 0x80, 0x1d, 0x50, 0x6f, 0x77, 0x65, 0x72, 0x46, 0x6c,
    0x65, 0x78, 0x20, 0x35, 0x32, 0x35, 0x20, 0x31, 0x50, 0x20, 0x31, 0x31, 0x30, 0x56, 0x20, 0x20,
    0x20, 0x2e, 0x35, 0x30, 0x48, 0x50, 0x00, 0x00, 0x00, 0xff,
    0x0c, 0x00, 0x42, 0x00, 0x01, 0x00, 0x00, 0x02, 0xaf, 0x12, 0xc0, 0xa8,
    0x01, 0x0f, 0x00, 0x00, 0x00, 0x00, 0x00, 0x00, 0x00, 0x00, 0x01, 0x00, 0x96, 0x00, 0x09, 0x00,
    0x05, 0x01, 0x30, 0x00, 0x92, 0xe1, 0x8d, 0x80, 0x1d, 0x50, 0x6f, 0x77, 0x65, 0x72, 0x46, 0x6c,
    0x65, 0x78, 0x20, 0x35, 0x32, 0x35, 0x20, 0x31, 0x50, 0x20, 0x31, 0x31, 0x30, 0x56, 0x20, 0x20,
    0x20, 0x2e, 0x35, 0x30, 0x48, 0x50, 0x00, 0x00, 0x00, 0xff,
];

#[test]
fn parse_powerflex_reply() {
    let devices = parse_list_identity_response(LIST_IDENTITY_RESPONSE).unwrap();
    assert_eq!(devices.len(), 2);
    let d = &devices[1];
    assert_eq!(d.socket_address.to_string(), "192.168.1.15:44818");
    assert_eq!(d.identity.vendor_id, 1);
    assert_eq!(d.identity.device_type, 0x96);
    assert_eq!(d.identity.product_code, 9);
    assert_eq!(d.identity.revision, CipRevision::new(5, 1));
    assert_eq!(d.identity.status, 0x30);
    assert_eq!(d.identity.serial_number, 0x808de192);
    assert_eq!(d.identity.product_name, "PowerFlex 525 1P 110V   .50HP");
}

#[test]
fn truncated_reply_is_an_error() {
    assert!(parse_list_identity_response(&LIST_IDENTITY_RESPONSE[..60]).is_err());
}

#[test]
fn other_items_are_skipped() {
    let mut reply = LIST_IDENTITY_RESPONSE[..24].to_vec();
    reply.extend([1, 0, 0x34, 0x12, 2, 0, 9, 9]);
    assert_eq!(parse_list_identity_response(&reply).unwrap().len(), 0);
    assert!(parse_list_identity_response(&reply[..10]).is_err());
}

#[test]
fn broadcast_addresses_are_filtered_sorted_and_unique() {
    let iface = |up, broadcast, loopback, addr: Option<u32>| InterfaceAddress {
        up,
        broadcast,
        loopback,
        broadcast_address: addr,
    };
    let lan = 0xC0A8_01FF; // 192.168.1.255
    let docker = 0xAC11_FFFF; // 172.17.255.255
    let ifaces = [
        iface(true, true, false, Some(lan)),
        iface(true, true, true, Some(0x7F00_0001)),
        iface(false, true, false, Some(0x0A00_00FF)),
        iface(true, false, false, Some(0x0A00_01FF)),
        iface(true, true, false, None),
        iface(true, true, false, Some(docker)),
        iface(true, true, false, Some(lan)),
    ];
    assert_eq!(broadcast_addresses(&ifaces), vec![docker, lan]);
    assert!(broadcast_addresses(&[]).is_empty());
}
