use eipscanner::eip::{
    decode_connected_packet, decode_sockaddr, encode_connected_packet, encode_sockaddr, CommonPacket,
    CommonPacketItem, CommonPacketItemId, EncapsCommand, EncapsPacket, EncapsStatus, SocketAddress, HEADER_SIZE,
};
use eipscanner::Error;

#[test]
fn item_encoding() {
    assert_eq!(CommonPacketItem::unconnected_data(vec![1, 2, 3, 4]).encode(), [0xB2, 0, 4, 0, 1, 2, 3, 4]);
    assert_eq!(CommonPacketItem::null_address().encode(), [0, 0, 0, 0]);
}

#[test]
fn decode_packet() {
    let cp = CommonPacket::new(vec![
        CommonPacketItem::null_address(),
        CommonPacketItem::unconnected_data(vec![0, 2]),
    ]);
    let decoded = CommonPacket::decode(&cp.encode()).unwrap();
    assert_eq!(decoded.items[0].type_id, CommonPacketItemId(CommonPacketItemId::NULL_ADDRESS));
    assert_eq!(decoded.items[1].type_id, CommonPacketItemId(CommonPacketItemId::UNCONNECTED_MESSAGE));
    assert_eq!(decoded, cp);
}

#[test]
fn decode_truncated_packet() {
    let cp = CommonPacket::new(vec![
        CommonPacketItem::unconnected_data(vec![]),
        CommonPacketItem::unconnected_data(vec![]),
    ]);
    let mut data = cp.encode();
    data.pop();
    assert!(CommonPacket::decode(&data).is_err());
}

#[test]
fn packet_decoding_stops_when_input_ends_between_items() {
    // Count 3, one complete item: the missing items are not an error.
    let data = [3, 0, 0xB2, 0, 1, 0, 9];
    let cp = CommonPacket::decode(&data).unwrap();
    assert_eq!(cp.items, [CommonPacketItem::unconnected_data(vec![9])]);
    // Data shorter than its length is invalid; a cut header is truncated.
    assert!(matches!(CommonPacket::decode(&[1, 0, 0xB2, 0, 2, 0, 9]), Err(Error::InvalidPacket(_))));
    assert!(matches!(CommonPacket::decode(&[1, 0, 0xB2]), Err(Error::Truncated { .. })));
}

#[test]
fn connected_packet_round_trip() {
    let mut out = Vec::new();
    encode_connected_packet(&mut out, 0x11223344, 7, &[&[1, 0], &[0xAA, 0xBB]]);
    let generic = CommonPacket::new(vec![
        CommonPacketItem::sequenced_address(0x11223344, 7),
        CommonPacketItem::connected_data(vec![1, 0, 0xAA, 0xBB]),
    ]);
    assert_eq!(out, generic.encode());

    let pkt = decode_connected_packet(&out).unwrap();
    assert_eq!(pkt.connection_id, 0x11223344);
    assert_eq!(pkt.sequence_number, 7);
    assert_eq!(pkt.data, [1, 0, 0xAA, 0xBB]);
    assert!(decode_connected_packet(&out[..out.len() - 1]).is_err());
}

#[test]
fn connected_packet_errors() {
    let mut out = Vec::new();
    encode_connected_packet(&mut out, 1, 2, &[&[5]]);
    let mut one_item = out.clone();
    one_item[0] = 1;
    assert!(matches!(decode_connected_packet(&one_item), Err(Error::InvalidPacket(_))));
    let mut unconnected = out.clone();
    unconnected[14] = 0xB2;
    assert!(matches!(decode_connected_packet(&unconnected), Err(Error::InvalidPacket(_))));
    assert!(matches!(decode_connected_packet(&out[..10]), Err(Error::Truncated { .. })));
}

const RR_DATA: [u8; 35] = [
    0x6F, 0, 0xB, 0, 0xDD, 0xCC, 0xBB, 0xAA, 0, 0, 0, 0, 0, 0, 0, 0, 0, 0, 0, 0, 0, 0, 0, 0, 0, 0, 0, 0, 0x64, 0,
    1, 2, 3, 4, 5,
];

#[test]
fn encaps_decode() {
    let packet = EncapsPacket::decode(&RR_DATA).unwrap();
    assert_eq!(packet.command, EncapsCommand(EncapsCommand::SEND_RR_DATA));
    assert_eq!(packet.status, EncapsStatus(EncapsStatus::SUCCESS));
    assert_eq!(packet.session_handle, 0xaabbccdd);
    assert_eq!(packet.data, [0, 0, 0, 0, 0x64, 0, 1, 2, 3, 4, 5]);
}

#[test]
fn encaps_decode_errors() {
    assert!(EncapsPacket::decode(&RR_DATA[..23]).is_err());
    let mut long = RR_DATA.to_vec();
    long.push(10);
    assert!(EncapsPacket::decode(&long).is_err());
}

#[test]
fn encaps_round_trip() {
    let mut packet = EncapsPacket::send_rr_data(7, 3, &[9, 8, 7]);
    packet.sender_context = [1, 2, 3, 4, 5, 6, 7, 8];
    packet.options = 0x0102_0304;
    packet.status = EncapsStatus(EncapsStatus::INVALID_SESSION_HANDLE);
    assert_eq!(EncapsPacket::decode(&packet.encode()).unwrap(), packet);
}

#[test]
fn register_session() {
    let mut expected = vec![0x65, 0, 4, 0];
    expected.extend([0; 20]);
    expected.extend([1, 0, 0, 0]);
    assert_eq!(EncapsPacket::register_session().encode(), expected);
}

#[test]
fn unregister_session() {
    let mut expected = vec![0x66, 0, 0, 0, 0xdd, 0xcc, 0xbb, 0xaa];
    expected.extend([0; 16]);
    assert_eq!(EncapsPacket::unregister_session(0xaabbccdd).encode(), expected);
}

#[test]
fn send_rr_data() {
    let packet = EncapsPacket::send_rr_data(0xaabbccdd, 100, &[1, 2, 3, 4, 5]);
    assert_eq!(packet.encode(), RR_DATA);
}

#[test]
fn list_identity() {
    let mut expected = vec![0x63];
    expected.extend([0; 23]);
    assert_eq!(EncapsPacket::list_identity().encode(), expected);
}

#[test]
fn length_from_header() {
    let header: [u8; HEADER_SIZE] = RR_DATA[..HEADER_SIZE].try_into().unwrap();
    assert_eq!(EncapsPacket::length_from_header(&header), 11);
}

const LOCALHOST_2222: [u8; 16] = [0x00, 0x02, 0x08, 0xae, 0x7f, 0, 0, 1, 0, 0, 0, 0, 0, 0, 0, 0];

#[test]
fn encode() {
    let mut out = Vec::new();
    encode_sockaddr(SocketAddress::new(0x7F00_0001, 2222), &mut out);
    assert_eq!(out, LOCALHOST_2222);
}

#[test]
fn sockaddr_decode() {
    let addr = decode_sockaddr(&mut &LOCALHOST_2222[..]).unwrap();
    assert_eq!(addr, SocketAddress::new(0x7F00_0001, 2222));
    assert!(matches!(
        decode_sockaddr(&mut &LOCALHOST_2222[..15]),
        Err(Error::Truncated { requested: 16, available: 15 })
    ));
}

#[test]
fn encapsulation_errors_give_the_lengths() {
    let err = EncapsPacket::decode(&[0u8; 10]).unwrap_err().to_string();
    assert_eq!(err, "invalid packet: encapsulation header must be 24 bytes, got 10");
    let mut data = vec![0u8; 24];
    data[2] = 4;
    data.extend([1, 2]);
    let err = EncapsPacket::decode(&data).unwrap_err().to_string();
    assert_eq!(err, "invalid packet: encapsulation data must be 4 bytes, got 2");
}

#[test]
fn implicit_packet_errors_name_the_field() {
    let good = {
        let mut out = Vec::new();
        encode_connected_packet(&mut out, 7, 9, &[&[1, 2, 3]]);
        out
    };
    let truncated = |n: usize| match decode_connected_packet(&good[..n]) {
        Err(Error::Truncated { requested, available }) => (requested, available),
        _ => panic!("expected truncation at {n}"),
    };
    assert_eq!(truncated(1), (2, 1));
    assert_eq!(truncated(8), (4, 2));
    assert_eq!(truncated(12), (4, 2));
    assert_eq!(truncated(15), (2, 1));
    assert_eq!(truncated(20), (3, 2));
    let message = |p: &[u8]| match decode_connected_packet(p) {
        Err(Error::InvalidPacket(m)) => m,
        _ => panic!("expected an invalid packet"),
    };
    assert_eq!(message(&[1, 0]), "implicit packet has 1 items, expected 2");
    let mut bad_addr = good.clone();
    bad_addr[4] = 4;
    assert_eq!(
        message(&bad_addr),
        "implicit packet address item is SEQUENCED_ADDRESS(0x8002) with length 4"
    );
    let mut bad_data = good.clone();
    bad_data[14] = 0xB2;
    assert_eq!(message(&bad_data), "implicit packet data item is UNCONNECTED_MESSAGE(0xb2)");
}
