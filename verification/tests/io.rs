use std::str::FromStr;
use eipscanner::eip::{decode_connected_packet, ConnectedPacket, SocketAddress};
use eipscanner::io::{
    o2t_destination, ConnectionIds, ConnectionKey, ConnectionTable, IoConnection, IoConnectionConfig,
    RealtimeConfig,
};

const MS: u64 = 1_000_000;
const T0: u64 = 5_000 * MS;

fn ip(a: u8, b: u8, c: u8, d: u8) -> u32 {
    u32::from_be_bytes([a, b, c, d])
}

fn config() -> IoConnectionConfig {
    IoConnectionConfig {
        o2t_id: 0x100,
        t2o_id: 0x200,
        serial_number: 1,
        o2t_api_ns: 10 * MS,
        timeout_ns: 40 * MS,
        o2t_size: 2,
        t2o_size: 3,
        o2t_fixed: true,
        t2o_fixed: true,
        has_sequence_count: true,
        o2t_real_time_format: true,
        t2o_real_time_format: false,
        destination: SocketAddress::new(ip(127, 0, 0, 1), 2222),
        peer_ip: ip(127, 0, 0, 1),
    }
}

#[test]
fn o2t_packet_layout_and_counters() {
    let t0 = T0;
    let mut conn = IoConnection::new(config(), t0);
    conn.set_output(vec![0xAA, 0xBB]);
    assert!(conn.is_send_due(t0));

    let mut out = Vec::new();
    assert!(conn.build_packet(t0, &mut out));
    let pkt = decode_connected_packet(&out).unwrap();
    assert_eq!(pkt.connection_id, 0x100);
    assert_eq!(pkt.sequence_number, 1);
    // sequence count, run header (run = 1), data
    assert_eq!(pkt.data, [1, 0, 1, 0, 0, 0, 0xAA, 0xBB]);

    conn.set_run(false);
    assert!(conn.build_packet(t0 + 10 * MS, &mut out));
    let pkt = decode_connected_packet(&out).unwrap();
    assert_eq!(pkt.sequence_number, 2);
    assert_eq!(pkt.data, [2, 0, 0, 0, 0, 0, 0xAA, 0xBB]);
}

#[test]
fn schedule_keeps_phase_and_skips_missed_slots() {
    let t0 = T0;
    let mut conn = IoConnection::new(config(), t0);
    let mut out = Vec::new();
    conn.build_packet(t0, &mut out);
    assert_eq!(conn.next_send(), t0 + 10 * MS);

    // Woke 2 ms late: next slot stays on the 10 ms grid.
    conn.build_packet(t0 + 12 * MS, &mut out);
    assert_eq!(conn.next_send(), t0 + 20 * MS);

    // Stalled for 35 ms: slots at 20 and 30 are skipped, not sent in a burst.
    conn.build_packet(t0 + 55 * MS, &mut out);
    assert_eq!(conn.next_send(), t0 + 60 * MS);
}

#[test]
fn fixed_size_mismatch_is_not_sent() {
    let t0 = T0;
    let mut conn = IoConnection::new(config(), t0);
    conn.set_output(vec![1, 2, 3]);
    let mut out = Vec::new();
    assert!(!conn.build_packet(t0, &mut out));
}

#[test]
fn receive_resets_timeout() {
    let t0 = T0;
    let mut conn = IoConnection::new(config(), t0);
    let t1 = t0 + 30 * MS;
    let pkt = ConnectedPacket {
        connection_id: 0x200,
        sequence_number: 9,
        data: &[5, 0, 1, 2, 3],
    };
    let input = conn.on_receive(&pkt, t1).unwrap();
    assert_eq!(input.sequence_count, 5);
    assert_eq!(input.data, [1, 2, 3]);
    assert!(!conn.is_timed_out(t0 + 60 * MS));
    assert!(conn.is_timed_out(t1 + 40 * MS));
}

#[test]
fn wrong_size_input_is_ignored() {
    let t0 = T0;
    let mut conn = IoConnection::new(config(), t0);
    let pkt = ConnectedPacket {
        connection_id: 0x200,
        sequence_number: 1,
        data: &[5, 0, 1, 2],
    };
    assert!(conn.on_receive(&pkt, t0 + 30 * MS).is_none());
    assert!(conn.is_timed_out(t0 + 40 * MS));
}

#[test]
fn o2t_destination_fallbacks() {
    let peer = ip(10, 0, 0, 5);
    let at = |ip: u32, port: u16| Some(SocketAddress::new(ip, port));
    assert_eq!(o2t_destination(None, peer).to_string(), "10.0.0.5:2222");
    assert_eq!(o2t_destination(at(0, 3000), peer).to_string(), "10.0.0.5:3000");
    assert_eq!(o2t_destination(at(0, 0), peer).to_string(), "10.0.0.5:2222");
    assert_eq!(o2t_destination(at(ip(10, 0, 0, 9), 0), peer).to_string(), "10.0.0.9:2222");
    assert_eq!(
        o2t_destination(at(ip(239, 1, 2, 3), 2222), peer).to_string(),
        "239.1.2.3:2222"
    );
}

#[test]
fn zero_interval_does_not_move_the_schedule() {
    let mut cfg = config();
    cfg.o2t_api_ns = 0;
    let mut conn = IoConnection::new(cfg, T0);
    let mut out = Vec::new();
    assert!(conn.build_packet(T0 + 5 * MS, &mut out));
    assert_eq!(conn.next_send(), T0);
    assert_eq!(conn.next_deadline(), T0);
}

#[test]
fn variable_size_and_plain_formats() {
    let mut cfg = config();
    cfg.o2t_fixed = false;
    cfg.has_sequence_count = false;
    cfg.o2t_real_time_format = false;
    cfg.t2o_fixed = false;
    cfg.t2o_real_time_format = true;
    let mut conn = IoConnection::new(cfg, T0);
    conn.set_output(vec![9, 8, 7]);
    let mut out = Vec::new();
    assert!(conn.build_packet(T0, &mut out));
    assert_eq!(decode_connected_packet(&out).unwrap().data, [9, 8, 7]);
    let pkt = ConnectedPacket {
        connection_id: 0x200,
        sequence_number: 3,
        data: &[1, 0, 0, 0, 4],
    };
    let input = conn.on_receive(&pkt, T0).unwrap();
    assert_eq!((input.sequence_count, input.run_idle_header, input.data), (0, 1, &[4u8][..]));
    let short = ConnectedPacket {
        connection_id: 0x200,
        sequence_number: 4,
        data: &[1, 0],
    };
    assert!(conn.on_receive(&short, T0).is_none());
}

#[test]
fn output_sequence_numbers_wrap() {
    let mut conn = IoConnection::new(config(), T0);
    let mut out = Vec::new();
    for _ in 0..3 {
        assert!(conn.build_packet(T0, &mut out));
    }
    let pkt = decode_connected_packet(&out).unwrap();
    assert_eq!(pkt.sequence_number, 3);
    assert_eq!(&pkt.data[..2], [3, 0]);
}

#[test]
fn table_keeps_one_connection_per_key() {
    let mut table = ConnectionTable::new();
    assert!(table.add(IoConnection::new(config(), T0)));
    assert!(!table.add(IoConnection::new(config(), T0)), "same device and T2O ID");
    let mut other = config();
    other.peer_ip = ip(127, 0, 0, 2);
    assert!(table.add(IoConnection::new(other, T0)));
    assert_eq!(table.len(), 2);

    let key = ConnectionKey { peer_ip: ip(127, 0, 0, 2), t2o_id: 0x200 };
    assert!(table.set_output(key, vec![5, 6]));
    assert!(table.set_run(key, false));
    let mut out = Vec::new();
    let (sent, dest) = table.build_packet(key, T0, &mut out).unwrap();
    assert!(sent);
    assert_eq!(dest.to_string(), "127.0.0.1:2222");
    assert_eq!(decode_connected_packet(&out).unwrap().data, [1, 0, 0, 0, 0, 0, 5, 6]);

    let pkt = ConnectedPacket { connection_id: 0x200, sequence_number: 1, data: &[1, 0, 7, 8, 9] };
    assert_eq!(table.receive(ip(127, 0, 0, 2), &pkt, T0 + 30 * MS).unwrap().data, [7, 8, 9]);
    assert!(table.receive(ip(127, 0, 0, 3), &pkt, T0).is_none());

    assert_eq!(table.send_due(T0 + 5 * MS), vec![ConnectionKey { peer_ip: ip(127, 0, 0, 1), t2o_id: 0x200 }]);
    assert_eq!(
        table.timed_out(T0 + 40 * MS),
        vec![ConnectionKey { peer_ip: ip(127, 0, 0, 1), t2o_id: 0x200 }]
    );
    assert_eq!(table.next_deadline(T0, 100 * MS), T0);
    let mut out = table.take_output(key).unwrap();
    out.push(1);
    assert!(table.set_output(key, out));
    assert!(table.remove(key).is_some());
    assert!(table.remove(key).is_none());
    assert_eq!(table.len(), 1);
}

#[test]
fn ids_wrap_and_come_from_the_seed() {
    let mut ids = ConnectionIds::from_seed(0x1234_5678_9ABC);
    assert_eq!(ids.next_serial, 0x9ABC);
    assert_eq!(ids.next_connection_id, 0x5678_0000);
    assert_eq!(ids.next_connection_id(), 0x5678_0001);
    assert_eq!(ids.next_serial_number(), 0x9ABC);
    assert_eq!(ids.next_serial, 0x9ABD);
    let mut ids = ConnectionIds { next_serial: u16::MAX, next_connection_id: u32::MAX };
    assert_eq!(ids.next_connection_id(), 0);
    assert_eq!(ids.next_serial_number(), u16::MAX);
    assert_eq!(ids.next_serial, 0);
}

#[test]
fn default_realtime_config() {
    assert!(RealtimeConfig::default().is_default());
    let c = RealtimeConfig { fifo_priority: Some(50), ..RealtimeConfig::default() };
    assert!(!c.is_default());
}

#[test]
fn table_build_packet_refuses_unknown_key_and_clock_end() {
    let mut table = ConnectionTable::new();
    assert!(table.add(IoConnection::new(config(), T0)));
    let mut out = vec![9];
    let unknown = ConnectionKey { peer_ip: ip(127, 0, 0, 9), t2o_id: 0x200 };
    assert!(table.build_packet(unknown, T0, &mut out).is_none());
    assert_eq!(out, vec![9]);
    let key = ConnectionKey { peer_ip: ip(127, 0, 0, 1), t2o_id: 0x200 };
    assert!(table.build_packet(key, u64::MAX, &mut out).is_none());
    assert_eq!(out, vec![9]);
    assert!(table.build_packet(key, T0, &mut out).is_some());
}

#[test]
fn connection_path_from_str() {
    let p = eipscanner::cip::connection_manager::ConnectionPath::from_str(" 01 0a ").unwrap();
    assert_eq!(p.as_bytes(), [0x01, 0x0A]);
    assert!(eipscanner::cip::connection_manager::ConnectionPath::from_str("100").is_err());
}
