use smart_servo::fashionstar::protocol::{
    checked_interval, checksum, decode_angle, decode_monitor, decode_ping, encode_ping,
    encode_query_angle, encode_query_monitor, encode_reset_multi_turn, encode_set_angle,
    encode_set_origin_point, encode_set_stop_mode, encode_sync_monitor, pack_request,
    parse_response_stream, Packet, CODE_PING, CODE_QUERY_SERVO_ANGLE,
    CODE_QUERY_SERVO_ANGLE_MTURN, CODE_QUERY_SERVO_MONITOR, REQ_HEADER, RESP_HEADER,
};
use smart_servo::SmartServoError;

fn deci(deg: f64) -> i32 {
    (deg * 10.0).round() as i32
}

/// A reply frame with a correct checksum.
fn reply(code: u8, params: &[u8]) -> Vec<u8> {
    let mut out = vec![RESP_HEADER[0], RESP_HEADER[1], code, params.len() as u8];
    out.extend_from_slice(params);
    out.push(checksum(RESP_HEADER, code, params));
    out
}

fn protocol_message(e: SmartServoError) -> String {
    match e {
        SmartServoError::Protocol(m) => m,
        other => panic!("expected a protocol error, got {:?}", other),
    }
}

#[test]
fn request_checksum_matches_python_sdk_shape() {
    let pkt = encode_ping(1).unwrap();
    assert_eq!(&pkt[..4], &[0x12, 0x4c, CODE_PING, 1]);
    assert_eq!(pkt[4], 1);
    assert_eq!(pkt[5], checksum(REQ_HEADER, CODE_PING, &[1]));
}

#[test]
fn rejects_single_turn_interval_truncation() {
    assert!(encode_set_angle(0, deci(10.0), false, Some(100_000)).is_err());
}

#[test]
fn reports_checksum_mismatch() {
    let mut bad = vec![0x05, 0x1c, CODE_PING, 1, 1, 0];
    bad[5] = 0xaa;
    let report = parse_response_stream(&bad);
    assert!(report.packets.is_empty());
    assert_eq!(report.errors.len(), 1);
}

#[test]
fn checksum_exact_values() {
    assert_eq!(checksum(REQ_HEADER, CODE_PING, &[1]), 0x61);
    assert_eq!(checksum(RESP_HEADER, CODE_PING, &[1]), 0x24);
    // The sum wraps modulo 256.
    assert_eq!(checksum([0xff, 0xff], 0xff, &[0xff; 255]), 0xfd);
    assert_eq!(checksum([0, 0], 0, &[]), 0);
}

#[test]
fn ping_frame_bytes() {
    assert_eq!(encode_ping(1).unwrap(), vec![0x12, 0x4c, 0x01, 0x01, 0x01, 0x61]);
}

#[test]
fn query_frames() {
    assert_eq!(encode_query_angle(2, false).unwrap(), vec![0x12, 0x4c, 10, 1, 2, 0x6b]);
    assert_eq!(encode_query_angle(2, true).unwrap(), vec![0x12, 0x4c, 16, 1, 2, 0x71]);
    assert_eq!(encode_query_monitor(0).unwrap(), vec![0x12, 0x4c, 22, 1, 0, 0x75]);
    assert_eq!(encode_reset_multi_turn(3).unwrap(), vec![0x12, 0x4c, 17, 1, 3, 0x73]);
    assert_eq!(encode_set_origin_point(3).unwrap(), vec![0x12, 0x4c, 23, 2, 3, 0, 0x7a]);
    assert_eq!(
        encode_set_stop_mode(1, 2, 0x0102).unwrap(),
        vec![0x12, 0x4c, 24, 4, 1, 2, 0x02, 0x01, 0x80]
    );
}

#[test]
fn pack_request_limits_params() {
    let ok = pack_request(9, &[0u8; 255]).unwrap();
    assert_eq!(ok.len(), 260);
    assert_eq!(ok[3], 255);
    let err = pack_request(9, &[0u8; 256]).unwrap_err();
    assert_eq!(protocol_message(err), "packet params too large");
}

#[test]
fn set_angle_single_turn_without_interval() {
    // -45.0 degrees is -450 tenths: 0xfe3e.
    let pkt = encode_set_angle(3, deci(-45.0), false, None).unwrap();
    assert_eq!(pkt, vec![0x12, 0x4c, 8, 7, 3, 0x3e, 0xfe, 0, 0, 0, 0, 0xac]);
    // An interval of zero means none.
    assert_eq!(encode_set_angle(3, deci(-45.0), false, Some(0)).unwrap(), pkt);
}

#[test]
fn set_angle_single_turn_clamps() {
    let high = encode_set_angle(1, 2000, false, None).unwrap();
    assert_eq!(&high[5..7], &[0x08, 0x07]);
    let low = encode_set_angle(1, -99_999, false, None).unwrap();
    assert_eq!(&low[5..7], &(-1800i16).to_le_bytes());
}

#[test]
fn set_angle_single_turn_with_interval() {
    let pkt = encode_set_angle(1, 100, false, Some(500)).unwrap();
    assert_eq!(pkt[2], 11);
    assert_eq!(pkt[3], 11);
    assert_eq!(&pkt[4..15], &[1, 100, 0, 0xf4, 0x01, 20, 0, 20, 0, 0, 0]);
    assert!(encode_set_angle(1, 100, false, Some(65_535)).is_ok());
    let err = encode_set_angle(1, 100, false, Some(65_536)).unwrap_err();
    assert_eq!(protocol_message(err), "single-turn interval_ms must be <= 65535");
}

#[test]
fn set_angle_multi_turn() {
    let pkt = encode_set_angle(2, -3600, true, None).unwrap();
    assert_eq!(pkt[2], 13);
    assert_eq!(&pkt[4..15], &[2, 0xf0, 0xf1, 0xff, 0xff, 0, 0, 0, 0, 0, 0]);
    let timed = encode_set_angle(2, 36_000, true, Some(4_096_000)).unwrap();
    assert_eq!(timed[2], 14);
    assert_eq!(timed[3], 15);
    assert_eq!(
        &timed[4..19],
        &[2, 0xa0, 0x8c, 0, 0, 0x00, 0x80, 0x3e, 0x00, 20, 0, 20, 0, 0, 0]
    );
    let err = encode_set_angle(2, 0, true, Some(4_096_001)).unwrap_err();
    assert_eq!(protocol_message(err), "multi-turn interval_ms must be <= 4096000");
}

#[test]
fn sync_monitor_request() {
    let pkt = encode_sync_monitor(&[1, 2]).unwrap();
    assert_eq!(&pkt[..9], &[0x12, 0x4c, 25, 5, 22, 1, 2, 1, 2]);
    assert_eq!(pkt[9], checksum(REQ_HEADER, 25, &[22, 1, 2, 1, 2]));
    let empty = encode_sync_monitor(&[]).unwrap_err();
    assert_eq!(protocol_message(empty), "sync_monitor: ids list must not be empty");
    assert!(encode_sync_monitor(&[7u8; 252]).is_ok());
    let big = encode_sync_monitor(&[7u8; 253]).unwrap_err();
    assert_eq!(protocol_message(big), "packet params too large");
}

#[test]
fn parse_skips_noise_and_reads_frames_in_order() {
    let mut data = vec![0x00, 0x05, 0x99];
    data.extend(reply(CODE_PING, &[3]));
    data.extend(reply(CODE_QUERY_SERVO_ANGLE, &[3, 0x10, 0x00]));
    data.extend([0x05, 0x1c]);
    let report = parse_response_stream(&data);
    assert_eq!(report.packets.len(), 2);
    assert!(report.errors.is_empty());
    assert_eq!(report.packets[0].code, CODE_PING);
    assert_eq!(report.packets[0].params, vec![3]);
    assert_eq!(report.packets[1].code, CODE_QUERY_SERVO_ANGLE);
    assert_eq!(report.packets[1].params, vec![3, 0x10, 0x00]);
}

#[test]
fn parse_reports_mismatch_details_and_continues() {
    let mut data = vec![0x05, 0x1c, CODE_PING, 1, 1, 0xaa];
    data.extend(reply(CODE_PING, &[2]));
    let report = parse_response_stream(&data);
    assert_eq!(report.packets.len(), 1);
    assert_eq!(report.packets[0].params, vec![2]);
    assert!(matches!(
        report.errors[0],
        SmartServoError::ChecksumMismatch { code: CODE_PING, expected: 0x24, got: 0xaa }
    ));
}

#[test]
fn parse_stops_at_truncated_frame() {
    let data = vec![0x05, 0x1c, CODE_PING, 4, 1, 2];
    let report = parse_response_stream(&data);
    assert!(report.packets.is_empty());
    assert!(report.errors.is_empty());
}

#[test]
fn decode_ping_reply() {
    assert_eq!(decode_ping(&Packet { code: CODE_PING, params: vec![9] }), Some(9));
    assert_eq!(decode_ping(&Packet { code: CODE_PING, params: vec![9, 1] }), None);
    assert_eq!(decode_ping(&Packet { code: 2, params: vec![9] }), None);
}

#[test]
fn decode_angle_replies() {
    let single = Packet { code: CODE_QUERY_SERVO_ANGLE, params: vec![4, 0x3e, 0xfe] };
    assert_eq!(decode_angle(&single, false).unwrap(), (4, -450));
    let multi = Packet {
        code: CODE_QUERY_SERVO_ANGLE_MTURN,
        params: vec![4, 0xf0, 0xf1, 0xff, 0xff, 0, 0],
    };
    assert_eq!(decode_angle(&multi, true).unwrap(), (4, -3600));
    assert_eq!(
        protocol_message(decode_angle(&single, true).unwrap_err()),
        "unexpected multi-turn angle response"
    );
    assert_eq!(
        protocol_message(decode_angle(&multi, false).unwrap_err()),
        "unexpected angle response"
    );
    let short = Packet { code: CODE_QUERY_SERVO_ANGLE, params: vec![4, 1] };
    assert!(decode_angle(&short, false).is_err());
}

#[test]
fn decode_monitor_reply() {
    let params = vec![
        5, 0x30, 0x2a, 0x64, 0x00, 0x10, 0x27, 0x2a, 0x00, 0x03, 0xf0, 0xf1, 0xff, 0xff, 0xfe,
        0xff,
    ];
    let m = decode_monitor(&Packet { code: CODE_QUERY_SERVO_MONITOR, params: params.clone() })
        .unwrap();
    assert_eq!(m.id, 5);
    assert_eq!(m.voltage_mv, 10800);
    assert_eq!(m.current_ma, 100);
    assert_eq!(m.power_mw, 10000);
    assert_eq!(m.temp_raw, 42);
    assert_eq!(m.status, 3);
    assert_eq!(m.raw_decideg, -3600);
    assert_eq!(m.filtered_decideg, -3600);
    assert_eq!(m.angle_decideg, -3600);
    assert_eq!(m.turn, -2);
    assert!(m.reliable);
    let flags = m.status_flags();
    assert!(flags.busy && flags.exec_error && !flags.stall && !flags.temp_error);
    // Without the turn bytes the turn count reads as 0.
    let short = decode_monitor(&Packet {
        code: CODE_QUERY_SERVO_MONITOR,
        params: params[..14].to_vec(),
    })
    .unwrap();
    assert_eq!(short.turn, 0);
    let err = decode_monitor(&Packet {
        code: CODE_QUERY_SERVO_MONITOR,
        params: params[..13].to_vec(),
    })
    .unwrap_err();
    assert_eq!(protocol_message(err), "unexpected monitor response");
}

#[test]
fn status_flags_high_bits() {
    let mut m = decode_monitor(&Packet {
        code: CODE_QUERY_SERVO_MONITOR,
        params: vec![0; 14],
    })
    .unwrap();
    m.status = 0xfc;
    let f = m.status_flags();
    assert!(!f.busy && !f.exec_error);
    assert!(f.stall && f.voltage_high && f.voltage_low && f.current_error && f.power_error && f.temp_error);
}

#[test]
fn interval_check() {
    assert_eq!(checked_interval(65_535), Some(65_535));
    assert_eq!(checked_interval(65_536), None);
    assert_eq!(checked_interval(0), Some(0));
}
