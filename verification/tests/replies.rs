use smart_servo::fashionstar::protocol::{
    checksum, CODE_QUERY_SERVO_ANGLE, CODE_QUERY_SERVO_MONITOR, RESP_HEADER,
};
use smart_servo::fashionstar::replies::{
    fashionstar_count_monitor_packets, fashionstar_decode_angle,
    fashionstar_decode_monitor_angle, MonitorDecodeResult,
};
use smart_servo::vendor::{vendor_from_name, Vendor};
use smart_servo::SmartServoError;

fn reply(code: u8, params: &[u8]) -> Vec<u8> {
    let mut out = vec![RESP_HEADER[0], RESP_HEADER[1], code, params.len() as u8];
    out.extend_from_slice(params);
    out.push(checksum(RESP_HEADER, code, params));
    out
}

fn monitor_reply(id: u8, voltage: u16, angle: i32) -> Vec<u8> {
    let mut p = vec![id];
    p.extend_from_slice(&voltage.to_le_bytes());
    p.extend_from_slice(&[0; 7]);
    p.extend_from_slice(&angle.to_le_bytes());
    reply(CODE_QUERY_SERVO_MONITOR, &p)
}

#[test]
fn counts_monitor_packets_only() {
    let mut data = monitor_reply(1, 7000, 5);
    data.extend(reply(CODE_QUERY_SERVO_ANGLE, &[1, 0, 0]));
    data.extend(monitor_reply(2, 7000, 6));
    assert_eq!(fashionstar_count_monitor_packets(&data), 2);
    assert_eq!(fashionstar_count_monitor_packets(&[]), 0);
}

#[test]
fn finds_monitor_of_servo() {
    let mut data = monitor_reply(1, 7000, 5);
    data.extend(monitor_reply(2, 7100, -6));
    assert_eq!(
        fashionstar_decode_monitor_angle(&data, 2),
        MonitorDecodeResult { found: true, raw_decideg: -6, voltage_mv: 7100 }
    );
    assert_eq!(
        fashionstar_decode_monitor_angle(&data, 9),
        MonitorDecodeResult { found: false, raw_decideg: 0, voltage_mv: 0 }
    );
}

#[test]
fn finds_angle_or_reports_error() {
    let data = reply(CODE_QUERY_SERVO_ANGLE, &[3, 0xff, 0xff]);
    let found = fashionstar_decode_angle(&data, 3, false);
    assert!(found.found);
    assert_eq!(found.raw_decideg, -1);
    assert!(found.error.is_none());
    let bad = vec![0x05, 0x1c, CODE_QUERY_SERVO_ANGLE, 1, 3, 0x00];
    let missing = fashionstar_decode_angle(&bad, 3, false);
    assert!(!missing.found);
    assert_eq!(missing.raw_decideg, 0);
    assert!(matches!(missing.error, Some(SmartServoError::ChecksumMismatch { .. })));
    let none = fashionstar_decode_angle(&data, 4, false);
    assert!(!none.found && none.error.is_none());
}

#[test]
fn vendor_names() {
    assert_eq!(vendor_from_name(b"fashionstar"), Some(Vendor::FashionStar));
    assert_eq!(vendor_from_name(b"FashionStar"), Some(Vendor::FashionStar));
    assert_eq!(vendor_from_name(b"Fashion-Star"), Some(Vendor::FashionStar));
    assert_eq!(vendor_from_name(b"FS"), Some(Vendor::FashionStar));
    assert_eq!(vendor_from_name(b"fsx"), None);
    assert_eq!(vendor_from_name(b"dynamixel"), None);
    assert_eq!(vendor_from_name(b""), None);
}
