use smart_servo::bus::{ReadEvent, ReadStep, ReplyGoal, ReplyReader, SerialBusConfig};
use smart_servo::fashionstar::controller::{
    monitor_read_misses, ping_reply_outcome, raw_angle_read_misses, ControllerState, PacketGoal,
};
use smart_servo::fashionstar::protocol::{
    checksum, CODE_PING, CODE_QUERY_SERVO_ANGLE, CODE_QUERY_SERVO_ANGLE_MTURN,
    CODE_QUERY_SERVO_MONITOR, RESP_HEADER,
};
use smart_servo::model::AngleSample;
use smart_servo::SmartServoError;

fn reply(code: u8, params: &[u8]) -> Vec<u8> {
    let mut out = vec![RESP_HEADER[0], RESP_HEADER[1], code, params.len() as u8];
    out.extend_from_slice(params);
    out.push(checksum(RESP_HEADER, code, params));
    out
}

fn angle_reply(id: u8, angle: i32) -> Vec<u8> {
    let mut p = vec![id];
    p.extend_from_slice(&angle.to_le_bytes());
    p.extend_from_slice(&[0, 0]);
    reply(CODE_QUERY_SERVO_ANGLE_MTURN, &p)
}

fn monitor_reply(id: u8, voltage: u16, angle: i32) -> Vec<u8> {
    let mut p = vec![id];
    p.extend_from_slice(&voltage.to_le_bytes());
    p.extend_from_slice(&[0; 6]);
    p.push(0);
    p.extend_from_slice(&angle.to_le_bytes());
    p.extend_from_slice(&[1, 0]);
    reply(CODE_QUERY_SERVO_MONITOR, &p)
}

#[test]
fn raw_angle_from_matching_reply() {
    let mut state = ControllerState::new();
    let mut data = angle_reply(2, 999);
    data.extend(angle_reply(1, -1234));
    assert_eq!(state.read_raw_angle(1, true, Ok(data)).unwrap(), -1234);
    assert_eq!(state.loss_tracker.miss_count(1), 0);
}

#[test]
fn raw_angle_single_turn() {
    let mut state = ControllerState::new();
    let data = reply(CODE_QUERY_SERVO_ANGLE, &[1, 0x10, 0x00]);
    assert_eq!(state.read_raw_angle(1, false, Ok(data)).unwrap(), 16);
}

#[test]
fn raw_angle_timeout_counts_miss() {
    let mut state = ControllerState::new();
    assert!(matches!(
        state.read_raw_angle(1, true, Err(SmartServoError::Timeout)),
        Err(SmartServoError::Timeout)
    ));
    assert_eq!(state.loss_tracker.miss_count(1), 1);
    // A reply from another servo is a miss too.
    assert!(matches!(
        state.read_raw_angle(1, true, Ok(angle_reply(2, 5))),
        Err(SmartServoError::Timeout)
    ));
    assert_eq!(state.loss_tracker.miss_count(1), 2);
    // A reply resets the count.
    assert_eq!(state.read_raw_angle(1, true, Ok(angle_reply(1, 5))).unwrap(), 5);
    assert_eq!(state.loss_tracker.miss_count(1), 0);
}

#[test]
fn raw_angle_reports_checksum_error() {
    let mut state = ControllerState::new();
    let bad = vec![0x05, 0x1c, CODE_QUERY_SERVO_ANGLE_MTURN, 1, 1, 0x00];
    assert!(matches!(
        state.read_raw_angle(1, true, Ok(bad)),
        Err(SmartServoError::ChecksumMismatch { code: CODE_QUERY_SERVO_ANGLE_MTURN, got: 0, .. })
    ));
    assert_eq!(state.loss_tracker.miss_count(1), 0);
}

#[test]
fn raw_angle_passes_other_errors() {
    let mut state = ControllerState::new();
    let r = state.read_raw_angle(
        1,
        true,
        Err(SmartServoError::Unsupported(String::from("x"))),
    );
    assert!(matches!(r, Err(SmartServoError::Unsupported(_))));
    assert_eq!(state.loss_tracker.miss_count(1), 0);
}

#[test]
fn loss_threshold_reached() {
    let mut state = ControllerState::new();
    state.set_loss_threshold(2);
    assert!(matches!(
        state.read_raw_angle(3, true, Err(SmartServoError::Timeout)),
        Err(SmartServoError::Timeout)
    ));
    assert!(matches!(
        state.read_raw_angle(3, true, Err(SmartServoError::Timeout)),
        Err(SmartServoError::ConsecutiveLoss { id: 3, count: 2 })
    ));
}

#[test]
fn angle_pair_filters_and_timeout_sample_holds() {
    let mut state = ControllerState::new();
    assert_eq!(state.filter_timeout_sample(1), None);
    let s = state.read_angle_pair(1, true, Ok(angle_reply(1, -700)), 1_000).unwrap();
    assert_eq!(s, AngleSample { raw_decideg: -700, filtered_decideg: -700, reliable: true });
    let z = state.read_angle_pair(1, true, Ok(angle_reply(1, 0)), 1_100).unwrap();
    assert_eq!(z, AngleSample { raw_decideg: 0, filtered_decideg: -700, reliable: false });
    assert_eq!(
        state.filter_timeout_sample(1),
        Some(AngleSample { raw_decideg: 0, filtered_decideg: -700, reliable: false })
    );
    assert!(state.read_angle_pair(1, true, Err(SmartServoError::Timeout), 1_200).is_err());
}

#[test]
fn query_monitor_filters_and_remembers() {
    let mut state = ControllerState::new();
    let m = state.query_monitor(4, Ok(monitor_reply(4, 7400, 123)), 0).unwrap();
    assert_eq!(m.id, 4);
    assert_eq!(m.voltage_mv, 7400);
    assert_eq!(m.raw_decideg, 123);
    assert_eq!(m.filtered_decideg, 123);
    assert_eq!(m.turn, 1);
    assert!(m.reliable);
    let held = state.query_monitor(4, Ok(monitor_reply(4, 7400, 0)), 10).unwrap();
    assert_eq!(held.raw_decideg, 0);
    assert_eq!(held.filtered_decideg, 123);
    assert_eq!(held.angle_decideg, 123);
    assert!(!held.reliable);
    assert!(matches!(
        state.query_monitor(5, Ok(monitor_reply(4, 7400, 1)), 20),
        Err(SmartServoError::Timeout)
    ));
}

#[test]
fn sync_monitor_answers_each_servo() {
    let mut state = ControllerState::new();
    state.query_monitor(3, Ok(monitor_reply(3, 7000, 50)), 0).unwrap();
    let mut data = monitor_reply(1, 7100, 10);
    data.extend(monitor_reply(2, 7200, 20));
    let r = state.sync_monitor(&[1, 2, 3, 4], Ok(data), 100).unwrap();
    assert_eq!(r.len(), 4);
    assert_eq!(r[&1].unwrap().raw_decideg, 10);
    assert!(r[&1].unwrap().reliable);
    assert_eq!(r[&2].unwrap().voltage_mv, 7200);
    let held = r[&3].unwrap();
    assert_eq!(held.raw_decideg, 50);
    assert!(!held.reliable);
    assert_eq!(r[&4], None);
    assert_eq!(state.loss_tracker.miss_count(3), 1);
    assert_eq!(state.loss_tracker.miss_count(4), 1);
    assert_eq!(state.loss_tracker.miss_count(1), 0);
}

#[test]
fn sync_monitor_timeout_holds_all() {
    let mut state = ControllerState::new();
    state.query_monitor(1, Ok(monitor_reply(1, 7000, 77)), 0).unwrap();
    let r = state.sync_monitor(&[1, 2], Err(SmartServoError::Timeout), 100).unwrap();
    let held = r[&1].unwrap();
    assert_eq!(held.filtered_decideg, 77);
    assert!(!held.reliable);
    assert_eq!(r[&2], None);
    assert_eq!(state.loss_tracker.miss_count(1), 1);
    assert_eq!(state.loss_tracker.miss_count(2), 1);
}

#[test]
fn sync_monitor_timeout_stops_at_loss() {
    let mut state = ControllerState::new();
    state.set_loss_threshold(1);
    let r = state.sync_monitor(&[5, 6], Err(SmartServoError::Timeout), 0);
    assert!(matches!(r, Err(SmartServoError::ConsecutiveLoss { id: 5, count: 1 })));
    assert_eq!(state.loss_tracker.miss_count(5), 1);
    assert_eq!(state.loss_tracker.miss_count(6), 0);
}

#[test]
fn ping_outcomes() {
    assert!(ping_reply_outcome(3, Ok(reply(CODE_PING, &[3]))).unwrap());
    assert!(!ping_reply_outcome(3, Ok(reply(CODE_PING, &[4]))).unwrap());
    assert!(!ping_reply_outcome(3, Err(SmartServoError::Timeout)).unwrap());
    let bad = vec![0x05, 0x1c, CODE_PING, 1, 3, 0];
    assert!(matches!(
        ping_reply_outcome(3, Ok(bad)),
        Err(SmartServoError::ChecksumMismatch { .. })
    ));
}

#[test]
fn reply_reader_steps() {
    let goal = PacketGoal::AnyPacket;
    let mut reader = ReplyReader::new(true);
    assert_eq!(reader.on_event(ReadEvent::TimedOut, &goal), ReadStep::Continue);
    assert_eq!(reader.on_event(ReadEvent::Interrupted, &goal), ReadStep::Continue);
    let frame = reply(CODE_PING, &[1]);
    assert_eq!(
        reader.on_event(ReadEvent::Received(frame[..3].to_vec()), &goal),
        ReadStep::Continue
    );
    assert_eq!(reader.on_event(ReadEvent::Empty, &goal), ReadStep::Continue);
    assert_eq!(
        reader.on_event(ReadEvent::Received(frame[3..].to_vec()), &goal),
        ReadStep::Done
    );
    assert_eq!(reader.finish().unwrap(), frame);
}

#[test]
fn reply_reader_idle_gap_and_timeout() {
    let goal = PacketGoal::AtLeast(2);
    let mut reader = ReplyReader::new(false);
    assert_eq!(
        reader.on_event(ReadEvent::Received(reply(CODE_PING, &[1])), &goal),
        ReadStep::Continue
    );
    assert_eq!(reader.on_event(ReadEvent::TimedOut, &goal), ReadStep::Continue);
    assert_eq!(
        reader.on_event(ReadEvent::Received(reply(CODE_PING, &[2])), &goal),
        ReadStep::Done
    );
    let mut gap = ReplyReader::new(true);
    gap.on_event(ReadEvent::Received(vec![0x05]), &goal);
    assert_eq!(gap.on_event(ReadEvent::TimedOut, &goal), ReadStep::Done);
    assert!(matches!(ReplyReader::new(true).finish(), Err(SmartServoError::Timeout)));
    assert!(PacketGoal::AnyPacket.is_reached(&reply(CODE_PING, &[1])));
    assert!(!PacketGoal::AnyPacket.is_reached(&[0x05, 0x1c]));
}

#[test]
fn bus_config_defaults() {
    let c = SerialBusConfig::new(String::from("/dev/ttyUSB0"), 1_000_000);
    assert_eq!(c.port, "/dev/ttyUSB0");
    assert_eq!(c.baudrate, 1_000_000);
    assert_eq!(c.timeout_ms, 100);
    assert_eq!(c.read_timeout_ms, 10);
}

#[test]
fn raw_angle_miss_check_follows_outcome() {
    assert!(raw_angle_read_misses(1, true, &Err(SmartServoError::Timeout)));
    assert!(!raw_angle_read_misses(1, true, &Err(SmartServoError::Protocol("x".to_string()))));
    assert!(!raw_angle_read_misses(1, true, &Ok(angle_reply(1, 5))));
    assert!(raw_angle_read_misses(1, true, &Ok(angle_reply(2, 5))));
    assert!(raw_angle_read_misses(1, true, &Ok(Vec::new())));
    let mut bad = angle_reply(1, 5);
    let last = bad.len() - 1;
    bad[last] ^= 0xff;
    assert!(!raw_angle_read_misses(1, true, &Ok(bad)));
}

#[test]
fn monitor_miss_check_follows_outcome() {
    assert!(monitor_read_misses(3, &Err(SmartServoError::Timeout)));
    assert!(!monitor_read_misses(3, &Ok(monitor_reply(3, 7000, 10))));
    assert!(monitor_read_misses(3, &Ok(monitor_reply(4, 7000, 10))));
    let mut bad = monitor_reply(3, 7000, 10);
    let last = bad.len() - 1;
    bad[last] ^= 0xff;
    assert!(!monitor_read_misses(3, &Ok(bad)));
}

#[test]
fn sync_fit_check_leaves_state_alone() {
    let mut state = ControllerState::new();
    state.query_monitor(1, Ok(monitor_reply(1, 7000, 77)), 0).unwrap();
    let data = monitor_reply(2, 7100, 20);
    assert!(state.sync_monitor_fits(&[1, 2, 1], &Ok(data.clone()), 100));
    assert!(state.sync_monitor_fits(&[1, 2], &Err(SmartServoError::Timeout), 100));
    assert_eq!(state.loss_tracker.miss_count(1), 0);
    assert_eq!(state.loss_tracker.miss_count(2), 0);
    let r = state.sync_monitor(&[1, 2, 1], Ok(data), 100).unwrap();
    assert_eq!(r[&2].unwrap().raw_decideg, 20);
    assert_eq!(state.loss_tracker.miss_count(1), 2);
}
