//! FashionStar packet framing, checksum, command encoders and reply decoders.
//!
//! A frame is `header(2) code(1) size(1) params(size) checksum(1)`, where the
//! checksum is the low byte of the sum of every byte before it (the size byte
//! counted as the parameter count).
use vstd::prelude::*;

use crate::bytes::{
    lemma_i16_roundtrip, lemma_i32_roundtrip, lemma_u16_roundtrip,
    i16_from_le, i32_from_le, le_i16, le_i32, le_u16, le_u32, push_le_i16, push_le_i32,
    push_le_u16, push_le_u32, read_le_i16, read_le_i32, read_le_u16, u16_from_le,
};
use crate::error::{is_protocol_error, protocol_error, ServoResult, SmartServoError};

verus! {

pub const REQ_HEADER: [u8; 2] = [0x12, 0x4c];

pub const RESP_HEADER: [u8; 2] = [0x05, 0x1c];

pub const CODE_PING: u8 = 1;

pub const CODE_QUERY_SERVO_MONITOR: u8 = 22;

pub const CODE_SET_SERVO_ANGLE: u8 = 8;

pub const CODE_QUERY_SERVO_ANGLE: u8 = 10;

pub const CODE_SET_SERVO_ANGLE_BY_INTERVAL: u8 = 11;

pub const CODE_SET_SERVO_ANGLE_MTURN: u8 = 13;

pub const CODE_SET_SERVO_ANGLE_MTURN_BY_INTERVAL: u8 = 14;

pub const CODE_QUERY_SERVO_ANGLE_MTURN: u8 = 16;

pub const CODE_RESET_MTURN: u8 = 17;

pub const CODE_SET_ORIGIN: u8 = 23;

pub const CODE_SET_STOP_MODE: u8 = 24;

pub const CODE_SYNC_COMMAND: u8 = 25;

/// The two header bytes of a request frame.
pub open spec fn req_header() -> Seq<u8> {
    seq![0x12u8, 0x4cu8]
}

/// The two header bytes of a reply frame.
pub open spec fn resp_header() -> Seq<u8> {
    seq![0x05u8, 0x1cu8]
}

/// One decoded frame: its command code and its parameter bytes.
#[derive(Debug, Clone)]
pub struct Packet {
    pub code: u8,
    pub params: Vec<u8>,
}

impl View for Packet {
    type V = (u8, Seq<u8>);

    open spec fn view(&self) -> (u8, Seq<u8>) {
        (self.code, self.params@)
    }
}

/// Sum of a byte sequence.
pub open spec fn byte_sum(s: Seq<u8>) -> nat
    decreases s.len(),
{
    if s.len() == 0 {
        0
    } else {
        byte_sum(s.drop_last()) + s.last() as nat
    }
}

/// The checksum byte of a frame: the low byte of the sum of the two header
/// bytes, the code, the parameter count and every parameter byte.
pub open spec fn spec_checksum(header: Seq<u8>, code: u8, params: Seq<u8>) -> u8 {
    ((header[0] + header[1] + code + params.len() + byte_sum(params)) % 256) as u8
}

/// The frame that carries `code` and `params` after `header`.
pub open spec fn frame(header: Seq<u8>, code: u8, params: Seq<u8>) -> Seq<u8> {
    header + seq![code, params.len() as u8] + params + seq![spec_checksum(header, code, params)]
}

/// The request frame for `code` and `params`.
pub open spec fn request(code: u8, params: Seq<u8>) -> Seq<u8> {
    frame(req_header(), code, params)
}

/// `r` is the request frame for `code` and `params`.
pub open spec fn is_request(r: ServoResult<Vec<u8>>, code: u8, params: Seq<u8>) -> bool {
    r matches Ok(out) && out@ == request(code, params)
}

/// Checksum of a frame with the given header, code and parameters.
pub fn checksum(header: [u8; 2], code: u8, params: &[u8]) -> (c: u8)
    ensures
        c == spec_checksum(header@, code, params@),
{
    let ghost base: int = header@[0] + header@[1] + code + params@.len();
    let len_low: u32 = (params.len() % 256) as u32;
    let mut sum: u32 = (header[0] as u32 + header[1] as u32 + code as u32 + len_low) % 256;
    proof {
        assert(params@.take(0) =~= Seq::<u8>::empty());
        lemma_mod_sum_step(header@[0] + header@[1] + code, params@.len() as int);
    }
    let mut i: usize = 0;
    while i < params.len()
        invariant
            i <= params.len(),
            base == header@[0] + header@[1] + code + params@.len(),
            sum == (base + byte_sum(params@.take(i as int))) % 256,
        decreases params.len() - i,
    {
        proof {
            assert(params@.take(i + 1).drop_last() =~= params@.take(i as int));
            lemma_mod_sum_step(base + byte_sum(params@.take(i as int)), params@[i as int] as int);
        }
        sum = (sum + params[i] as u32) % 256;
        i = i + 1;
    }
    assert(params@.take(params.len() as int) =~= params@);
    sum as u8
}

/// Reducing a running sum modulo 256 before adding to it does not change
/// the final low byte.
proof fn lemma_mod_sum_step(x: int, y: int)
    requires
        x >= 0,
        y >= 0,
    ensures
        ((x % 256) + y) % 256 == (x + y) % 256,
        (x + (y % 256)) % 256 == (x + y) % 256,
{
    vstd::arithmetic::div_mod::lemma_add_mod_noop(x, y, 256);
    vstd::arithmetic::div_mod::lemma_mod_twice(y, 256);
    vstd::arithmetic::div_mod::lemma_mod_twice(x, 256);
    vstd::arithmetic::div_mod::lemma_add_mod_noop(x % 256, y, 256);
    vstd::arithmetic::div_mod::lemma_add_mod_noop(x, y % 256, 256);
}

/// Frames `code` and `params` as a request; fails when there are more than
/// 255 parameter bytes.
pub fn pack_request(code: u8, params: &[u8]) -> (r: ServoResult<Vec<u8>>)
    ensures
        params.len() <= 255 ==> is_request(r, code, params@),
        params.len() > 255 ==> (r matches Err(e) && is_protocol_error(e, "packet params too large"@)),
{
    if params.len() > 255 {
        return Err(protocol_error("packet params too large"));
    }
    let mut out: Vec<u8> = Vec::with_capacity(5 + params.len());
    out.push(REQ_HEADER[0]);
    out.push(REQ_HEADER[1]);
    out.push(code);
    out.push(params.len() as u8);
    out.extend_from_slice(params);
    let c = checksum(REQ_HEADER, code, params);
    out.push(c);
    assert(REQ_HEADER@ =~= req_header());
    assert(out@ =~= request(code, params@));
    Ok(out)
}

/// Ping request for servo `id`.
pub fn encode_ping(id: u8) -> (r: ServoResult<Vec<u8>>)
    ensures
        is_request(r, CODE_PING, seq![id]),
{
    let p: [u8; 1] = [id];
    assert(p@ =~= seq![id]);
    pack_request(CODE_PING, &p)
}

/// The code of an angle query: multi-turn or single-turn.
pub open spec fn query_angle_code(multi_turn: bool) -> u8 {
    if multi_turn {
        CODE_QUERY_SERVO_ANGLE_MTURN
    } else {
        CODE_QUERY_SERVO_ANGLE
    }
}

/// Angle query for servo `id`.
pub fn encode_query_angle(id: u8, multi_turn: bool) -> (r: ServoResult<Vec<u8>>)
    ensures
        is_request(r, query_angle_code(multi_turn), seq![id]),
{
    let code = if multi_turn {
        CODE_QUERY_SERVO_ANGLE_MTURN
    } else {
        CODE_QUERY_SERVO_ANGLE
    };
    let p: [u8; 1] = [id];
    assert(p@ =~= seq![id]);
    pack_request(code, &p)
}

/// Monitor query (voltage, current, power, temperature, status, angle) for servo `id`.
pub fn encode_query_monitor(id: u8) -> (r: ServoResult<Vec<u8>>)
    ensures
        is_request(r, CODE_QUERY_SERVO_MONITOR, seq![id]),
{
    let p: [u8; 1] = [id];
    assert(p@ =~= seq![id]);
    pack_request(CODE_QUERY_SERVO_MONITOR, &p)
}

/// An angle in tenths of a degree limited to the single-turn range of
/// -180.0 to 180.0 degrees.
pub open spec fn clamp_single_turn(angle: i32) -> i16 {
    if angle < -1800 {
        -1800i16
    } else if angle > 1800 {
        1800i16
    } else {
        angle as i16
    }
}

/// The code and parameters of a move command, or the message of the error
/// that rejects it. An interval of `Some(0)` counts as no interval.
pub open spec fn set_angle_command(id: u8, angle: i32, multi_turn: bool, interval_ms: Option<u32>)
    -> Result<(u8, Seq<u8>), Seq<char>>
{
    let interval: Option<u32> = match interval_ms {
        Some(v) => if v != 0 { Some(v) } else { None },
        None => None,
    };
    match interval {
        Some(v) => if multi_turn {
            if v > 4_096_000 {
                Err("multi-turn interval_ms must be <= 4096000"@)
            } else {
                Ok((CODE_SET_SERVO_ANGLE_MTURN_BY_INTERVAL,
                    seq![id] + le_i32(angle) + le_u32(v) + le_u16(20) + le_u16(20) + le_u16(0)))
            }
        } else {
            if v > 65535 {
                Err("single-turn interval_ms must be <= 65535"@)
            } else {
                Ok((CODE_SET_SERVO_ANGLE_BY_INTERVAL,
                    seq![id] + le_i16(clamp_single_turn(angle)) + le_u16(v as u16) + le_u16(20)
                        + le_u16(20) + le_u16(0)))
            }
        },
        None => if multi_turn {
            Ok((CODE_SET_SERVO_ANGLE_MTURN, seq![id] + le_i32(angle) + le_u32(0) + le_u16(0)))
        } else {
            Ok((CODE_SET_SERVO_ANGLE, seq![id] + le_i16(clamp_single_turn(angle)) + le_u16(0)
                + le_u16(0)))
        },
    }
}

/// Law: an interval of 0 is no interval: the move command with `Some(0)` is
/// the one without an interval, the plain (multi-turn or single-turn) move,
/// which never fails; a non-zero interval that fits gives the timed move.
pub proof fn lemma_zero_interval_is_none(id: u8, angle: i32, multi_turn: bool, v: u32)
    ensures
        set_angle_command(id, angle, multi_turn, Some(0)) == set_angle_command(
            id,
            angle,
            multi_turn,
            None,
        ),
        set_angle_command(id, angle, multi_turn, None) is Ok,
        set_angle_command(id, angle, multi_turn, None)->Ok_0.0 == (if multi_turn {
            CODE_SET_SERVO_ANGLE_MTURN
        } else {
            CODE_SET_SERVO_ANGLE
        }),
        v != 0 && (if multi_turn { v <= 4_096_000 } else { v <= 65535 }) ==> set_angle_command(
            id,
            angle,
            multi_turn,
            Some(v),
        ) is Ok && set_angle_command(id, angle, multi_turn, Some(v))->Ok_0.0 == (if multi_turn {
            CODE_SET_SERVO_ANGLE_MTURN_BY_INTERVAL
        } else {
            CODE_SET_SERVO_ANGLE_BY_INTERVAL
        }),
{
}

/// Move command for servo `id` to `angle` (tenths of a degree). A single-turn
/// target is limited to -1800..=1800; an interval of `Some(0)` means none.
/// Fails when an interval does not fit the command's field.
pub fn encode_set_angle(id: u8, angle: i32, multi_turn: bool, interval_ms: Option<u32>) -> (r:
    ServoResult<Vec<u8>>)
    ensures
        match set_angle_command(id, angle, multi_turn, interval_ms) {
            Ok((code, params)) => is_request(r, code, params),
            Err(msg) => r matches Err(e) && is_protocol_error(e, msg),
        },
{
    let interval: Option<u32> = match interval_ms {
        Some(v) => if v != 0 { Some(v) } else { None },
        None => None,
    };
    let clamped: i16 = if angle < -1800 {
        -1800
    } else if angle > 1800 {
        1800
    } else {
        angle as i16
    };
    let mut p: Vec<u8> = Vec::new();
    p.push(id);
    match interval {
        Some(v) => {
            if multi_turn {
                if v > 4_096_000 {
                    return Err(protocol_error("multi-turn interval_ms must be <= 4096000"));
                }
                push_le_i32(&mut p, angle);
                push_le_u32(&mut p, v);
                push_le_u16(&mut p, 20);
                push_le_u16(&mut p, 20);
                push_le_u16(&mut p, 0);
                assert(p@ =~= seq![id] + le_i32(angle) + le_u32(v) + le_u16(20) + le_u16(20)
                    + le_u16(0));
                pack_request(CODE_SET_SERVO_ANGLE_MTURN_BY_INTERVAL, p.as_slice())
            } else {
                if v > 65535 {
                    return Err(protocol_error("single-turn interval_ms must be <= 65535"));
                }
                push_le_i16(&mut p, clamped);
                push_le_u16(&mut p, v as u16);
                push_le_u16(&mut p, 20);
                push_le_u16(&mut p, 20);
                push_le_u16(&mut p, 0);
                assert(p@ =~= seq![id] + le_i16(clamped) + le_u16(v as u16) + le_u16(20)
                    + le_u16(20) + le_u16(0));
                pack_request(CODE_SET_SERVO_ANGLE_BY_INTERVAL, p.as_slice())
            }
        },
        None => {
            if multi_turn {
                push_le_i32(&mut p, angle);
                push_le_u32(&mut p, 0);
                push_le_u16(&mut p, 0);
                assert(p@ =~= seq![id] + le_i32(angle) + le_u32(0) + le_u16(0));
                pack_request(CODE_SET_SERVO_ANGLE_MTURN, p.as_slice())
            } else {
                push_le_i16(&mut p, clamped);
                push_le_u16(&mut p, 0);
                push_le_u16(&mut p, 0);
                assert(p@ =~= seq![id] + le_i16(clamped) + le_u16(0) + le_u16(0));
                pack_request(CODE_SET_SERVO_ANGLE, p.as_slice())
            }
        },
    }
}

/// A single-turn move interval that fits its 16-bit field, or `None`.
pub fn checked_interval(interval_ms: u32) -> (r: Option<u32>)
    ensures
        interval_ms <= 65535 ==> r == Some(interval_ms),
        interval_ms > 65535 ==> r is None,
{
    if interval_ms > 65535 {
        None
    } else {
        Some(interval_ms)
    }
}

/// The parameters of a sync-monitor command: sub-command 22, one byte of
/// payload per servo, the servo count (its low byte), then the ids.
pub open spec fn sync_monitor_params(ids: Seq<u8>) -> Seq<u8> {
    seq![CODE_QUERY_SERVO_MONITOR, 1u8, ids.len() as u8] + ids
}

/// Sync-monitor request: one frame (code 25, sub-command 22) that asks every
/// servo in `ids` for its monitor reply. Fails on an empty list, and when the
/// frame would need more than 255 parameter bytes (more than 252 ids).
pub fn encode_sync_monitor(ids: &[u8]) -> (r: ServoResult<Vec<u8>>)
    ensures
        ids.len() == 0 ==> (r matches Err(e) && is_protocol_error(
            e,
            "sync_monitor: ids list must not be empty"@,
        )),
        0 < ids.len() <= 252 ==> is_request(r, CODE_SYNC_COMMAND, sync_monitor_params(ids@)),
        ids.len() > 252 ==> (r matches Err(e) && is_protocol_error(e, "packet params too large"@)),
{
    if ids.len() == 0 {
        return Err(protocol_error("sync_monitor: ids list must not be empty"));
    }
    let mut params: Vec<u8> = Vec::new();
    params.push(CODE_QUERY_SERVO_MONITOR);
    params.push(1u8);
    params.push((ids.len() % 256) as u8);
    params.extend_from_slice(ids);
    assert(ids.len() <= 252 ==> params@ =~= sync_monitor_params(ids@));
    pack_request(CODE_SYNC_COMMAND, params.as_slice())
}

/// Request that resets the multi-turn count of servo `id`.
pub fn encode_reset_multi_turn(id: u8) -> (r: ServoResult<Vec<u8>>)
    ensures
        is_request(r, CODE_RESET_MTURN, seq![id]),
{
    let p: [u8; 1] = [id];
    assert(p@ =~= seq![id]);
    pack_request(CODE_RESET_MTURN, &p)
}

/// Request that makes the current position of servo `id` its origin; the
/// command carries the id and a zero byte.
pub fn encode_set_origin_point(id: u8) -> (r: ServoResult<Vec<u8>>)
    ensures
        is_request(r, CODE_SET_ORIGIN, seq![id, 0u8]),
{
    let p: [u8; 2] = [id, 0];
    assert(p@ =~= seq![id, 0u8]);
    pack_request(CODE_SET_ORIGIN, &p)
}

/// Request that sets what servo `id` does when stopped (`mode`) and the
/// holding power.
pub fn encode_set_stop_mode(id: u8, mode: u8, power: u16) -> (r: ServoResult<Vec<u8>>)
    ensures
        is_request(r, CODE_SET_STOP_MODE, seq![id, mode] + le_u16(power)),
{
    let mut p: Vec<u8> = Vec::new();
    p.push(id);
    p.push(mode);
    push_le_u16(&mut p, power);
    assert(p@ =~= seq![id, mode] + le_u16(power));
    pack_request(CODE_SET_STOP_MODE, p.as_slice())
}

/// One servo's monitor reply. Angles are in tenths of a degree.
#[derive(Debug, Clone, Copy, PartialEq, Eq, Structural)]
pub struct ServoMonitor {
    pub id: u8,
    pub voltage_mv: u16,
    pub current_ma: u16,
    pub power_mw: u16,
    pub temp_raw: u16,
    pub status: u8,
    /// Raw protocol angle before reliability filtering.
    pub raw_decideg: i32,
    /// Reliability-filtered angle for application logic.
    pub filtered_decideg: i32,
    /// Same value as `filtered_decideg`, kept for callers of the older field.
    pub angle_decideg: i32,
    pub turn: i16,
    /// `true` for a fresh reading from the servo; `false` when held from the last known value.
    pub reliable: bool,
}

/// The condition bits of a monitor reading's status byte.
#[derive(Debug, Clone, Copy, PartialEq, Eq, Structural)]
pub struct StatusFlags {
    pub busy: bool,
    pub exec_error: bool,
    pub stall: bool,
    pub voltage_high: bool,
    pub voltage_low: bool,
    pub current_error: bool,
    pub power_error: bool,
    pub temp_error: bool,
}

/// Bit `mask` of `status` is set.
pub open spec fn bit_set(status: u8, mask: u8) -> bool {
    status & mask != 0
}

impl ServoMonitor {
    /// The condition bits of the status byte, from bit 0 (busy) to bit 7
    /// (temperature error).
    pub fn status_flags(&self) -> (f: StatusFlags)
        ensures
            f.busy == bit_set(self.status, 0x01),
            f.exec_error == bit_set(self.status, 0x02),
            f.stall == bit_set(self.status, 0x04),
            f.voltage_high == bit_set(self.status, 0x08),
            f.voltage_low == bit_set(self.status, 0x10),
            f.current_error == bit_set(self.status, 0x20),
            f.power_error == bit_set(self.status, 0x40),
            f.temp_error == bit_set(self.status, 0x80),
    {
        let s = self.status;
        StatusFlags {
            busy: s & 0x01 != 0,
            exec_error: s & 0x02 != 0,
            stall: s & 0x04 != 0,
            voltage_high: s & 0x08 != 0,
            voltage_low: s & 0x10 != 0,
            current_error: s & 0x20 != 0,
            power_error: s & 0x40 != 0,
            temp_error: s & 0x80 != 0,
        }
    }
}

/// The servo id a ping reply carries, if `p` is a ping reply.
pub open spec fn ping_reply(p: (u8, Seq<u8>)) -> Option<u8> {
    if p.0 == CODE_PING && p.1.len() == 1 {
        Some(p.1[0])
    } else {
        None
    }
}

/// Decodes a ping reply: the replying servo's id.
pub fn decode_ping(packet: &Packet) -> (r: Option<u8>)
    ensures
        r == ping_reply(packet@),
{
    if packet.code == CODE_PING && packet.params.len() == 1 {
        Some(packet.params[0])
    } else {
        None
    }
}

/// The servo id and angle (tenths of a degree) an angle reply carries, if
/// `p` is one: multi-turn replies carry a 32-bit angle after the id,
/// single-turn replies a 16-bit one.
pub open spec fn angle_reply(p: (u8, Seq<u8>), multi_turn: bool) -> Option<(u8, i32)> {
    let b = p.1;
    if multi_turn {
        if p.0 != CODE_QUERY_SERVO_ANGLE_MTURN || b.len() < 7 {
            None
        } else {
            Some((b[0], i32_from_le(b[1], b[2], b[3], b[4])))
        }
    } else {
        if p.0 != CODE_QUERY_SERVO_ANGLE || b.len() < 3 {
            None
        } else {
            Some((b[0], i16_from_le(b[1], b[2]) as i32))
        }
    }
}

/// Message of the error for a reply that is not an angle reply.
pub open spec fn angle_reply_error(multi_turn: bool) -> Seq<char> {
    if multi_turn {
        "unexpected multi-turn angle response"@
    } else {
        "unexpected angle response"@
    }
}

/// Decodes an angle reply into the servo id and its angle in tenths of a degree.
pub fn decode_angle(packet: &Packet, multi_turn: bool) -> (r: ServoResult<(u8, i32)>)
    ensures
        match angle_reply(packet@, multi_turn) {
            Some(v) => r == Ok::<(u8, i32), SmartServoError>(v),
            None => r matches Err(e) && is_protocol_error(e, angle_reply_error(multi_turn)),
        },
{
    let b = &packet.params;
    if multi_turn {
        if packet.code != CODE_QUERY_SERVO_ANGLE_MTURN || b.len() < 7 {
            return Err(protocol_error("unexpected multi-turn angle response"));
        }
        Ok((b[0], read_le_i32(b[1], b[2], b[3], b[4])))
    } else {
        if packet.code != CODE_QUERY_SERVO_ANGLE || b.len() < 3 {
            return Err(protocol_error("unexpected angle response"));
        }
        Ok((b[0], read_le_i16(b[1], b[2]) as i32))
    }
}

/// The monitor reading a monitor reply carries, if `p` is one (at least 14
/// parameter bytes; the turn count is read when there are at least 16). The
/// filtered angle starts out equal to the raw one and the reading as reliable.
pub open spec fn monitor_reply(p: (u8, Seq<u8>)) -> Option<ServoMonitor> {
    let b = p.1;
    if p.0 != CODE_QUERY_SERVO_MONITOR || b.len() < 14 {
        None
    } else {
        let raw = i32_from_le(b[10], b[11], b[12], b[13]);
        Some(
            ServoMonitor {
                id: b[0],
                voltage_mv: u16_from_le(b[1], b[2]),
                current_ma: u16_from_le(b[3], b[4]),
                power_mw: u16_from_le(b[5], b[6]),
                temp_raw: u16_from_le(b[7], b[8]),
                status: b[9],
                raw_decideg: raw,
                filtered_decideg: raw,
                angle_decideg: raw,
                turn: if b.len() >= 16 {
                    i16_from_le(b[14], b[15])
                } else {
                    0
                },
                reliable: true,
            },
        )
    }
}

/// Decodes a monitor reply.
pub fn decode_monitor(packet: &Packet) -> (r: ServoResult<ServoMonitor>)
    ensures
        match monitor_reply(packet@) {
            Some(m) => r == Ok::<ServoMonitor, SmartServoError>(m),
            None => r matches Err(e) && is_protocol_error(e, "unexpected monitor response"@),
        },
{
    let p = &packet.params;
    if packet.code != CODE_QUERY_SERVO_MONITOR || p.len() < 14 {
        return Err(protocol_error("unexpected monitor response"));
    }
    let raw = read_le_i32(p[10], p[11], p[12], p[13]);
    let turn: i16 = if p.len() >= 16 {
        read_le_i16(p[14], p[15])
    } else {
        0
    };
    Ok(
        ServoMonitor {
            id: p[0],
            voltage_mv: read_le_u16(p[1], p[2]),
            current_ma: read_le_u16(p[3], p[4]),
            power_mw: read_le_u16(p[5], p[6]),
            temp_raw: read_le_u16(p[7], p[8]),
            status: p[9],
            raw_decideg: raw,
            filtered_decideg: raw,
            angle_decideg: raw,
            turn,
            reliable: true,
        },
    )
}

/// The packets and checksum errors of a reply stream.
#[derive(Debug)]
pub struct ParseReport {
    pub packets: Vec<Packet>,
    pub errors: Vec<SmartServoError>,
}

impl ParseReport {
    /// The decoded frames, each as its code and parameter bytes.
    pub open spec fn packets_view(&self) -> Seq<(u8, Seq<u8>)> {
        self.packets@.map_values(|p: Packet| p@)
    }
}

impl Default for ParseReport {
    fn default() -> (r: Self)
        ensures
            r.packets@.len() == 0,
            r.errors@.len() == 0,
    {
        ParseReport { packets: Vec::new(), errors: Vec::new() }
    }
}

/// What scanning `data` from position `i` yields: the reply frames with a
/// correct checksum, and one checksum error for each frame whose checksum byte
/// is wrong. Bytes that do not start a reply header are skipped; a frame
/// whose declared size runs past the end of the data ends the scan.
pub open spec fn parse_from(data: Seq<u8>, i: nat) -> (Seq<(u8, Seq<u8>)>, Seq<SmartServoError>)
    decreases data.len() - i,
{
    let j = i as int;
    if j + 5 > data.len() {
        (seq![], seq![])
    } else if data[j] == 0x05u8 && data[j + 1] == 0x1cu8 {
        let code = data[j + 2];
        let size = data[j + 3] as int;
        let end = j + 5 + size;
        if end > data.len() {
            (seq![], seq![])
        } else {
            let params = data.subrange(j + 4, j + 4 + size);
            let got = data[end - 1];
            let expected = spec_checksum(resp_header(), code, params);
            let rest = parse_from(data, end as nat);
            if got == expected {
                (seq![(code, params)] + rest.0, rest.1)
            } else {
                (rest.0, seq![SmartServoError::ChecksumMismatch { code, expected, got }] + rest.1)
            }
        }
    } else {
        parse_from(data, i + 1)
    }
}

/// The packets and checksum errors of a whole reply stream.
pub open spec fn parse_stream(data: Seq<u8>) -> (Seq<(u8, Seq<u8>)>, Seq<SmartServoError>) {
    parse_from(data, 0)
}

/// Splits a stream of reply bytes into frames, keeping those whose checksum
/// is correct and reporting a checksum error for each of the others.
pub fn parse_response_stream(data: &[u8]) -> (report: ParseReport)
    ensures
        report.packets_view() == parse_stream(data@).0,
        report.errors@ == parse_stream(data@).1,
{
    let mut packets: Vec<Packet> = Vec::new();
    let mut errors: Vec<SmartServoError> = Vec::new();
    let mut i: usize = 0;
    let n = data.len();
    assert(packets@.map_values(|p: Packet| p@) =~= Seq::<(u8, Seq<u8>)>::empty());
    assert(errors@ =~= Seq::<SmartServoError>::empty());
    while n >= 5 && i <= n - 5
        invariant
            n == data@.len(),
            i <= n,
            parse_stream(data@).0 == packets@.map_values(|p: Packet| p@) + parse_from(
                data@,
                i as nat,
            ).0,
            parse_stream(data@).1 == errors@ + parse_from(data@, i as nat).1,
        decreases n - i,
    {
        if data[i] == RESP_HEADER[0] && data[i + 1] == RESP_HEADER[1] {
            let code = data[i + 2];
            let size = data[i + 3] as usize;
            if size + 5 > n - i {
                assert(parse_from(data@, i as nat).0 =~= Seq::<(u8, Seq<u8>)>::empty());
                assert(parse_from(data@, n as nat).0 =~= Seq::<(u8, Seq<u8>)>::empty());
                i = n;
            } else {
                let end = i + 5 + size;
                let params = vstd::slice::slice_to_vec(
                    vstd::slice::slice_subrange(data, i + 4, i + 4 + size),
                );
                let got = data[end - 1];
                let expected = checksum(RESP_HEADER, code, params.as_slice());
                assert(RESP_HEADER@ =~= resp_header());
                let ghost old_packets = packets@;
                let ghost old_errors = errors@;
                if got == expected {
                    let pkt = Packet { code, params };
                    packets.push(pkt);
                    assert(packets@.map_values(|p: Packet| p@) =~= old_packets.map_values(
                        |p: Packet| p@,
                    ).push((code, data@.subrange(i + 4, i + 4 + size))));
                } else {
                    errors.push(SmartServoError::ChecksumMismatch { code, expected, got });
                }
                i = end;
            }
        } else {
            i = i + 1;
        }
    }
    assert(parse_from(data@, i as nat).0 =~= Seq::<(u8, Seq<u8>)>::empty());
    ParseReport { packets, errors }
}

/// Scanning from a position past a prefix depends only on what follows the prefix.
pub proof fn lemma_parse_from_shift(prefix: Seq<u8>, rest: Seq<u8>, j: nat)
    ensures
        parse_from(prefix + rest, prefix.len() + j) == parse_from(rest, j),
    decreases rest.len() - j,
{
    let data = prefix + rest;
    let k: int = prefix.len() + j as int;
    let jj: int = j as int;
    if jj + 5 > rest.len() {
    } else {
        assert(data[k] == rest[jj]);
        assert(data[k + 1] == rest[jj + 1]);
        assert(data[k + 2] == rest[jj + 2]);
        assert(data[k + 3] == rest[jj + 3]);
        if rest[jj] == 0x05u8 && rest[jj + 1] == 0x1cu8 {
            let size = rest[jj + 3] as int;
            let end = jj + 5 + size;
            if end <= rest.len() {
                assert(data.subrange(k + 4, k + 4 + size) =~= rest.subrange(jj + 4, jj + 4 + size));
                assert(data[k + 5 + size - 1] == rest[end - 1]);
                lemma_parse_from_shift(prefix, rest, end as nat);
                assert(prefix.len() + (end as nat) == (k + 5 + size) as nat);
            }
        } else {
            lemma_parse_from_shift(prefix, rest, j + 1);
        }
    }
}

/// Law: a well-formed reply frame at the front of a stream is reported as its
/// packet, followed by whatever the rest of the stream yields.
pub proof fn lemma_parse_frame_then_rest(code: u8, params: Seq<u8>, rest: Seq<u8>)
    requires
        params.len() <= 255,
    ensures
        parse_stream(frame(resp_header(), code, params) + rest) == (
            seq![(code, params)] + parse_stream(rest).0,
            parse_stream(rest).1,
        ),
{
    let f = frame(resp_header(), code, params);
    let data = f + rest;
    let size = params.len() as int;
    assert(f.len() == 5 + size);
    assert(data[0] == 0x05u8);
    assert(data[1] == 0x1cu8);
    assert(data[2] == code);
    assert(data[3] == params.len() as u8);
    assert(data.subrange(4, 4 + size) =~= params);
    assert(data[5 + size - 1] == spec_checksum(resp_header(), code, params));
    lemma_parse_from_shift(f, rest, 0);
    assert(f + rest == data);
}

/// Law: a frame whose checksum byte is wrong is reported as a checksum error
/// (carrying the code, the expected and the received checksum), and the
/// frames after it are still read.
pub proof fn lemma_parse_bad_checksum_then_rest(code: u8, params: Seq<u8>, got: u8, rest: Seq<u8>)
    requires
        params.len() <= 255,
        got != spec_checksum(resp_header(), code, params),
    ensures
        parse_stream(resp_header() + seq![code, params.len() as u8] + params + seq![got] + rest) == (
            parse_stream(rest).0,
            seq![
                SmartServoError::ChecksumMismatch {
                    code,
                    expected: spec_checksum(resp_header(), code, params),
                    got,
                },
            ] + parse_stream(rest).1,
        ),
{
    let f = resp_header() + seq![code, params.len() as u8] + params + seq![got];
    let data = f + rest;
    let size = params.len() as int;
    assert(f.len() == 5 + size);
    assert(data[0] == 0x05u8);
    assert(data[1] == 0x1cu8);
    assert(data[2] == code);
    assert(data[3] == params.len() as u8);
    assert(data.subrange(4, 4 + size) =~= params);
    assert(data[5 + size - 1] == got);
    lemma_parse_from_shift(f, rest, 0);
    assert(resp_header() + seq![code, params.len() as u8] + params + seq![got] + rest == data);
}

/// Law: a byte that cannot start a reply header is skipped.
pub proof fn lemma_parse_skips_non_header_byte(b: u8, rest: Seq<u8>)
    requires
        b != 0x05u8,
    ensures
        parse_stream(seq![b] + rest) == parse_stream(rest),
{
    lemma_parse_from_shift(seq![b], rest, 0);
}

/// The bytes of a sequence of reply frames sent back to back.
pub open spec fn reply_frames(packets: Seq<(u8, Seq<u8>)>) -> Seq<u8>
    decreases packets.len(),
{
    if packets.len() == 0 {
        seq![]
    } else {
        frame(resp_header(), packets[0].0, packets[0].1) + reply_frames(packets.drop_first())
    }
}

/// Law: reply frames sent back to back are read back as exactly their
/// packets, in order, with no error.
pub proof fn lemma_parse_reply_frames(packets: Seq<(u8, Seq<u8>)>)
    requires
        forall|k: int| 0 <= k < packets.len() ==> #[trigger] packets[k].1.len() <= 255,
    ensures
        parse_stream(reply_frames(packets)) == (packets, Seq::<SmartServoError>::empty()),
    decreases packets.len(),
{
    if packets.len() == 0 {
        assert(parse_stream(reply_frames(packets)).0 =~= packets);
        assert(parse_stream(reply_frames(packets)).1 =~= Seq::<SmartServoError>::empty());
    } else {
        let rest = packets.drop_first();
        assert(forall|k: int| 0 <= k < rest.len() ==> #[trigger] rest[k].1.len() <= 255) by {
            assert forall|k: int| 0 <= k < rest.len() implies #[trigger] rest[k].1.len() <= 255 by {
                assert(rest[k] == packets[k + 1]);
            }
        }
        lemma_parse_reply_frames(rest);
        assert(packets[0].1.len() <= 255);
        lemma_parse_frame_then_rest(packets[0].0, packets[0].1, reply_frames(rest));
        assert(seq![(packets[0].0, packets[0].1)] + rest =~= packets);
    }
}

/// `p` is sent as a well-formed reply frame starting at position `s` of `data`.
pub open spec fn frame_at(data: Seq<u8>, s: int, p: (u8, Seq<u8>)) -> bool {
    &&& 0 <= s
    &&& s + 5 + p.1.len() <= data.len()
    &&& data.subrange(s, s + 5 + p.1.len()) == frame(resp_header(), p.0, p.1)
}

/// `p` stands somewhere in `data` as a well-formed reply frame.
pub open spec fn framed_in(data: Seq<u8>, p: (u8, Seq<u8>)) -> bool {
    exists|s: int| frame_at(data, s, p)
}

/// Every packet of `packets` stands somewhere in `data` as a well-formed reply frame.
pub open spec fn all_framed(data: Seq<u8>, packets: Seq<(u8, Seq<u8>)>) -> bool {
    forall|k: int| 0 <= k < packets.len() ==> #[trigger] framed_in(data, packets[k])
}

proof fn lemma_all_framed_cons(data: Seq<u8>, s0: int, p: (u8, Seq<u8>), rest: Seq<(u8, Seq<u8>)>)
    requires
        frame_at(data, s0, p),
        all_framed(data, rest),
    ensures
        all_framed(data, seq![p] + rest),
{
    let out = seq![p] + rest;
    assert forall|k: int| 0 <= k < out.len() implies #[trigger] framed_in(data, out[k]) by {
        if k == 0 {
            assert(out[k] == p);
        } else {
            assert(out[k] == rest[k - 1]);
            assert(framed_in(data, rest[k - 1]));
        }
    }
}

/// Law: every packet the scan reports stands in the data as a complete reply
/// frame whose checksum byte is correct.
pub proof fn lemma_parsed_packets_are_frames(data: Seq<u8>, i: nat)
    ensures
        all_framed(data, parse_from(data, i).0),
    decreases data.len() - i,
{
    let j = i as int;
    if j + 5 > data.len() {
    } else if data[j] == 0x05u8 && data[j + 1] == 0x1cu8 {
        let code = data[j + 2];
        let size = data[j + 3] as int;
        let end = j + 5 + size;
        if end <= data.len() {
            lemma_parsed_packets_are_frames(data, end as nat);
            let params = data.subrange(j + 4, j + 4 + size);
            let rest = parse_from(data, end as nat).0;
            if data[end - 1] == spec_checksum(resp_header(), code, params) {
                assert(frame_at(data, j, (code, params))) by {
                    assert(data.subrange(j, end) =~= frame(resp_header(), code, params));
                }
                lemma_all_framed_cons(data, j, (code, params), rest);
                assert(parse_from(data, i).0 == seq![(code, params)] + rest);
            } else {
                assert(parse_from(data, i).0 == rest);
            }
        }
    } else {
        lemma_parsed_packets_are_frames(data, i + 1);
        assert(parse_from(data, i).0 == parse_from(data, i + 1).0);
    }
}

/// Law: an angle reply whose parameters are the servo id followed by the
/// little-endian angle decodes to that id and angle (multi-turn: 32 bits,
/// followed by at least two more bytes; single-turn: 16 bits).
pub proof fn lemma_angle_reply_roundtrip(id: u8, multi_angle: i32, single_angle: i16, tail: Seq<u8>)
    requires
        tail.len() >= 2,
    ensures
        angle_reply((CODE_QUERY_SERVO_ANGLE_MTURN, seq![id] + le_i32(multi_angle) + tail), true)
            == Some((id, multi_angle)),
        angle_reply((CODE_QUERY_SERVO_ANGLE, seq![id] + le_i16(single_angle)), false) == Some(
            (id, single_angle as i32),
        ),
{
    lemma_i32_roundtrip(multi_angle);
    lemma_i16_roundtrip(single_angle);
    let b = seq![id] + le_i32(multi_angle) + tail;
    assert(b[1] == le_i32(multi_angle)[0] && b[2] == le_i32(multi_angle)[1] && b[3] == le_i32(
        multi_angle,
    )[2] && b[4] == le_i32(multi_angle)[3]);
    let c = seq![id] + le_i16(single_angle);
    assert(c[1] == le_i16(single_angle)[0] && c[2] == le_i16(single_angle)[1]);
}

/// The parameters of a monitor reply with the given readings.
pub open spec fn monitor_params(
    id: u8,
    voltage_mv: u16,
    current_ma: u16,
    power_mw: u16,
    temp_raw: u16,
    status: u8,
    angle: i32,
    turn: i16,
) -> Seq<u8> {
    seq![id] + le_u16(voltage_mv) + le_u16(current_ma) + le_u16(power_mw) + le_u16(temp_raw)
        + seq![status] + le_i32(angle) + le_i16(turn)
}

/// Law: a monitor reply built from readings decodes to exactly those readings,
/// with the filtered angle equal to the raw one and marked reliable.
pub proof fn lemma_monitor_reply_roundtrip(
    id: u8,
    voltage_mv: u16,
    current_ma: u16,
    power_mw: u16,
    temp_raw: u16,
    status: u8,
    angle: i32,
    turn: i16,
)
    ensures
        monitor_reply(
            (
                CODE_QUERY_SERVO_MONITOR,
                monitor_params(id, voltage_mv, current_ma, power_mw, temp_raw, status, angle, turn),
            ),
        ) == Some(
            ServoMonitor {
                id,
                voltage_mv,
                current_ma,
                power_mw,
                temp_raw,
                status,
                raw_decideg: angle,
                filtered_decideg: angle,
                angle_decideg: angle,
                turn,
                reliable: true,
            },
        ),
{
    lemma_u16_roundtrip(voltage_mv);
    lemma_u16_roundtrip(current_ma);
    lemma_u16_roundtrip(power_mw);
    lemma_u16_roundtrip(temp_raw);
    lemma_i32_roundtrip(angle);
    lemma_i16_roundtrip(turn);
    let b = monitor_params(id, voltage_mv, current_ma, power_mw, temp_raw, status, angle, turn);
    assert(b.len() == 16);
    assert(b[1] == le_u16(voltage_mv)[0] && b[2] == le_u16(voltage_mv)[1]);
    assert(b[3] == le_u16(current_ma)[0] && b[4] == le_u16(current_ma)[1]);
    assert(b[5] == le_u16(power_mw)[0] && b[6] == le_u16(power_mw)[1]);
    assert(b[7] == le_u16(temp_raw)[0] && b[8] == le_u16(temp_raw)[1]);
    assert(b[9] == status);
    assert(b[10] == le_i32(angle)[0] && b[11] == le_i32(angle)[1] && b[12] == le_i32(angle)[2]
        && b[13] == le_i32(angle)[3]);
    assert(b[14] == le_i16(turn)[0] && b[15] == le_i16(turn)[1]);
}

} // verus!
