//! Lookups in a reply stream, for drivers that run the serial I/O elsewhere
//! (such as a browser) and hand the received bytes over.
use vstd::prelude::*;

use crate::error::SmartServoError;
use crate::fashionstar::controller::{first_angle, first_monitor};
use crate::fashionstar::protocol::{
    decode_angle, decode_monitor, monitor_reply, parse_response_stream, parse_stream,
};
use crate::model::ServoId;

verus! {

/// How many of `packets` are monitor replies.
pub open spec fn count_monitor_replies(packets: Seq<(u8, Seq<u8>)>) -> nat
    decreases packets.len(),
{
    if packets.len() == 0 {
        0
    } else {
        count_monitor_replies(packets.drop_last()) + if monitor_reply(packets.last()) is Some {
            1nat
        } else {
            0nat
        }
    }
}

/// Counts the monitor replies in a reply stream; a caller waiting for the
/// answers to a sync-monitor request knows from it when all have arrived.
pub fn fashionstar_count_monitor_packets(data: &[u8]) -> (n: u32)
    ensures
        n == count_monitor_replies(parse_stream(data@).0) as u32,
{
    let report = parse_response_stream(data);
    let ghost ps = parse_stream(data@).0;
    let mut count: usize = 0;
    let mut k: usize = 0;
    assert(ps.take(0) =~= Seq::<(u8, Seq<u8>)>::empty());
    while k < report.packets.len()
        invariant
            k <= report.packets@.len(),
            ps == report.packets_view(),
            count == count_monitor_replies(ps.take(k as int)),
            count <= k,
        decreases report.packets@.len() - k,
    {
        assert(ps.take(k + 1).drop_last() =~= ps.take(k as int));
        assert(ps.take(k + 1).last() == report.packets@[k as int]@);
        if decode_monitor(&report.packets[k]).is_ok() {
            count = count + 1;
        }
        k = k + 1;
    }
    assert(ps.take(k as int) =~= ps);
    count as u32
}

/// What a monitor lookup found: whether servo `id` answered, and its raw
/// angle (tenths of a degree) and voltage (0 when not found).
#[derive(Debug, Clone, Copy, PartialEq, Eq, Structural)]
pub struct MonitorDecodeResult {
    pub found: bool,
    pub raw_decideg: i32,
    pub voltage_mv: u16,
}

/// The raw angle and voltage of the first monitor reply from servo `id` in a
/// reply stream.
pub fn fashionstar_decode_monitor_angle(data: &[u8], id: ServoId) -> (r: MonitorDecodeResult)
    ensures
        r == match first_monitor(parse_stream(data@).0, id) {
            Some(m) => MonitorDecodeResult {
                found: true,
                raw_decideg: m.raw_decideg,
                voltage_mv: m.voltage_mv,
            },
            None => MonitorDecodeResult { found: false, raw_decideg: 0, voltage_mv: 0 },
        },
{
    let report = parse_response_stream(data);
    let ghost ps = parse_stream(data@).0;
    let mut k: usize = 0;
    assert(ps.skip(0) =~= ps);
    while k < report.packets.len()
        invariant
            k <= report.packets@.len(),
            ps == report.packets_view(),
            ps == parse_stream(data@).0,
            first_monitor(ps, id) == first_monitor(ps.skip(k as int), id),
        decreases report.packets@.len() - k,
    {
        assert(ps.skip(k as int).drop_first() =~= ps.skip(k + 1));
        assert(ps.skip(k as int)[0] == report.packets@[k as int]@);
        match decode_monitor(&report.packets[k]) {
            Ok(m) => {
                if m.id == id {
                    return MonitorDecodeResult {
                        found: true,
                        raw_decideg: m.raw_decideg,
                        voltage_mv: m.voltage_mv,
                    };
                }
            },
            Err(_) => {},
        }
        k = k + 1;
    }
    assert(ps.skip(k as int) =~= Seq::<(u8, Seq<u8>)>::empty());
    MonitorDecodeResult { found: false, raw_decideg: 0, voltage_mv: 0 }
}

/// What an angle lookup found: whether servo `id` answered and its raw angle
/// (tenths of a degree, 0 when not found); when not found, the first checksum
/// error of the stream, if any.
#[derive(Debug)]
pub struct AngleDecodeResult {
    pub found: bool,
    pub raw_decideg: i32,
    pub error: Option<SmartServoError>,
}

/// The raw angle of the first angle reply from servo `id` in a reply stream.
pub fn fashionstar_decode_angle(data: &[u8], id: ServoId, multi_turn: bool) -> (r: AngleDecodeResult)
    ensures
        match first_angle(parse_stream(data@).0, id, multi_turn) {
            Some(a) => r.found && r.raw_decideg == a && r.error is None,
            None => !r.found && r.raw_decideg == 0 && r.error == (if parse_stream(data@).1.len()
                > 0 {
                Some(parse_stream(data@).1[0])
            } else {
                None::<SmartServoError>
            }),
        },
{
    let report = parse_response_stream(data);
    let ghost ps = parse_stream(data@).0;
    let mut k: usize = 0;
    assert(ps.skip(0) =~= ps);
    while k < report.packets.len()
        invariant
            k <= report.packets@.len(),
            ps == report.packets_view(),
            ps == parse_stream(data@).0,
            first_angle(ps, id, multi_turn) == first_angle(ps.skip(k as int), id, multi_turn),
        decreases report.packets@.len() - k,
    {
        assert(ps.skip(k as int).drop_first() =~= ps.skip(k + 1));
        assert(ps.skip(k as int)[0] == report.packets@[k as int]@);
        match decode_angle(&report.packets[k], multi_turn) {
            Ok((reply_id, angle)) => {
                if reply_id == id {
                    return AngleDecodeResult { found: true, raw_decideg: angle, error: None };
                }
            },
            Err(_) => {},
        }
        k = k + 1;
    }
    assert(ps.skip(k as int) =~= Seq::<(u8, Seq<u8>)>::empty());
    let mut errors = report.errors;
    let error = if errors.len() > 0 {
        Some(errors.remove(0))
    } else {
        None
    };
    AngleDecodeResult { found: false, raw_decideg: 0, error }
}

} // verus!
