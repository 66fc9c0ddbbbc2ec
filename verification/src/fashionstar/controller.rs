//! The decisions a FashionStar bus driver takes around each request: when a
//! reply is complete, what a reply stream means for the caller, and how the
//! per-servo filters, loss counts and last monitor readings change.
//!
//! The driver writes the request and reads the reply; it hands the outcome of
//! the read (the bytes, or the error that ended it) to these functions.
use std::collections::HashMap;

use vstd::prelude::*;

use crate::bus::ReplyGoal;
use crate::error::{ServoResult, SmartServoError};
use crate::fashionstar::protocol::{
    angle_reply, decode_angle, decode_monitor, decode_ping, lemma_parse_bad_checksum_then_rest,
    monitor_reply, parse_response_stream, parse_stream, ping_reply, resp_header, spec_checksum,
    Packet, ServoMonitor,
};
use crate::loss::{
    after_miss_in, after_ok_in, count_in, miss_outcome_in, LossTracker, LossView,
};
use crate::model::{AngleSample, ServoId};
use crate::reliability::{
    filter_step, near_zero, AngleReliability, AngleReliabilityConfig, AngleReliabilityState,
};

verus! {

broadcast use vstd::std_specs::hash::group_hash_axioms;

/// When a reply stream is complete.
#[derive(Debug, Clone, Copy)]
pub enum PacketGoal {
    /// At least one well-formed reply frame has arrived.
    AnyPacket,
    /// At least this many well-formed reply frames have arrived.
    AtLeast(usize),
}

impl ReplyGoal for PacketGoal {
    open spec fn reached(&self, buf: Seq<u8>) -> bool {
        match self {
            PacketGoal::AnyPacket => parse_stream(buf).0.len() > 0,
            PacketGoal::AtLeast(n) => parse_stream(buf).0.len() >= *n,
        }
    }

    fn is_reached(&self, buf: &[u8]) -> (r: bool) {
        let report = parse_response_stream(buf);
        match self {
            PacketGoal::AnyPacket => report.packets.len() > 0,
            PacketGoal::AtLeast(n) => report.packets.len() >= *n,
        }
    }
}

/// The filter a servo starts with: default tuning, nothing seen.
pub open spec fn fresh_filter() -> AngleReliability {
    AngleReliability {
        config: AngleReliabilityConfig {
            zero_eps_decideg: 2,
            zero_confirm_ms: 650,
            valid_range_decideg: 36_864_000,
        },
        state: AngleReliabilityState {
            last_good: None,
            last_raw: None,
            last_filtered: None,
            zero_candidate_since_ms: None,
        },
    }
}

/// The filter of servo `id`.
pub open spec fn filter_of(filters: Map<ServoId, AngleReliability>, id: ServoId) -> AngleReliability {
    if filters.contains_key(id) {
        filters[id]
    } else {
        fresh_filter()
    }
}

/// Filtering `raw` from servo `id` at `now_ms`: the new filters and the
/// returned `(angle, reliable)`.
pub open spec fn apply_filter(
    filters: Map<ServoId, AngleReliability>,
    id: ServoId,
    raw: i32,
    now_ms: u64,
) -> (Map<ServoId, AngleReliability>, (i32, bool)) {
    let f = filter_of(filters, id);
    let (s, out) = filter_step(f.config, f.state, raw, now_ms);
    (filters.insert(id, AngleReliability { config: f.config, state: s }), out)
}

/// What a caller gets for a missed reply of `id`: the loss error once the
/// count reaches the threshold, `Timeout` otherwise.
pub open spec fn missed<T>(loss: LossView, id: ServoId) -> ServoResult<T> {
    match miss_outcome_in(loss, id) {
        Err(e) => Err(e),
        Ok(_) => Err(SmartServoError::Timeout),
    }
}

/// The angle of the first angle reply from `id` among `packets`.
pub open spec fn first_angle(packets: Seq<(u8, Seq<u8>)>, id: ServoId, multi_turn: bool) -> Option<i32>
    decreases packets.len(),
{
    if packets.len() == 0 {
        None
    } else {
        match angle_reply(packets[0], multi_turn) {
            Some((rid, a)) => if rid == id {
                Some(a)
            } else {
                first_angle(packets.drop_first(), id, multi_turn)
            },
            None => first_angle(packets.drop_first(), id, multi_turn),
        }
    }
}

/// The first monitor reply from `id` among `packets`.
pub open spec fn first_monitor(packets: Seq<(u8, Seq<u8>)>, id: ServoId) -> Option<ServoMonitor>
    decreases packets.len(),
{
    if packets.len() == 0 {
        None
    } else {
        match monitor_reply(packets[0]) {
            Some(m) => if m.id == id {
                Some(m)
            } else {
                first_monitor(packets.drop_first(), id)
            },
            None => first_monitor(packets.drop_first(), id),
        }
    }
}

/// A reply stream that holds no packet but a checksum error fails with the
/// first such error.
pub open spec fn stream_failure(data: Seq<u8>) -> Option<SmartServoError> {
    if parse_stream(data).0.len() == 0 && parse_stream(data).1.len() > 0 {
        Some(parse_stream(data).1[0])
    } else {
        None
    }
}

/// Some packet is `id`'s ping reply.
pub open spec fn has_ping_reply(packets: Seq<(u8, Seq<u8>)>, id: ServoId) -> bool {
    exists|k: int| 0 <= k < packets.len() && #[trigger] ping_reply(packets[k]) == Some(id)
}

/// What a ping of `id` answers for the outcome of the read: `false` when
/// nothing arrived in time, the read's other errors, the first checksum error
/// of a stream without packets, else whether some packet is `id`'s ping reply.
pub open spec fn ping_outcome(id: ServoId, read: ServoResult<Vec<u8>>) -> ServoResult<bool> {
    match read {
        Err(SmartServoError::Timeout) => Ok(false),
        Err(e) => Err(e),
        Ok(data) => match stream_failure(data@) {
            Some(e) => Err(e),
            None => Ok(has_ping_reply(parse_stream(data@).0, id)),
        },
    }
}

/// Takes the first error of a list.
fn take_first_error(errors: Vec<SmartServoError>) -> (e: SmartServoError)
    requires
        errors@.len() > 0,
    ensures
        e == errors@[0],
{
    let mut errors = errors;
    errors.remove(0)
}

/// Answers a ping of `id` from the outcome of reading its reply.
pub fn ping_reply_outcome(id: ServoId, read: ServoResult<Vec<u8>>) -> (r: ServoResult<bool>)
    ensures
        r == ping_outcome(id, read),
{
    match read {
        Err(SmartServoError::Timeout) => Ok(false),
        Err(e) => Err(e),
        Ok(data) => {
            let report = parse_response_stream(data.as_slice());
            let ghost ps = parse_stream(data@).0;
            if report.packets.len() == 0 && report.errors.len() > 0 {
                return Err(take_first_error(report.errors));
            }
            let mut k: usize = 0;
            let mut found = false;
            while k < report.packets.len() && !found
                invariant
                    k <= report.packets@.len(),
                    ps == report.packets_view(),
                    ps == parse_stream(data@).0,
                    found ==> has_ping_reply(ps, id),
                    !found ==> forall|j: int| 0 <= j < k ==> #[trigger] ping_reply(ps[j]) != Some(id),
                decreases report.packets@.len() - k,
            {
                assert(ps[k as int] == report.packets@[k as int]@);
                let reply = decode_ping(&report.packets[k]);
                if reply == Some(id) {
                    assert(ping_reply(ps[k as int]) == Some(id));
                    found = true;
                }
                k = k + 1;
            }
            Ok(found)
        },
    }
}

/// The angle of the first angle reply from `id` among `packets`.
fn find_angle(packets: &Vec<Packet>, id: ServoId, multi_turn: bool) -> (r: Option<i32>)
    ensures
        r == first_angle(packets@.map_values(|p: Packet| p@), id, multi_turn),
{
    let ghost ps = packets@.map_values(|p: Packet| p@);
    let mut k: usize = 0;
    assert(ps.skip(0) =~= ps);
    while k < packets.len()
        invariant
            k <= packets@.len(),
            ps == packets@.map_values(|p: Packet| p@),
            first_angle(ps, id, multi_turn) == first_angle(ps.skip(k as int), id, multi_turn),
        decreases packets@.len() - k,
    {
        assert(ps[k as int] == packets@[k as int]@);
        assert(ps.skip(k as int).drop_first() =~= ps.skip(k + 1));
        assert(ps.skip(k as int)[0] == ps[k as int]);
        match decode_angle(&packets[k], multi_turn) {
            Ok((reply_id, angle)) => {
                if reply_id == id {
                    return Some(angle);
                }
            },
            Err(_) => {},
        }
        k = k + 1;
    }
    assert(ps.skip(k as int) =~= Seq::<(u8, Seq<u8>)>::empty());
    None
}

/// The first monitor reply from `id` among `packets`.
fn find_monitor(packets: &Vec<Packet>, id: ServoId) -> (r: Option<ServoMonitor>)
    ensures
        r == first_monitor(packets@.map_values(|p: Packet| p@), id),
{
    let ghost ps = packets@.map_values(|p: Packet| p@);
    let mut k: usize = 0;
    assert(ps.skip(0) =~= ps);
    while k < packets.len()
        invariant
            k <= packets@.len(),
            ps == packets@.map_values(|p: Packet| p@),
            first_monitor(ps, id) == first_monitor(ps.skip(k as int), id),
        decreases packets@.len() - k,
    {
        assert(ps[k as int] == packets@[k as int]@);
        assert(ps.skip(k as int).drop_first() =~= ps.skip(k + 1));
        assert(ps.skip(k as int)[0] == ps[k as int]);
        match decode_monitor(&packets[k]) {
            Ok(m) => {
                if m.id == id {
                    return Some(m);
                }
            },
            Err(_) => {},
        }
        k = k + 1;
    }
    assert(ps.skip(k as int) =~= Seq::<(u8, Seq<u8>)>::empty());
    None
}

/// A raw angle read of `id` with this outcome counts a missed reply: the
/// read timed out, or the stream holds no angle reply from `id` (and is no
/// checksum failure).
pub open spec fn raw_angle_misses(id: ServoId, multi_turn: bool, read: ServoResult<Vec<u8>>) -> bool {
    match read {
        Err(SmartServoError::Timeout) => true,
        Err(_) => false,
        Ok(data) => stream_failure(data@) is None && first_angle(
            parse_stream(data@).0,
            id,
            multi_turn,
        ) is None,
    }
}

/// A monitor query of `id` with this outcome counts a missed reply.
pub open spec fn monitor_misses(id: ServoId, read: ServoResult<Vec<u8>>) -> bool {
    match read {
        Err(SmartServoError::Timeout) => true,
        Err(_) => false,
        Ok(data) => stream_failure(data@) is None && first_monitor(parse_stream(data@).0, id) is None,
    }
}

/// Whether a raw angle read of `id` with this outcome counts a missed reply.
pub fn raw_angle_read_misses(id: ServoId, multi_turn: bool, read: &ServoResult<Vec<u8>>) -> (r: bool)
    ensures
        r == raw_angle_misses(id, multi_turn, *read),
{
    match read {
        Err(SmartServoError::Timeout) => true,
        Err(_) => false,
        Ok(data) => {
            let report = parse_response_stream(data.as_slice());
            if report.packets.len() == 0 && report.errors.len() > 0 {
                false
            } else {
                find_angle(&report.packets, id, multi_turn).is_none()
            }
        },
    }
}

/// Whether a monitor query of `id` with this outcome counts a missed reply.
pub fn monitor_read_misses(id: ServoId, read: &ServoResult<Vec<u8>>) -> (r: bool)
    ensures
        r == monitor_misses(id, *read),
{
    match read {
        Err(SmartServoError::Timeout) => true,
        Err(_) => false,
        Ok(data) => {
            let report = parse_response_stream(data.as_slice());
            if report.packets.len() == 0 && report.errors.len() > 0 {
                false
            } else {
                find_monitor(&report.packets, id).is_none()
            }
        },
    }
}

/// What a FashionStar bus driver remembers about its servos: one reliability
/// filter per servo, the consecutive-loss counts and the last monitor reading
/// of each servo.
pub struct ControllerState {
    pub filters: HashMap<ServoId, AngleReliability>,
    pub loss_tracker: LossTracker,
    pub last_monitors: HashMap<ServoId, ServoMonitor>,
}

/// The held version of a monitor reading: the same values, not reliable.
pub open spec fn stale(m: ServoMonitor) -> ServoMonitor {
    ServoMonitor { reliable: false, ..m }
}

/// `m` with its angle filtered to `out`.
pub open spec fn filtered_monitor(m: ServoMonitor, out: (i32, bool)) -> ServoMonitor {
    ServoMonitor { filtered_decideg: out.0, angle_decideg: out.0, reliable: out.1, ..m }
}

/// The abstract state of a driver: per-servo filters, the loss tracker and the
/// last monitor readings.
pub struct ControllerView {
    pub filters: Map<ServoId, AngleReliability>,
    pub loss: LossView,
    pub last: Map<ServoId, ServoMonitor>,
}

impl View for ControllerState {
    type V = ControllerView;

    open spec fn view(&self) -> ControllerView {
        ControllerView {
            filters: self.filters@,
            loss: self.loss_tracker@,
            last: self.last_monitors@,
        }
    }
}

/// The outcome of a raw angle read of servo `id` and the new state (see
/// `ControllerState::read_raw_angle`).
pub open spec fn raw_angle_step(
    v: ControllerView,
    id: ServoId,
    multi_turn: bool,
    read: ServoResult<Vec<u8>>,
) -> (ControllerView, ServoResult<i32>) {
    let miss = (ControllerView { loss: after_miss_in(v.loss, id), ..v }, missed::<i32>(v.loss, id));
    match read {
        Err(SmartServoError::Timeout) => miss,
        Err(e) => (v, Err(e)),
        Ok(data) => match stream_failure(data@) {
            Some(e) => (v, Err(e)),
            None => match first_angle(parse_stream(data@).0, id, multi_turn) {
                Some(a) => (ControllerView { loss: after_ok_in(v.loss, id), ..v }, Ok(a)),
                None => miss,
            },
        },
    }
}

/// The outcome of an angle read of servo `id` (raw and filtered) and the new
/// state: the raw read, then the servo's filter on the raw angle.
pub open spec fn angle_sample_step(
    v: ControllerView,
    id: ServoId,
    multi_turn: bool,
    read: ServoResult<Vec<u8>>,
    now_ms: u64,
) -> (ControllerView, ServoResult<AngleSample>) {
    let (v1, raw) = raw_angle_step(v, id, multi_turn, read);
    match raw {
        Err(e) => (v1, Err(e)),
        Ok(a) => {
            let (filters, out) = apply_filter(v1.filters, id, a, now_ms);
            (
                ControllerView { filters, ..v1 },
                Ok(AngleSample { raw_decideg: a, filtered_decideg: out.0, reliable: out.1 }),
            )
        },
    }
}

/// The outcome of a monitor query of servo `id` and the new state (see
/// `ControllerState::query_monitor`).
pub open spec fn monitor_step(
    v: ControllerView,
    id: ServoId,
    read: ServoResult<Vec<u8>>,
    now_ms: u64,
) -> (ControllerView, ServoResult<ServoMonitor>) {
    let miss = (
        ControllerView { loss: after_miss_in(v.loss, id), ..v },
        missed::<ServoMonitor>(v.loss, id),
    );
    match read {
        Err(SmartServoError::Timeout) => miss,
        Err(e) => (v, Err(e)),
        Ok(data) => match stream_failure(data@) {
            Some(e) => (v, Err(e)),
            None => match first_monitor(parse_stream(data@).0, id) {
                Some(m) => {
                    let (filters, out) = apply_filter(v.filters, id, m.raw_decideg, now_ms);
                    let sample = filtered_monitor(m, out);
                    (
                        ControllerView {
                            filters,
                            loss: after_ok_in(v.loss, id),
                            last: v.last.insert(id, sample),
                        },
                        Ok(sample),
                    )
                },
                None => miss,
            },
        },
    }
}

/// The sample a caller can use when a read of `id` failed: the last filtered
/// angle, marked unreliable, with the last raw reading (0 if none); `None`
/// before the filter returned anything. The servo gets a fresh filter if it
/// had none.
pub open spec fn timeout_sample_step(v: ControllerView, id: ServoId) -> (ControllerView, Option<
    AngleSample,
>) {
    let f = filter_of(v.filters, id);
    let sample = match f.state.last_filtered {
        Some(last) => Some(
            AngleSample {
                raw_decideg: match f.state.last_raw {
                    Some(r) => r,
                    None => 0,
                },
                filtered_decideg: last,
                reliable: false,
            },
        ),
        None => None,
    };
    (ControllerView { filters: v.filters.insert(id, f), ..v }, sample)
}

/// The held reading of servo `id`: its last monitor reading marked
/// unreliable, or `None` when it never answered.
pub open spec fn held_reading(last: Map<ServoId, ServoMonitor>, id: ServoId) -> Option<ServoMonitor> {
    if last.contains_key(id) {
        Some(stale(last[id]))
    } else {
        None
    }
}

/// Every servo in `ids` mapped to its held reading.
pub open spec fn held_map(last: Map<ServoId, ServoMonitor>, ids: Seq<ServoId>) -> Map<
    ServoId,
    Option<ServoMonitor>,
> {
    Map::new(|id: ServoId| ids.contains(id), |id: ServoId| held_reading(last, id))
}

/// Counting one missed reply for each servo of `ids` in order, stopping at
/// the first that reaches the loss threshold: the tracker and that error.
pub open spec fn miss_each(loss: LossView, ids: Seq<ServoId>) -> (LossView, Option<SmartServoError>)
    decreases ids.len(),
{
    if ids.len() == 0 {
        (loss, None)
    } else {
        let (l0, e0) = miss_each(loss, ids.drop_last());
        if e0 is Some {
            (l0, e0)
        } else {
            let id = ids.last();
            let l1 = after_miss_in(l0, id);
            match miss_outcome_in(l0, id) {
                Err(e) => (l1, Some(e)),
                Ok(_) => (l1, None),
            }
        }
    }
}

/// Taking in the monitor replies among `packets` in order: each reply's angle
/// goes through its servo's filter, the servo's miss count is reset and the
/// filtered reading becomes its last reading. Also returns the readings
/// received, by servo (a later reply from the same servo replaces an earlier one).
pub open spec fn absorb_replies(v: ControllerView, packets: Seq<(u8, Seq<u8>)>, now_ms: u64) -> (
    ControllerView,
    Map<ServoId, ServoMonitor>,
)
    decreases packets.len(),
{
    if packets.len() == 0 {
        (v, Map::empty())
    } else {
        let (v0, got0) = absorb_replies(v, packets.drop_last(), now_ms);
        match monitor_reply(packets.last()) {
            Some(m) => {
                let (filters, out) = apply_filter(v0.filters, m.id, m.raw_decideg, now_ms);
                let sample = filtered_monitor(m, out);
                (
                    ControllerView {
                        filters,
                        loss: after_ok_in(v0.loss, m.id),
                        last: v0.last.insert(m.id, sample),
                    },
                    got0.insert(m.id, sample),
                )
            },
            None => (v0, got0),
        }
    }
}

/// Answering each servo of `ids` in order from the readings received: a
/// servo with a reading gets it (once; the reading is then used up), any
/// other has a missed reply counted and gets its held reading. Stops at the
/// first servo whose miss count reaches the loss threshold. Returns the
/// tracker, the answers, the readings not used up, and that error.
pub open spec fn answer_each(
    loss: LossView,
    last: Map<ServoId, ServoMonitor>,
    got: Map<ServoId, ServoMonitor>,
    ids: Seq<ServoId>,
) -> (LossView, Map<ServoId, Option<ServoMonitor>>, Map<ServoId, ServoMonitor>, Option<
    SmartServoError,
>)
    decreases ids.len(),
{
    if ids.len() == 0 {
        (loss, Map::empty(), got, None)
    } else {
        let (l0, res0, got0, e0) = answer_each(loss, last, got, ids.drop_last());
        if e0 is Some {
            (l0, res0, got0, e0)
        } else {
            let id = ids.last();
            if got0.contains_key(id) {
                (l0, res0.insert(id, Some(got0[id])), got0.remove(id), None)
            } else {
                let l1 = after_miss_in(l0, id);
                match miss_outcome_in(l0, id) {
                    Err(e) => (l1, res0, got0, Some(e)),
                    Ok(_) => (l1, res0.insert(id, held_reading(last, id)), got0, None),
                }
            }
        }
    }
}

/// The outcome of a sync-monitor read of the servos `ids` and the new state
/// (see `ControllerState::sync_monitor`).
pub open spec fn sync_step(
    v: ControllerView,
    ids: Seq<ServoId>,
    read: ServoResult<Vec<u8>>,
    now_ms: u64,
) -> (ControllerView, ServoResult<Map<ServoId, Option<ServoMonitor>>>) {
    match read {
        Err(SmartServoError::Timeout) => {
            let (l, e) = miss_each(v.loss, ids);
            (
                ControllerView { loss: l, ..v },
                match e {
                    Some(e) => Err(e),
                    None => Ok(held_map(v.last, ids)),
                },
            )
        },
        Err(e) => (v, Err(e)),
        Ok(data) => {
            let (v1, got) = absorb_replies(v, parse_stream(data@).0, now_ms);
            let (l2, res, _, e) = answer_each(v1.loss, v1.last, got, ids);
            (
                ControllerView { loss: l2, ..v1 },
                match e {
                    Some(e) => Err(e),
                    None => Ok(res),
                },
            )
        },
    }
}

/// The view of a sync-monitor result.
pub open spec fn sync_result_view(r: ServoResult<HashMap<ServoId, Option<ServoMonitor>>>) -> ServoResult<
    Map<ServoId, Option<ServoMonitor>>,
> {
    match r {
        Ok(m) => Ok(m@),
        Err(e) => Err(e),
    }
}

/// Counting the misses of `miss_each(loss, ids)` never takes a count past
/// `u32::MAX`: each servo whose miss is counted has a count below it.
pub open spec fn miss_each_fits(loss: LossView, ids: Seq<ServoId>) -> bool
    decreases ids.len(),
{
    if ids.len() == 0 {
        true
    } else {
        let (l0, e0) = miss_each(loss, ids.drop_last());
        &&& miss_each_fits(loss, ids.drop_last())
        &&& (e0 is None ==> count_in(l0, ids.last()) < u32::MAX)
    }
}

/// Counting the misses of `answer_each(loss, last, got, ids)` never takes a
/// count past `u32::MAX`.
pub open spec fn answer_each_fits(
    loss: LossView,
    last: Map<ServoId, ServoMonitor>,
    got: Map<ServoId, ServoMonitor>,
    ids: Seq<ServoId>,
) -> bool
    decreases ids.len(),
{
    if ids.len() == 0 {
        true
    } else {
        let (l0, _, got0, e0) = answer_each(loss, last, got, ids.drop_last());
        &&& answer_each_fits(loss, last, got, ids.drop_last())
        &&& (e0 is None && !got0.contains_key(ids.last()) ==> count_in(l0, ids.last())
            < u32::MAX)
    }
}

/// A sync-monitor read of `ids` with this outcome never takes a miss count
/// past `u32::MAX`.
pub open spec fn sync_fits(
    v: ControllerView,
    ids: Seq<ServoId>,
    read: ServoResult<Vec<u8>>,
    now_ms: u64,
) -> bool {
    match read {
        Err(SmartServoError::Timeout) => miss_each_fits(v.loss, ids),
        Err(_) => true,
        Ok(data) => {
            let (v1, got) = absorb_replies(v, parse_stream(data@).0, now_ms);
            answer_each_fits(v1.loss, v1.last, got, ids)
        },
    }
}

/// The misses of a prefix of `ids` fit when those of `ids` do.
proof fn lemma_miss_each_fits_prefix(loss: LossView, ids: Seq<ServoId>, k: int)
    requires
        0 <= k <= ids.len(),
        miss_each_fits(loss, ids),
    ensures
        miss_each_fits(loss, ids.take(k)),
    decreases ids.len(),
{
    if k == ids.len() {
        assert(ids.take(k) =~= ids);
    } else {
        assert(ids.drop_last().take(k) =~= ids.take(k));
        lemma_miss_each_fits_prefix(loss, ids.drop_last(), k);
    }
}

/// Once counting misses has stopped at an error, the misses of `ids` fit
/// when those counted so far do.
proof fn lemma_miss_each_fits_after_stop(loss: LossView, ids: Seq<ServoId>, k: int)
    requires
        0 <= k <= ids.len(),
        miss_each(loss, ids.take(k)).1 is Some,
        miss_each_fits(loss, ids.take(k)),
    ensures
        miss_each_fits(loss, ids),
    decreases ids.len() - k,
{
    if k < ids.len() {
        assert(ids.take(k + 1).drop_last() =~= ids.take(k));
        lemma_miss_each_fits_after_stop(loss, ids, k + 1);
    } else {
        assert(ids.take(k) =~= ids);
    }
}

/// The answers to a prefix of `ids` fit when those to `ids` do.
proof fn lemma_answer_each_fits_prefix(
    loss: LossView,
    last: Map<ServoId, ServoMonitor>,
    got: Map<ServoId, ServoMonitor>,
    ids: Seq<ServoId>,
    k: int,
)
    requires
        0 <= k <= ids.len(),
        answer_each_fits(loss, last, got, ids),
    ensures
        answer_each_fits(loss, last, got, ids.take(k)),
    decreases ids.len(),
{
    if k == ids.len() {
        assert(ids.take(k) =~= ids);
    } else {
        assert(ids.drop_last().take(k) =~= ids.take(k));
        lemma_answer_each_fits_prefix(loss, last, got, ids.drop_last(), k);
    }
}

/// Once answering has stopped at an error, the answers to `ids` fit when
/// those given so far do.
proof fn lemma_answer_each_fits_after_stop(
    loss: LossView,
    last: Map<ServoId, ServoMonitor>,
    got: Map<ServoId, ServoMonitor>,
    ids: Seq<ServoId>,
    k: int,
)
    requires
        0 <= k <= ids.len(),
        answer_each(loss, last, got, ids.take(k)).3 is Some,
        answer_each_fits(loss, last, got, ids.take(k)),
    ensures
        answer_each_fits(loss, last, got, ids),
    decreases ids.len() - k,
{
    if k < ids.len() {
        assert(ids.take(k + 1).drop_last() =~= ids.take(k));
        lemma_answer_each_fits_after_stop(loss, last, got, ids, k + 1);
    } else {
        assert(ids.take(k) =~= ids);
    }
}

/// Taking in replies never raises a miss count.
proof fn lemma_absorb_lowers_counts(v: ControllerView, packets: Seq<(u8, Seq<u8>)>, now_ms: u64, j: ServoId)
    ensures
        count_in(absorb_replies(v, packets, now_ms).0.loss, j) <= count_in(v.loss, j),
    decreases packets.len(),
{
    if packets.len() > 0 {
        lemma_absorb_lowers_counts(v, packets.drop_last(), now_ms, j);
    }
}

/// Counting misses of `ids` leaves the count of a servo outside `ids` alone.
proof fn lemma_miss_each_other(loss: LossView, ids: Seq<ServoId>, j: ServoId)
    requires
        !ids.contains(j),
    ensures
        count_in(miss_each(loss, ids).0, j) == count_in(loss, j),
    decreases ids.len(),
{
    if ids.len() > 0 {
        assert(!ids.drop_last().contains(j)) by {
            if ids.drop_last().contains(j) {
                let i = choose|i: int| 0 <= i < ids.drop_last().len() && ids.drop_last()[i] == j;
                assert(ids[i] == j);
            }
        }
        assert(ids.last() != j) by {
            assert(ids[ids.len() - 1] == ids.last());
        }
        lemma_miss_each_other(loss, ids.drop_last(), j);
    }
}

/// Answering `ids` leaves the count of a servo outside `ids` alone.
proof fn lemma_answer_each_other(
    loss: LossView,
    last: Map<ServoId, ServoMonitor>,
    got: Map<ServoId, ServoMonitor>,
    ids: Seq<ServoId>,
    j: ServoId,
)
    requires
        !ids.contains(j),
    ensures
        count_in(answer_each(loss, last, got, ids).0, j) == count_in(loss, j),
    decreases ids.len(),
{
    if ids.len() > 0 {
        assert(!ids.drop_last().contains(j)) by {
            if ids.drop_last().contains(j) {
                let i = choose|i: int| 0 <= i < ids.drop_last().len() && ids.drop_last()[i] == j;
                assert(ids[i] == j);
            }
        }
        assert(ids.last() != j) by {
            assert(ids[ids.len() - 1] == ids.last());
        }
        lemma_answer_each_other(loss, last, got, ids.drop_last(), j);
    }
}

/// The last of distinct ids is not among the others.
proof fn lemma_distinct_last(ids: Seq<ServoId>)
    requires
        ids.len() > 0,
        ids.no_duplicates(),
    ensures
        ids.drop_last().no_duplicates(),
        !ids.drop_last().contains(ids.last()),
{
    if ids.drop_last().contains(ids.last()) {
        let i = choose|i: int| 0 <= i < ids.drop_last().len() && ids.drop_last()[i] == ids.last();
        assert(ids[i] == ids[ids.len() - 1]);
    }
}

/// With distinct ids, the misses of `miss_each` fit when each id's count is
/// below `u32::MAX`.
proof fn lemma_miss_each_fits_distinct(loss: LossView, ids: Seq<ServoId>)
    requires
        ids.no_duplicates(),
        forall|j: ServoId| #[trigger] ids.contains(j) ==> count_in(loss, j) < u32::MAX,
    ensures
        miss_each_fits(loss, ids),
    decreases ids.len(),
{
    if ids.len() > 0 {
        lemma_distinct_last(ids);
        assert forall|j: ServoId| #[trigger] ids.drop_last().contains(j) implies count_in(loss, j)
            < u32::MAX by {
            let i = choose|i: int| 0 <= i < ids.drop_last().len() && ids.drop_last()[i] == j;
            assert(ids[i] == j);
            assert(ids.contains(j));
        }
        lemma_miss_each_fits_distinct(loss, ids.drop_last());
        lemma_miss_each_other(loss, ids.drop_last(), ids.last());
        assert(ids.contains(ids.last())) by {
            assert(ids[ids.len() - 1] == ids.last());
        }
    }
}

/// With distinct ids, the misses of `answer_each` fit when each id's count is
/// below `u32::MAX`.
proof fn lemma_answer_each_fits_distinct(
    loss: LossView,
    last: Map<ServoId, ServoMonitor>,
    got: Map<ServoId, ServoMonitor>,
    ids: Seq<ServoId>,
)
    requires
        ids.no_duplicates(),
        forall|j: ServoId| #[trigger] ids.contains(j) ==> count_in(loss, j) < u32::MAX,
    ensures
        answer_each_fits(loss, last, got, ids),
    decreases ids.len(),
{
    if ids.len() > 0 {
        lemma_distinct_last(ids);
        assert forall|j: ServoId| #[trigger] ids.drop_last().contains(j) implies count_in(loss, j)
            < u32::MAX by {
            let i = choose|i: int| 0 <= i < ids.drop_last().len() && ids.drop_last()[i] == j;
            assert(ids[i] == j);
            assert(ids.contains(j));
        }
        lemma_answer_each_fits_distinct(loss, last, got, ids.drop_last());
        lemma_answer_each_other(loss, last, got, ids.drop_last(), ids.last());
        assert(ids.contains(ids.last())) by {
            assert(ids[ids.len() - 1] == ids.last());
        }
    }
}

/// Law: a sync read of distinct servos never takes a miss count past
/// `u32::MAX` when no queried servo's count is already at `u32::MAX`.
pub proof fn lemma_sync_fits_distinct(
    v: ControllerView,
    ids: Seq<ServoId>,
    read: ServoResult<Vec<u8>>,
    now_ms: u64,
)
    requires
        ids.no_duplicates(),
        forall|j: ServoId| #[trigger] ids.contains(j) ==> count_in(v.loss, j) < u32::MAX,
    ensures
        sync_fits(v, ids, read, now_ms),
{
    match read {
        Err(SmartServoError::Timeout) => {
            lemma_miss_each_fits_distinct(v.loss, ids);
        },
        Err(_) => {},
        Ok(data) => {
            let (v1, got) = absorb_replies(v, parse_stream(data@).0, now_ms);
            assert forall|j: ServoId| #[trigger] ids.contains(j) implies count_in(v1.loss, j)
                < u32::MAX by {
                lemma_absorb_lowers_counts(v, parse_stream(data@).0, now_ms, j);
            }
            lemma_answer_each_fits_distinct(v1.loss, v1.last, got, ids);
        },
    }
}

/// Once counting misses has stopped at an error, later ids change nothing.
proof fn lemma_miss_each_stops(loss: LossView, ids: Seq<ServoId>, k: int)
    requires
        0 <= k <= ids.len(),
        miss_each(loss, ids.take(k)).1 is Some,
    ensures
        miss_each(loss, ids) == miss_each(loss, ids.take(k)),
    decreases ids.len() - k,
{
    if k < ids.len() {
        assert(ids.take(k + 1).drop_last() =~= ids.take(k));
        lemma_miss_each_stops(loss, ids, k + 1);
    } else {
        assert(ids.take(k) =~= ids);
    }
}

/// Once answering has stopped at an error, later ids change nothing.
proof fn lemma_answer_each_stops(
    loss: LossView,
    last: Map<ServoId, ServoMonitor>,
    got: Map<ServoId, ServoMonitor>,
    ids: Seq<ServoId>,
    k: int,
)
    requires
        0 <= k <= ids.len(),
        answer_each(loss, last, got, ids.take(k)).3 is Some,
    ensures
        answer_each(loss, last, got, ids) == answer_each(loss, last, got, ids.take(k)),
    decreases ids.len() - k,
{
    if k < ids.len() {
        assert(ids.take(k + 1).drop_last() =~= ids.take(k));
        lemma_answer_each_stops(loss, last, got, ids, k + 1);
    } else {
        assert(ids.take(k) =~= ids);
    }
}

impl ControllerState {
    /// No servo seen yet; missed replies never fail.
    pub fn new() -> (s: Self)
        ensures
            s.filters@ == Map::<ServoId, AngleReliability>::empty(),
            s.loss_tracker@ == (Map::<ServoId, u32>::empty(), 0u32),
            s.last_monitors@ == Map::<ServoId, ServoMonitor>::empty(),
    {
        ControllerState {
            filters: HashMap::new(),
            loss_tracker: LossTracker::default(),
            last_monitors: HashMap::new(),
        }
    }

    /// Starts loss counting afresh with the given threshold (0: never fail).
    pub fn set_loss_threshold(&mut self, threshold: u32)
        ensures
            final(self).loss_tracker@ == (Map::<ServoId, u32>::empty(), threshold),
            final(self).filters@ == old(self).filters@,
            final(self).last_monitors@ == old(self).last_monitors@,
    {
        self.loss_tracker = LossTracker::new(threshold);
    }

    /// Runs servo `id`'s filter (a fresh one if it has none yet) on `raw`.
    fn filter_reading(&mut self, id: ServoId, raw: i32, now_ms: u64) -> (r: (i32, bool))
        ensures
            (final(self).filters@, r) == apply_filter(old(self).filters@, id, raw, now_ms),
            final(self).loss_tracker@ == old(self).loss_tracker@,
            final(self).last_monitors@ == old(self).last_monitors@,
    {
        let mut f: AngleReliability = match self.filters.get(&id) {
            Some(f) => *f,
            None => AngleReliability::default(),
        };
        let r = f.filter_at(raw, now_ms);
        self.filters.insert(id, f);
        r
    }

    /// The raw angle of servo `id` from the outcome of reading its angle reply.
    ///
    /// A timeout counts as a missed reply; other read errors are returned
    /// unchanged. A stream without packets but with a checksum error fails
    /// with the first such error. Otherwise the first angle reply from `id`
    /// gives the angle and resets the servo's miss count; without one the
    /// reply counts as missed. A missed reply fails with `Timeout`, or with
    /// `ConsecutiveLoss` when the count reaches the threshold.
    /// A missed reply is counted only on a count below `u32::MAX`
    /// (`raw_angle_read_misses` tells whether the outcome counts one).
    pub fn read_raw_angle(&mut self, id: ServoId, multi_turn: bool, read: ServoResult<Vec<u8>>) -> (r:
        ServoResult<i32>)
        requires
            raw_angle_misses(id, multi_turn, read) ==> old(self).loss_tracker.count(id) < u32::MAX,
        ensures
            (final(self)@, r) == raw_angle_step(old(self)@, id, multi_turn, read),
    {
        match read {
            Err(SmartServoError::Timeout) => {
                self.loss_tracker.record_miss(id)?;
                Err(SmartServoError::Timeout)
            },
            Err(e) => Err(e),
            Ok(data) => {
                let report = parse_response_stream(data.as_slice());
                if report.packets.len() == 0 && report.errors.len() > 0 {
                    return Err(take_first_error(report.errors));
                }
                match find_angle(&report.packets, id, multi_turn) {
                    Some(a) => {
                        self.loss_tracker.record_ok(id);
                        Ok(a)
                    },
                    None => {
                        self.loss_tracker.record_miss(id)?;
                        Err(SmartServoError::Timeout)
                    },
                }
            },
        }
    }

    /// The raw and filtered angle of servo `id` from the outcome of reading
    /// its angle reply at `now_ms`: `read_raw_angle`, then the servo's filter
    /// on the raw angle.
    pub fn read_angle_pair(
        &mut self,
        id: ServoId,
        multi_turn: bool,
        read: ServoResult<Vec<u8>>,
        now_ms: u64,
    ) -> (r: ServoResult<AngleSample>)
        requires
            raw_angle_misses(id, multi_turn, read) ==> old(self).loss_tracker.count(id) < u32::MAX,
        ensures
            (final(self)@, r) == angle_sample_step(old(self)@, id, multi_turn, read, now_ms),
    {
        let raw = self.read_raw_angle(id, multi_turn, read)?;
        let (filtered, reliable) = self.filter_reading(id, raw, now_ms);
        Ok(AngleSample { raw_decideg: raw, filtered_decideg: filtered, reliable })
    }

    /// The held sample of servo `id` for when a read failed: its last filtered
    /// angle, unreliable, or `None` before its filter returned anything.
    pub fn filter_timeout_sample(&mut self, id: ServoId) -> (r: Option<AngleSample>)
        ensures
            (final(self)@, r) == timeout_sample_step(old(self)@, id),
    {
        let f: AngleReliability = match self.filters.get(&id) {
            Some(f) => *f,
            None => AngleReliability::default(),
        };
        self.filters.insert(id, f);
        match f.state.last_filtered {
            Some(last) => Some(
                AngleSample {
                    raw_decideg: match f.state.last_raw {
                        Some(r) => r,
                        None => 0,
                    },
                    filtered_decideg: last,
                    reliable: false,
                },
            ),
            None => None,
        }
    }

    /// The monitor reading of servo `id` from the outcome of reading its
    /// monitor reply at `now_ms`.
    ///
    /// Errors and missed replies are handled as in `read_raw_angle`. The first
    /// monitor reply from `id` has its angle run through the servo's filter;
    /// the filtered reading is returned and kept as the servo's last reading,
    /// and the servo's miss count is reset.
    /// A missed reply is counted only on a count below `u32::MAX`
    /// (`monitor_read_misses` tells whether the outcome counts one).
    pub fn query_monitor(&mut self, id: ServoId, read: ServoResult<Vec<u8>>, now_ms: u64) -> (r:
        ServoResult<ServoMonitor>)
        requires
            monitor_misses(id, read) ==> old(self).loss_tracker.count(id) < u32::MAX,
        ensures
            (final(self)@, r) == monitor_step(old(self)@, id, read, now_ms),
    {
        match read {
            Err(SmartServoError::Timeout) => {
                self.loss_tracker.record_miss(id)?;
                Err(SmartServoError::Timeout)
            },
            Err(e) => Err(e),
            Ok(data) => {
                let report = parse_response_stream(data.as_slice());
                if report.packets.len() == 0 && report.errors.len() > 0 {
                    return Err(take_first_error(report.errors));
                }
                match find_monitor(&report.packets, id) {
                    Some(m) => {
                        let (filtered, reliable) = self.filter_reading(id, m.raw_decideg, now_ms);
                        let sample = ServoMonitor {
                            filtered_decideg: filtered,
                            angle_decideg: filtered,
                            reliable,
                            ..m
                        };
                        self.loss_tracker.record_ok(id);
                        self.last_monitors.insert(id, sample);
                        Ok(sample)
                    },
                    None => {
                        self.loss_tracker.record_miss(id)?;
                        Err(SmartServoError::Timeout)
                    },
                }
            },
        }
    }

    /// Counts one missed reply for each servo of `ids` in order, stopping at
    /// the first that reaches the loss threshold.
    fn miss_all(&mut self, ids: &[ServoId]) -> (r: ServoResult<()>)
        requires
            miss_each_fits(old(self).loss_tracker@, ids@),
        ensures
            final(self).loss_tracker@ == miss_each(old(self).loss_tracker@, ids@).0,
            final(self).filters@ == old(self).filters@,
            final(self).last_monitors@ == old(self).last_monitors@,
            match miss_each(old(self).loss_tracker@, ids@).1 {
                Some(e) => r == Err::<(), SmartServoError>(e),
                None => r is Ok,
            },
    {
        let ghost l0 = self.loss_tracker@;
        let mut k: usize = 0;
        assert(ids@.take(0) =~= Seq::<ServoId>::empty());
        while k < ids.len()
            invariant
                k <= ids@.len(),
                l0 == old(self).loss_tracker@,
                self.loss_tracker@ == miss_each(l0, ids@.take(k as int)).0,
                miss_each(l0, ids@.take(k as int)).1 is None,
                miss_each_fits(l0, ids@),
                self.filters@ == old(self).filters@,
                self.last_monitors@ == old(self).last_monitors@,
            decreases ids@.len() - k,
        {
            let id = ids[k];
            assert(ids@.take(k + 1).drop_last() =~= ids@.take(k as int));
            assert(ids@.take(k + 1).last() == id);
            proof {
                lemma_miss_each_fits_prefix(l0, ids@, k + 1);
            }
            let r = self.loss_tracker.record_miss(id);
            match r {
                Err(e) => {
                    assert(miss_each(l0, ids@.take(k + 1)) == (self.loss_tracker@, Some(e)));
                    proof {
                        lemma_miss_each_stops(l0, ids@, (k + 1) as int);
                    }
                    return Err(e);
                },
                Ok(()) => {},
            }
            k = k + 1;
        }
        assert(ids@.take(ids@.len() as int) =~= ids@);
        Ok(())
    }

    /// Every servo of `ids` mapped to its held reading.
    fn held_readings(&self, ids: &[ServoId]) -> (r: HashMap<ServoId, Option<ServoMonitor>>)
        ensures
            r@ == held_map(self.last_monitors@, ids@),
    {
        let mut result: HashMap<ServoId, Option<ServoMonitor>> = HashMap::new();
        let mut k: usize = 0;
        while k < ids.len()
            invariant
                k <= ids@.len(),
                result@ == held_map(self.last_monitors@, ids@.take(k as int)),
            decreases ids@.len() - k,
        {
            let id = ids[k];
            let held: Option<ServoMonitor> = match self.last_monitors.get(&id) {
                Some(m) => Some(ServoMonitor { reliable: false, ..*m }),
                None => None,
            };
            result.insert(id, held);
            assert(result@ =~= held_map(self.last_monitors@, ids@.take(k + 1))) by {
                broadcast use vstd::seq_lib::lemma_seq_contains_after_push;

                assert(ids@.take(k + 1) =~= ids@.take(k as int).push(id));
            }
            k = k + 1;
        }
        assert(ids@.take(ids@.len() as int) =~= ids@);
        result
    }

    /// Takes in the monitor replies among `packets` (see `absorb_replies`).
    fn absorb(&mut self, packets: &Vec<Packet>, now_ms: u64) -> (got: HashMap<ServoId, ServoMonitor>)
        ensures
            (final(self)@, got@) == absorb_replies(
                old(self)@,
                packets@.map_values(|p: Packet| p@),
                now_ms,
            ),
    {
        let ghost v0 = self@;
        let ghost ps = packets@.map_values(|p: Packet| p@);
        let mut got: HashMap<ServoId, ServoMonitor> = HashMap::new();
        let mut k: usize = 0;
        assert(ps.take(0) =~= Seq::<(u8, Seq<u8>)>::empty());
        while k < packets.len()
            invariant
                k <= packets@.len(),
                v0 == old(self)@,
                ps == packets@.map_values(|p: Packet| p@),
                (self@, got@) == absorb_replies(v0, ps.take(k as int), now_ms),
            decreases packets@.len() - k,
        {
            assert(ps.take(k + 1).drop_last() =~= ps.take(k as int));
            assert(ps.take(k + 1).last() == packets@[k as int]@);
            match decode_monitor(&packets[k]) {
                Ok(m) => {
                    let (filtered, reliable) = self.filter_reading(m.id, m.raw_decideg, now_ms);
                    let sample = ServoMonitor {
                        filtered_decideg: filtered,
                        angle_decideg: filtered,
                        reliable,
                        ..m
                    };
                    self.loss_tracker.record_ok(m.id);
                    self.last_monitors.insert(m.id, sample);
                    got.insert(m.id, sample);
                },
                Err(_) => {},
            }
            k = k + 1;
        }
        assert(ps.take(packets@.len() as int) =~= ps);
        got
    }

    /// Answers each servo of `ids` from the readings received (see `answer_each`).
    #[verifier::loop_isolation(false)]
    fn answer_all(&mut self, ids: &[ServoId], got: HashMap<ServoId, ServoMonitor>) -> (r: ServoResult<
        HashMap<ServoId, Option<ServoMonitor>>,
    >)
        requires
            answer_each_fits(old(self).loss_tracker@, old(self).last_monitors@, got@, ids@),
        ensures
            final(self).loss_tracker@ == answer_each(
                old(self).loss_tracker@,
                old(self).last_monitors@,
                got@,
                ids@,
            ).0,
            final(self).filters@ == old(self).filters@,
            final(self).last_monitors@ == old(self).last_monitors@,
            match answer_each(old(self).loss_tracker@, old(self).last_monitors@, got@, ids@).3 {
                Some(e) => r == Err::<HashMap<ServoId, Option<ServoMonitor>>, SmartServoError>(e),
                None => r matches Ok(h) && h@ == answer_each(
                    old(self).loss_tracker@,
                    old(self).last_monitors@,
                    got@,
                    ids@,
                ).1,
            },
    {
        let ghost l0 = self.loss_tracker@;
        let ghost got0 = got@;
        let mut got = got;
        let mut result: HashMap<ServoId, Option<ServoMonitor>> = HashMap::new();
        let mut k: usize = 0;
        assert(ids@.take(0) =~= Seq::<ServoId>::empty());
        while k < ids.len()
            invariant
                k <= ids@.len(),
                l0 == old(self).loss_tracker@,
                (self.loss_tracker@, result@, got@, None::<SmartServoError>) == answer_each(
                    l0,
                    self.last_monitors@,
                    got0,
                    ids@.take(k as int),
                ),
                answer_each_fits(l0, self.last_monitors@, got0, ids@),
                self.filters@ == old(self).filters@,
                self.last_monitors@ == old(self).last_monitors@,
            decreases ids@.len() - k,
        {
            let id = ids[k];
            assert(ids@.take(k + 1).drop_last() =~= ids@.take(k as int));
            assert(ids@.take(k + 1).last() == id);
            match got.remove(&id) {
                Some(m) => {
                    result.insert(id, Some(m));
                },
                None => {
                    proof {
                        lemma_answer_each_fits_prefix(
                            l0,
                            self.last_monitors@,
                            got0,
                            ids@,
                            k + 1,
                        );
                    }
                    let r = self.loss_tracker.record_miss(id);
                    match r {
                        Err(e) => {
                            assert(answer_each(l0, self.last_monitors@, got0, ids@.take(k + 1)).3
                                == Some(e));
                            assert(answer_each(l0, self.last_monitors@, got0, ids@.take(k + 1)).0
                                == self.loss_tracker@);
                            proof {
                                lemma_answer_each_stops(
                                    l0,
                                    self.last_monitors@,
                                    got0,
                                    ids@,
                                    (k + 1) as int,
                                );
                            }
                            return Err(e);
                        },
                        Ok(()) => {},
                    }
                    let held: Option<ServoMonitor> = match self.last_monitors.get(&id) {
                        Some(m) => Some(ServoMonitor { reliable: false, ..*m }),
                        None => None,
                    };
                    result.insert(id, held);
                },
            }
            k = k + 1;
        }
        assert(ids@.take(ids@.len() as int) =~= ids@);
        Ok(result)
    }

    /// Whether counting the misses of `miss_each(tracker, ids)` keeps every
    /// count within `u32`; counts them on this state's tracker.
    fn misses_fit(&mut self, ids: &[ServoId]) -> (r: bool)
        ensures
            r == miss_each_fits(old(self).loss_tracker@, ids@),
    {
        let ghost l0 = self.loss_tracker@;
        let mut k: usize = 0;
        assert(ids@.take(0) =~= Seq::<ServoId>::empty());
        while k < ids.len()
            invariant
                k <= ids@.len(),
                l0 == old(self).loss_tracker@,
                self.loss_tracker@ == miss_each(l0, ids@.take(k as int)).0,
                miss_each(l0, ids@.take(k as int)).1 is None,
                miss_each_fits(l0, ids@.take(k as int)),
            decreases ids@.len() - k,
        {
            let id = ids[k];
            assert(ids@.take(k + 1).drop_last() =~= ids@.take(k as int));
            assert(ids@.take(k + 1).last() == id);
            if self.loss_tracker.miss_count(id) == u32::MAX {
                proof {
                    if miss_each_fits(l0, ids@) {
                        lemma_miss_each_fits_prefix(l0, ids@, k + 1);
                    }
                }
                return false;
            }
            let r = self.loss_tracker.record_miss(id);
            if r.is_err() {
                proof {
                    lemma_miss_each_fits_after_stop(l0, ids@, k + 1);
                }
                return true;
            }
            k = k + 1;
        }
        assert(ids@.take(ids@.len() as int) =~= ids@);
        true
    }

    /// Whether counting the misses of `answer_each(tracker, last, got, ids)`
    /// keeps every count within `u32`; counts them on this state's tracker.
    #[verifier::loop_isolation(false)]
    fn answers_fit(&mut self, ids: &[ServoId], got: HashMap<ServoId, ServoMonitor>) -> (r: bool)
        ensures
            r == answer_each_fits(old(self).loss_tracker@, old(self).last_monitors@, got@, ids@),
    {
        let ghost l0 = self.loss_tracker@;
        let ghost got0 = got@;
        let ghost last = self.last_monitors@;
        let mut got = got;
        let mut k: usize = 0;
        assert(ids@.take(0) =~= Seq::<ServoId>::empty());
        while k < ids.len()
            invariant
                k <= ids@.len(),
                l0 == old(self).loss_tracker@,
                last == old(self).last_monitors@,
                self.loss_tracker@ == answer_each(l0, last, got0, ids@.take(k as int)).0,
                got@ == answer_each(l0, last, got0, ids@.take(k as int)).2,
                answer_each(l0, last, got0, ids@.take(k as int)).3 is None,
                answer_each_fits(l0, last, got0, ids@.take(k as int)),
            decreases ids@.len() - k,
        {
            let id = ids[k];
            assert(ids@.take(k + 1).drop_last() =~= ids@.take(k as int));
            assert(ids@.take(k + 1).last() == id);
            let ghost got_before = got@;
            match got.remove(&id) {
                Some(_) => {},
                None => {
                    assert(got@ =~= got_before);
                    if self.loss_tracker.miss_count(id) == u32::MAX {
                        proof {
                            if answer_each_fits(l0, last, got0, ids@) {
                                lemma_answer_each_fits_prefix(l0, last, got0, ids@, k + 1);
                            }
                        }
                        return false;
                    }
                    let r = self.loss_tracker.record_miss(id);
                    if r.is_err() {
                        proof {
                            lemma_answer_each_fits_after_stop(l0, last, got0, ids@, k + 1);
                        }
                        return true;
                    }
                },
            }
            k = k + 1;
        }
        assert(ids@.take(ids@.len() as int) =~= ids@);
        true
    }

    /// Whether a sync-monitor read of `ids` with this outcome at `now_ms`
    /// keeps every miss count within `u32` (see `sync_monitor`).
    pub fn sync_monitor_fits(&self, ids: &[ServoId], read: &ServoResult<Vec<u8>>, now_ms: u64) -> (r:
        bool)
        ensures
            r == sync_fits(self@, ids@, *read, now_ms),
    {
        let mut scratch = ControllerState {
            filters: self.filters.clone(),
            loss_tracker: self.loss_tracker.duplicate(),
            last_monitors: self.last_monitors.clone(),
        };
        match read {
            Err(SmartServoError::Timeout) => scratch.misses_fit(ids),
            Err(_) => true,
            Ok(data) => {
                let report = parse_response_stream(data.as_slice());
                let got = scratch.absorb(&report.packets, now_ms);
                scratch.answers_fit(ids, got)
            },
        }
    }

    /// The readings of the servos `ids` from the outcome of reading the
    /// replies to one sync-monitor request at `now_ms`.
    ///
    /// A timeout counts a missed reply for every servo, in order, and answers
    /// each with its held reading (its last reading marked unreliable, or
    /// `None`). Other read errors are returned unchanged. Otherwise every
    /// monitor reply in the stream is taken in (filtered, miss count reset,
    /// kept as the servo's last reading), and each servo of `ids` is answered
    /// with its fresh reading, or has a missed reply counted and gets its held
    /// reading. Counting stops with `ConsecutiveLoss` at the first servo whose
    /// count reaches the threshold.
    /// No miss may be counted on a count at `u32::MAX` (`sync_fits`, tested by
    /// `sync_monitor_fits`; for distinct servos it is enough that none of
    /// their counts is there, `lemma_sync_fits_distinct`).
    pub fn sync_monitor(&mut self, ids: &[ServoId], read: ServoResult<Vec<u8>>, now_ms: u64) -> (r:
        ServoResult<HashMap<ServoId, Option<ServoMonitor>>>)
        requires
            sync_fits(old(self)@, ids@, read, now_ms),
        ensures
            (final(self)@, sync_result_view(r)) == sync_step(old(self)@, ids@, read, now_ms),
    {
        match read {
            Err(SmartServoError::Timeout) => {
                self.miss_all(ids)?;
                Ok(self.held_readings(ids))
            },
            Err(e) => Err(e),
            Ok(data) => {
                let report = parse_response_stream(data.as_slice());
                let got = self.absorb(&report.packets, now_ms);
                self.answer_all(ids, got)
            },
        }
    }
}

/// `n` copies of `id`.
pub open spec fn repeated(id: ServoId, n: nat) -> Seq<ServoId> {
    Seq::new(n, |_i: int| id)
}

/// Law (consecutive-loss threshold): starting from a count of 0, `k` missed
/// replies of one servo bring its count to `k`; with threshold 0 none of them
/// fails, and with threshold `t > 0` the first `t - 1` pass and the `t`-th
/// fails with `ConsecutiveLoss { id, count: t }`.
pub proof fn lemma_consecutive_misses(loss: LossView, id: ServoId, k: nat)
    requires
        count_in(loss, id) == 0,
        loss.1 == 0 || k <= loss.1,
        k <= u32::MAX,
    ensures
        count_in(miss_each(loss, repeated(id, k)).0, id) == k,
        miss_each(loss, repeated(id, k)).0.1 == loss.1,
        miss_each(loss, repeated(id, k)).1 == (if loss.1 > 0 && k == loss.1 {
            Some(SmartServoError::ConsecutiveLoss { id, count: k as u32 })
        } else {
            None::<SmartServoError>
        }),
    decreases k,
{
    if k > 0 {
        assert(repeated(id, k).drop_last() =~= repeated(id, (k - 1) as nat));
        assert(repeated(id, k).last() == id);
        lemma_consecutive_misses(loss, id, (k - 1) as nat);
    } else {
        assert(repeated(id, k) =~= Seq::<ServoId>::empty());
    }
}

/// Law: a reply from the servo resets its consecutive-miss count to zero.
pub proof fn lemma_reply_resets_misses(
    v: ControllerView,
    id: ServoId,
    multi_turn: bool,
    read: ServoResult<Vec<u8>>,
)
    requires
        raw_angle_step(v, id, multi_turn, read).1 is Ok,
    ensures
        count_in(raw_angle_step(v, id, multi_turn, read).0.loss, id) == 0,
{
}

/// Law: after an angle read succeeded, the sample for a failed read of the
/// same servo is the filtered angle just returned, now unreliable, with the
/// raw reading it came from.
pub proof fn lemma_timeout_sample_holds_last_filtered(
    v: ControllerView,
    id: ServoId,
    multi_turn: bool,
    read: ServoResult<Vec<u8>>,
    now_ms: u64,
)
    requires
        angle_sample_step(v, id, multi_turn, read, now_ms).1 is Ok,
    ensures
        ({
            let (v1, r) = angle_sample_step(v, id, multi_turn, read, now_ms);
            let s = r->Ok_0;
            timeout_sample_step(v1, id).1 == Some(
                AngleSample {
                    raw_decideg: s.raw_decideg,
                    filtered_decideg: s.filtered_decideg,
                    reliable: false,
                },
            )
        }),
{
}

/// Law: when a sync read times out, a servo that answered a monitor query
/// before is answered with that reading, marked unreliable.
pub proof fn lemma_sync_timeout_holds_last_reading(
    v: ControllerView,
    id: ServoId,
    read: ServoResult<Vec<u8>>,
    now_ms: u64,
    ids: Seq<ServoId>,
    later_ms: u64,
)
    requires
        monitor_step(v, id, read, now_ms).1 is Ok,
        ids.contains(id),
        sync_step(monitor_step(v, id, read, now_ms).0, ids, Err(SmartServoError::Timeout), later_ms).1 is Ok,
    ensures
        sync_step(
            monitor_step(v, id, read, now_ms).0,
            ids,
            Err(SmartServoError::Timeout),
            later_ms,
        ).1->Ok_0[id] == Some(stale(monitor_step(v, id, read, now_ms).1->Ok_0)),
{
}

/// Law: a reply whose checksum byte is wrong is reported as a checksum
/// mismatch, not as a timeout, and does not count as a missed reply.
pub proof fn lemma_checksum_error_is_reported(
    v: ControllerView,
    id: ServoId,
    multi_turn: bool,
    code: u8,
    params: Seq<u8>,
    got: u8,
    data: Vec<u8>,
)
    requires
        params.len() <= 255,
        got != spec_checksum(resp_header(), code, params),
        data@ == resp_header() + seq![code, params.len() as u8] + params + seq![got],
    ensures
        raw_angle_step(v, id, multi_turn, Ok(data)) == (
            v,
            Err::<i32, SmartServoError>(
                SmartServoError::ChecksumMismatch {
                    code,
                    expected: spec_checksum(resp_header(), code, params),
                    got,
                },
            ),
        ),
{
    lemma_parse_bad_checksum_then_rest(code, params, got, Seq::empty());
    assert(data@ + Seq::<u8>::empty() == data@);
    assert(parse_stream(Seq::<u8>::empty()).0 =~= Seq::<(u8, Seq<u8>)>::empty());
    assert(parse_stream(Seq::<u8>::empty()).1 =~= Seq::<SmartServoError>::empty());
}

/// Law: in a sync read, a servo whose reply did not arrive keeps its last
/// known reading, marked unreliable (or `None` if it never answered), while
/// its missed reply is counted.
pub proof fn lemma_sync_missing_servo_is_held(
    v: ControllerView,
    id: ServoId,
    data: Vec<u8>,
    now_ms: u64,
)
    requires
        !absorb_replies(v, parse_stream(data@).0, now_ms).1.contains_key(id),
        miss_outcome_in(absorb_replies(v, parse_stream(data@).0, now_ms).0.loss, id) is Ok,
    ensures
        ({
            let absorbed = absorb_replies(v, parse_stream(data@).0, now_ms).0;
            let (v2, r) = sync_step(v, seq![id], Ok(data), now_ms);
            &&& r is Ok
            &&& r->Ok_0[id] == held_reading(absorbed.last, id)
            &&& v2.loss == after_miss_in(absorbed.loss, id)
        }),
{
    let (absorbed, got) = absorb_replies(v, parse_stream(data@).0, now_ms);
    assert(seq![id].drop_last() =~= Seq::<ServoId>::empty());
    assert(seq![id].last() == id);
    assert(answer_each(absorbed.loss, absorbed.last, got, Seq::<ServoId>::empty()) == (
        absorbed.loss,
        Map::<ServoId, Option<ServoMonitor>>::empty(),
        got,
        None::<SmartServoError>,
    ));
}

/// Every reading received in a stream is kept as its servo's last reading.
proof fn lemma_absorb_keeps_readings(v: ControllerView, packets: Seq<(u8, Seq<u8>)>, now_ms: u64)
    ensures
        forall|j: ServoId|
            #[trigger] absorb_replies(v, packets, now_ms).1.contains_key(j) ==> absorb_replies(
                v,
                packets,
                now_ms,
            ).0.last.contains_key(j) && absorb_replies(v, packets, now_ms).0.last[j]
                == absorb_replies(v, packets, now_ms).1[j],
    decreases packets.len(),
{
    if packets.len() > 0 {
        lemma_absorb_keeps_readings(v, packets.drop_last(), now_ms);
        let (v0, got0) = absorb_replies(v, packets.drop_last(), now_ms);
        let (v1, got1) = absorb_replies(v, packets, now_ms);
        match monitor_reply(packets.last()) {
            Some(m) => {
                assert forall|j: ServoId| #[trigger] got1.contains_key(j) implies v1.last.contains_key(j)
                    && v1.last[j] == got1[j] by {
                    if j != m.id {
                        assert(got0.contains_key(j));
                    }
                }
            },
            None => {},
        }
    }
}

/// The first monitor reply from `id` is one of `id`'s.
proof fn lemma_first_monitor_is_from(packets: Seq<(u8, Seq<u8>)>, id: ServoId)
    ensures
        first_monitor(packets, id) matches Some(m) ==> m.id == id,
    decreases packets.len(),
{
    if packets.len() > 0 {
        lemma_first_monitor_is_from(packets.drop_first(), id);
    }
}

/// Each answer of `answer_each` is a received reading or the held reading,
/// and the readings not used up are among those received.
proof fn lemma_answer_each_answers(
    loss: LossView,
    last: Map<ServoId, ServoMonitor>,
    got: Map<ServoId, ServoMonitor>,
    ids: Seq<ServoId>,
)
    ensures
        forall|j: ServoId|
            #[trigger] answer_each(loss, last, got, ids).1.contains_key(j) ==> (got.contains_key(j)
                && answer_each(loss, last, got, ids).1[j] == Some(got[j])) || answer_each(
                loss,
                last,
                got,
                ids,
            ).1[j] == held_reading(last, j),
        forall|j: ServoId|
            #[trigger] answer_each(loss, last, got, ids).2.contains_key(j) ==> got.contains_key(j)
                && answer_each(loss, last, got, ids).2[j] == got[j],
    decreases ids.len(),
{
    if ids.len() > 0 {
        lemma_answer_each_answers(loss, last, got, ids.drop_last());
    }
}

/// Law: a sync read keeps what it answers. When a sync read answers servo
/// `id` with a reading `m` (fresh or held), a later sync read that times out
/// answers `id` with `m` marked unreliable.
pub proof fn lemma_sync_reading_is_held_on_timeout(
    v: ControllerView,
    ids: Seq<ServoId>,
    data: Vec<u8>,
    now_ms: u64,
    id: ServoId,
    m: ServoMonitor,
    ids2: Seq<ServoId>,
    later_ms: u64,
)
    requires
        sync_step(v, ids, Ok(data), now_ms).1 is Ok,
        sync_step(v, ids, Ok(data), now_ms).1->Ok_0.contains_key(id),
        sync_step(v, ids, Ok(data), now_ms).1->Ok_0[id] == Some(m),
        ids2.contains(id),
        sync_step(sync_step(v, ids, Ok(data), now_ms).0, ids2, Err(SmartServoError::Timeout), later_ms).1 is Ok,
    ensures
        sync_step(
            sync_step(v, ids, Ok(data), now_ms).0,
            ids2,
            Err(SmartServoError::Timeout),
            later_ms,
        ).1->Ok_0[id] == Some(stale(m)),
{
    let (v1, got) = absorb_replies(v, parse_stream(data@).0, now_ms);
    lemma_absorb_keeps_readings(v, parse_stream(data@).0, now_ms);
    lemma_answer_each_answers(v1.loss, v1.last, got, ids);
    let v2 = sync_step(v, ids, Ok(data), now_ms).0;
    assert(v2.last == v1.last);
    assert(v2.last.contains_key(id));
    assert(stale(v2.last[id]) == stale(m));
}

/// Law: a monitor query runs the servo's own filter on the reply's angle at
/// the caller's time (milliseconds); the filtered angle and its reliability
/// are returned, the filter is kept for that servo only, the reading becomes
/// the servo's last reading and its miss count is reset.
pub proof fn lemma_monitor_query_filters_at_caller_time(
    v: ControllerView,
    id: ServoId,
    data: Vec<u8>,
    now_ms: u64,
    other: ServoId,
)
    requires
        monitor_step(v, id, Ok(data), now_ms).1 is Ok,
    ensures
        ({
            let (v1, r) = monitor_step(v, id, Ok(data), now_ms);
            let s = r->Ok_0;
            let f = filter_of(v.filters, id);
            let (fs, out) = filter_step(f.config, f.state, s.raw_decideg, now_ms);
            &&& out == (s.filtered_decideg, s.reliable)
            &&& s.angle_decideg == s.filtered_decideg
            &&& s.id == id
            &&& filter_of(v1.filters, id) == AngleReliability { config: f.config, state: fs }
            &&& (other != id ==> filter_of(v1.filters, other) == filter_of(v.filters, other))
            &&& v1.last.contains_key(id) && v1.last[id] == s
            &&& count_in(v1.loss, id) == 0
        }),
{
    lemma_first_monitor_is_from(parse_stream(data@).0, id);
}

/// Law: two monitor replies of a servo whose angles are near zero, the
/// second at least `zero_confirm_ms` after the first, make the second
/// reading reliable (when no near-zero run was open before the first).
pub proof fn lemma_monitor_zero_confirmed_after_confirm_time(
    v: ControllerView,
    id: ServoId,
    d0: Vec<u8>,
    t0: u64,
    d1: Vec<u8>,
    t1: u64,
)
    requires
        monitor_step(v, id, Ok(d0), t0).1 is Ok,
        monitor_step(monitor_step(v, id, Ok(d0), t0).0, id, Ok(d1), t1).1 is Ok,
        filter_of(v.filters, id).config.zero_eps_decideg <= filter_of(
            v.filters,
            id,
        ).config.valid_range_decideg,
        filter_of(v.filters, id).state.zero_candidate_since_ms is None,
        near_zero(
            filter_of(v.filters, id).config,
            monitor_step(v, id, Ok(d0), t0).1->Ok_0.raw_decideg,
        ),
        near_zero(
            filter_of(v.filters, id).config,
            monitor_step(monitor_step(v, id, Ok(d0), t0).0, id, Ok(d1), t1).1->Ok_0.raw_decideg,
        ),
        t0 <= t1,
        t1 - t0 >= filter_of(v.filters, id).config.zero_confirm_ms,
    ensures
        ({
            let s1 = monitor_step(monitor_step(v, id, Ok(d0), t0).0, id, Ok(d1), t1).1->Ok_0;
            s1.reliable && s1.filtered_decideg == s1.raw_decideg
        }),
{
}

/// Law: an angle read of servo `id` runs only `id`'s filter, on the raw
/// angle read, at the caller's time; every other servo's filter is unchanged.
pub proof fn lemma_angle_read_uses_own_filter(
    v: ControllerView,
    id: ServoId,
    multi_turn: bool,
    read: ServoResult<Vec<u8>>,
    now_ms: u64,
    other: ServoId,
)
    ensures
        other != id ==> filter_of(
            angle_sample_step(v, id, multi_turn, read, now_ms).0.filters,
            other,
        ) == filter_of(v.filters, other),
        angle_sample_step(v, id, multi_turn, read, now_ms).1 is Ok ==> ({
            let (v1, r) = angle_sample_step(v, id, multi_turn, read, now_ms);
            let s = r->Ok_0;
            let f = filter_of(v.filters, id);
            let (fs, out) = filter_step(f.config, f.state, s.raw_decideg, now_ms);
            &&& raw_angle_step(v, id, multi_turn, read).1 == Ok::<i32, SmartServoError>(
                s.raw_decideg,
            )
            &&& out == (s.filtered_decideg, s.reliable)
            &&& filter_of(v1.filters, id) == AngleReliability { config: f.config, state: fs }
        }),
{
}

/// Law: the held sample of a servo depends on that servo's filter alone.
pub proof fn lemma_timeout_sample_is_own(v: ControllerView, w: ControllerView, id: ServoId, other: ServoId)
    requires
        filter_of(v.filters, id) == filter_of(w.filters, id),
    ensures
        timeout_sample_step(v, id).1 == timeout_sample_step(w, id).1,
        filter_of(timeout_sample_step(v, id).0.filters, other) == filter_of(v.filters, other),
{
}

/// Law: reading the angle of one servo never changes the held sample of
/// another.
pub proof fn lemma_angle_read_keeps_other_samples(
    v: ControllerView,
    id: ServoId,
    multi_turn: bool,
    read: ServoResult<Vec<u8>>,
    now_ms: u64,
    other: ServoId,
)
    requires
        other != id,
    ensures
        timeout_sample_step(angle_sample_step(v, id, multi_turn, read, now_ms).0, other).1
            == timeout_sample_step(v, other).1,
{
    lemma_angle_read_uses_own_filter(v, id, multi_turn, read, now_ms, other);
}

} // verus!
