//! Angle reliability filter.
//!
//! A servo that loses power briefly can report `0` between two real positions
//! (`A -> 0 -> B`), and reports huge garbage angles while it starts up. The
//! filter holds the last good angle through both: a near-zero reading is
//! accepted only after near-zero readings have lasted `zero_confirm_ms`, and an
//! out-of-range reading is never accepted. Any other reading is accepted at
//! once. Angles are in tenths of a degree, times in milliseconds.
use vstd::prelude::*;

verus! {

/// The standard library's wall-clock time, carried through unchanged.
#[verifier::external_type_specification]
#[verifier::external_body]
pub struct ExSystemTime(std::time::SystemTime);

/// Tuning of the filter.
#[derive(Debug, Clone, Copy)]
pub struct AngleReliabilityConfig {
    /// Readings whose magnitude is at most this are near zero.
    pub zero_eps_decideg: u32,
    /// How long near-zero readings must last before one is accepted.
    pub zero_confirm_ms: u64,
    /// Readings whose magnitude exceeds this are power-on garbage and held
    /// back like near-zero glitches. Defaults to 3,686,400 degrees, the
    /// +-1024-turn limit of the FashionStar protocol.
    pub valid_range_decideg: u32,
}

impl Default for AngleReliabilityConfig {
    /// 0.2 degree near-zero band, 650 ms confirmation, +-3,686,400 degree range.
    fn default() -> (c: Self)
        ensures
            c.zero_eps_decideg == 2,
            c.zero_confirm_ms == 650,
            c.valid_range_decideg == 36_864_000,
    {
        AngleReliabilityConfig {
            zero_eps_decideg: 2,
            zero_confirm_ms: 650,
            valid_range_decideg: 36_864_000,
        }
    }
}

/// What the filter remembers between readings.
#[derive(Debug, Clone, Copy)]
pub struct AngleReliabilityState {
    /// The last accepted reading.
    pub last_good: Option<i32>,
    /// The last reading given to the filter.
    pub last_raw: Option<i32>,
    /// The last value the filter returned.
    pub last_filtered: Option<i32>,
    /// When the current run of near-zero readings began.
    pub zero_candidate_since_ms: Option<u64>,
}

impl Default for AngleReliabilityState {
    /// Nothing seen yet.
    fn default() -> (s: Self)
        ensures
            s.last_good is None,
            s.last_raw is None,
            s.last_filtered is None,
            s.zero_candidate_since_ms is None,
    {
        AngleReliabilityState {
            last_good: None,
            last_raw: None,
            last_filtered: None,
            zero_candidate_since_ms: None,
        }
    }
}

/// The filter: its tuning and its memory.
#[derive(Debug, Clone, Copy)]
pub struct AngleReliability {
    pub config: AngleReliabilityConfig,
    pub state: AngleReliabilityState,
}

impl Default for AngleReliability {
    /// Default tuning, nothing seen yet.
    fn default() -> (f: Self)
        ensures
            f.config.zero_eps_decideg == 2,
            f.config.zero_confirm_ms == 650,
            f.config.valid_range_decideg == 36_864_000,
            f.state.last_good is None,
            f.state.last_raw is None,
            f.state.last_filtered is None,
            f.state.zero_candidate_since_ms is None,
    {
        AngleReliability {
            config: AngleReliabilityConfig::default(),
            state: AngleReliabilityState::default(),
        }
    }
}

/// Magnitude of a reading.
pub open spec fn magnitude(raw: i32) -> int {
    if raw < 0 {
        -raw
    } else {
        raw as int
    }
}

/// The reading is within the near-zero band.
pub open spec fn near_zero(config: AngleReliabilityConfig, raw: i32) -> bool {
    magnitude(raw) <= config.zero_eps_decideg
}

/// The reading is within the valid range.
pub open spec fn in_range(config: AngleReliabilityConfig, raw: i32) -> bool {
    magnitude(raw) <= config.valid_range_decideg
}

/// Start of the run of near-zero readings that a near-zero reading at `now`
/// belongs to.
pub open spec fn zero_run_start(state: AngleReliabilityState, now_ms: u64) -> u64 {
    match state.zero_candidate_since_ms {
        Some(t) => t,
        None => now_ms,
    }
}

/// Near-zero readings have lasted long enough for one at `now` to be accepted.
pub open spec fn zero_confirmed(
    config: AngleReliabilityConfig,
    state: AngleReliabilityState,
    now_ms: u64,
) -> bool {
    let start = zero_run_start(state, now_ms);
    let elapsed: int = if now_ms >= start {
        now_ms - start
    } else {
        0
    };
    elapsed >= config.zero_confirm_ms
}

/// One step of the filter: the new memory and the returned `(angle, reliable)`.
///
/// - Out of range: hold the last good angle (0 when there is none),
///   unreliable; the near-zero run is broken.
/// - Near zero: start or continue a near-zero run; once it has lasted
///   `zero_confirm_ms` the reading is accepted and the run ends, before that the
///   last good angle (0 when none) is held, unreliable.
/// - Otherwise the reading is accepted and the near-zero run is broken.
///
/// A near-zero reading is therefore accepted only after near-zero readings
/// have followed each other, with nothing else between, for `zero_confirm_ms`.
pub open spec fn filter_step(
    config: AngleReliabilityConfig,
    state: AngleReliabilityState,
    raw: i32,
    now_ms: u64,
) -> (AngleReliabilityState, (i32, bool)) {
    let seen = AngleReliabilityState { last_raw: Some(raw), ..state };
    let held = held_angle(state);
    if !in_range(config, raw) {
        (
            AngleReliabilityState {
                zero_candidate_since_ms: None,
                last_filtered: Some(held),
                ..seen
            },
            (held, false),
        )
    } else if near_zero(config, raw) && !zero_confirmed(config, state, now_ms) {
        (
            AngleReliabilityState {
                zero_candidate_since_ms: Some(zero_run_start(state, now_ms)),
                last_filtered: Some(held),
                ..seen
            },
            (held, false),
        )
    } else {
        (
            AngleReliabilityState {
                last_good: Some(raw),
                last_filtered: Some(raw),
                zero_candidate_since_ms: None,
                ..seen
            },
            (raw, true),
        )
    }
}

/// The system clock's current time.
///
/// Calls `std::time::SystemTime::now`; nothing is claimed about the value.
#[verifier::external_body]
fn system_time_now() -> std::time::SystemTime {
    std::time::SystemTime::now()
}

/// The time from the Unix epoch to `t`, or `None` when `t` is before it.
///
/// Calls `std::time::SystemTime::duration_since` with `UNIX_EPOCH`; nothing is
/// claimed about the value.
#[verifier::external_body]
fn since_unix_epoch(t: std::time::SystemTime) -> Option<std::time::Duration> {
    match t.duration_since(std::time::UNIX_EPOCH) {
        Ok(d) => Some(d),
        Err(_) => None,
    }
}

/// Whole milliseconds of a duration.
///
/// Calls `std::time::Duration::as_millis`; nothing is claimed about the value.
#[verifier::external_body]
fn duration_millis(d: std::time::Duration) -> u128 {
    d.as_millis()
}

/// The current time in milliseconds since the Unix epoch by the system clock
/// (0 when the clock is set before the epoch, the low 64 bits otherwise).
pub fn now_millis() -> u64 {
    match since_unix_epoch(system_time_now()) {
        Some(d) => {
            let ms = duration_millis(d);
            #[verifier::truncate]
            (ms as u64)
        },
        None => 0,
    }
}

impl AngleReliability {
    /// Filters one reading taken now (by the system clock).
    pub fn filter(&mut self, raw: i32) -> (r: (i32, bool))
        ensures
            final(self).config == old(self).config,
            exists|now_ms: u64|
                (#[trigger] filter_step(old(self).config, old(self).state, raw, now_ms)) == (
                    final(self).state,
                    r,
                ),
    {
        let now = now_millis();
        self.filter_at(raw, now)
    }

    /// Filters one reading taken at `now_ms`.
    pub fn filter_at(&mut self, raw: i32, now_ms: u64) -> (r: (i32, bool))
        ensures
            final(self).config == old(self).config,
            (final(self).state, r) == filter_step(old(self).config, old(self).state, raw, now_ms),
            // A reliable output is the reading itself and becomes the last good angle.
            r.1 ==> r.0 == raw && final(self).state.last_good == Some(raw),
            // An unreliable output holds the last good angle, or 0 before any.
            !r.1 ==> r.0 == held_angle(old(self).state)
                && final(self).state.last_good == old(self).state.last_good,
            // Readings in range and away from zero are never delayed, and break
            // any near-zero run.
            in_range(old(self).config, raw) && !near_zero(old(self).config, raw) ==> r == (raw, true)
                && final(self).state.zero_candidate_since_ms is None,
            // Out-of-range readings are never accepted, and break any near-zero run.
            !in_range(old(self).config, raw) ==> !r.1 && final(self).state.zero_candidate_since_ms is None,
            final(self).state.last_raw == Some(raw),
            final(self).state.last_filtered == Some(r.0),
    {
        let cfg = self.config;
        self.state.last_raw = Some(raw);
        let mag: u32 = if raw < 0 {
            (-(raw as i64)) as u32
        } else {
            raw as u32
        };
        let is_near_zero = mag <= cfg.zero_eps_decideg;
        let is_in_range = mag <= cfg.valid_range_decideg;
        let held: i32 = match self.state.last_good {
            Some(g) => g,
            None => 0,
        };
        if !is_in_range {
            self.state.zero_candidate_since_ms = None;
            self.state.last_filtered = Some(held);
            return (held, false);
        }
        if is_near_zero {
            let started: u64 = match self.state.zero_candidate_since_ms {
                Some(t) => t,
                None => now_ms,
            };
            let elapsed: u64 = if now_ms >= started {
                now_ms - started
            } else {
                0
            };
            if elapsed < cfg.zero_confirm_ms {
                self.state.zero_candidate_since_ms = Some(started);
                self.state.last_filtered = Some(held);
                return (held, false);
            }
        }
        self.state.zero_candidate_since_ms = None;
        self.state.last_good = Some(raw);
        self.state.last_filtered = Some(raw);
        (raw, true)
    }
}

/// The angle the filter holds while it does not accept a reading.
pub open spec fn held_angle(state: AngleReliabilityState) -> i32 {
    match state.last_good {
        Some(g) => g,
        None => 0,
    }
}

/// Law (the `A -> 0 -> B` guard): a run of near-zero readings starting at
/// `t0` is held back, returning the last good angle as unreliable, until it
/// has lasted `zero_confirm_ms`; from then on the near-zero reading is accepted.
pub proof fn lemma_zero_run_needs_confirmation(
    config: AngleReliabilityConfig,
    state: AngleReliabilityState,
    z0: i32,
    t0: u64,
    z1: i32,
    t1: u64,
)
    requires
        config.zero_eps_decideg <= config.valid_range_decideg,
        config.zero_confirm_ms > 0,
        state.zero_candidate_since_ms is None,
        near_zero(config, z0),
        near_zero(config, z1),
        t0 <= t1,
    ensures
        filter_step(config, state, z0, t0).1 == (held_angle(state), false),
        t1 - t0 < config.zero_confirm_ms ==> filter_step(
            config,
            filter_step(config, state, z0, t0).0,
            z1,
            t1,
        ).1 == (held_angle(state), false),
        t1 - t0 >= config.zero_confirm_ms ==> filter_step(
            config,
            filter_step(config, state, z0, t0).0,
            z1,
            t1,
        ).1 == (z1, true),
{
}

/// Law: a reading away from zero ends a run of near-zero readings, so the
/// next near-zero reading starts a new run at its own time and is held back.
pub proof fn lemma_zero_run_restarts_after_motion(
    config: AngleReliabilityConfig,
    state: AngleReliabilityState,
    b: i32,
    tb: u64,
    z: i32,
    tz: u64,
)
    requires
        config.zero_eps_decideg <= config.valid_range_decideg,
        config.zero_confirm_ms > 0,
        in_range(config, b),
        !near_zero(config, b),
        near_zero(config, z),
    ensures
        filter_step(config, state, b, tb).1 == (b, true),
        filter_step(config, filter_step(config, state, b, tb).0, z, tz).1 == (b, false),
        filter_step(config, filter_step(config, state, b, tb).0, z, tz).0.zero_candidate_since_ms
            == Some(tz),
{
}

/// Law: out-of-range readings never move the held angle, however many arrive,
/// they break a near-zero run, and the first in-range reading away from zero
/// is accepted at once.
pub proof fn lemma_out_of_range_holds(
    config: AngleReliabilityConfig,
    state: AngleReliabilityState,
    bad: i32,
    t: u64,
    b: i32,
    tb: u64,
)
    requires
        !in_range(config, bad),
        in_range(config, b),
        !near_zero(config, b),
    ensures
        filter_step(config, state, bad, t).1 == (held_angle(state), false),
        filter_step(config, state, bad, t).0.last_good == state.last_good,
        filter_step(config, state, bad, t).0.zero_candidate_since_ms is None,
        filter_step(config, filter_step(config, state, bad, t).0, b, tb).1 == (b, true),
{
}

} // verus!
