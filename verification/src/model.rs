//! Shared model types.
use vstd::prelude::*;

verus! {

/// Bus address of a servo.
pub type ServoId = u8;

} // verus!

verus! {

/// An angle reading: the raw protocol value, the reliability-filtered value
/// and whether the filtered value is a fresh reading (`true`) or held from
/// the last good one (`false`). Angles are in tenths of a degree.
#[derive(Debug, Clone, Copy, PartialEq, Eq, Structural)]
pub struct AngleSample {
    pub raw_decideg: i32,
    pub filtered_decideg: i32,
    pub reliable: bool,
}

} // verus!

verus! {

/// What is known of one servo: whether it answered and its angle in tenths
/// of a degree, if read.
#[derive(Debug, Clone, Copy)]
pub struct SmartServoInfo {
    pub id: ServoId,
    pub online: bool,
    pub angle_decideg: Option<i32>,
}

impl Default for SmartServoInfo {
    /// Servo 0, offline, angle unknown.
    fn default() -> (i: Self)
        ensures
            i.id == 0,
            !i.online,
            i.angle_decideg is None,
    {
        SmartServoInfo { id: 0, online: false, angle_decideg: None }
    }
}

} // verus!
