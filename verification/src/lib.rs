//! Control stack for serial-bus smart servos: packet framing, checksums,
//! command encoders and reply decoders for the FashionStar UART protocol,
//! the angle reliability filter, per-servo loss tracking and the decision
//! logic that a bus driver runs around each request and reply.
//!
//! Angles are carried as signed integers in tenths of a degree, which is the
//! unit of every angle field on the wire; times are in milliseconds.

pub mod bus;
pub mod bytes;
pub mod error;
pub mod fashionstar;
pub mod loss;
pub mod model;
pub mod reliability;
pub mod vendor;

pub use error::{ServoResult, SmartServoError};
