//! The FashionStar UART smart-servo protocol and the controller logic around it.

pub mod controller;
pub mod protocol;
pub mod replies;
