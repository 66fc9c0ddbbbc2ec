//! Serial bus settings and the loop that collects reply bytes from it.
use vstd::prelude::*;

use crate::error::{ServoResult, SmartServoError};

verus! {

/// How to open a serial bus.
#[derive(Debug, Clone)]
pub struct SerialBusConfig {
    pub port: String,
    pub baudrate: u32,
    /// Overall time allowed for one reply, in milliseconds.
    pub timeout_ms: u64,
    /// Time one read of the port may block, in milliseconds; a read that
    /// times out after data arrived marks the end of a single reply.
    pub read_timeout_ms: u64,
}

impl SerialBusConfig {
    /// Settings for `port` at `baudrate`, with a 100 ms reply timeout and
    /// 10 ms reads.
    pub fn new(port: String, baudrate: u32) -> (c: Self)
        ensures
            c.port == port,
            c.baudrate == baudrate,
            c.timeout_ms == 100,
            c.read_timeout_ms == 10,
    {
        SerialBusConfig { port, baudrate, timeout_ms: 100, read_timeout_ms: 10 }
    }
}

/// What one read of the port produced.
pub enum ReadEvent {
    /// Bytes arrived.
    Received(Vec<u8>),
    /// The read returned without data.
    Empty,
    /// The read timed out.
    TimedOut,
    /// The read was interrupted.
    Interrupted,
}

/// Whether to read again.
#[derive(Debug, Clone, Copy, PartialEq, Eq, Structural)]
pub enum ReadStep {
    Continue,
    Done,
}

/// When the bytes read so far make a complete answer.
pub trait ReplyGoal {
    /// `buf` is a complete answer.
    spec fn reached(&self, buf: Seq<u8>) -> bool;

    /// Decides whether `buf` is a complete answer.
    fn is_reached(&self, buf: &[u8]) -> (r: bool)
        ensures
            r == self.reached(buf@),
    ;
}

/// Collects reply bytes until the goal is reached or, with `idle_gap`, until
/// the line goes quiet after some data. The caller stops it when the overall
/// timeout passes; a read error other than timeout or interruption ends the
/// read with that error, outside this state.
pub struct ReplyReader {
    pub out: Vec<u8>,
    pub idle_gap: bool,
}

impl ReplyReader {
    /// Nothing read yet.
    pub fn new(idle_gap: bool) -> (r: Self)
        ensures
            r.out@ == Seq::<u8>::empty(),
            r.idle_gap == idle_gap,
    {
        ReplyReader { out: Vec::new(), idle_gap }
    }

    /// Takes in one read's outcome: received bytes are appended, and reading
    /// is done once the goal is reached; a timeout ends an idle-gap read that
    /// has data; anything else reads on.
    pub fn on_event<G: ReplyGoal>(&mut self, event: ReadEvent, goal: &G) -> (step: ReadStep)
        ensures
            final(self).idle_gap == old(self).idle_gap,
            match event {
                ReadEvent::Received(bytes) => bytes@.len() > 0 ==> {
                    &&& final(self).out@ == old(self).out@ + bytes@
                    &&& (step == ReadStep::Done <==> goal.reached(final(self).out@))
                },
                ReadEvent::TimedOut => {
                    &&& final(self).out@ == old(self).out@
                    &&& (step == ReadStep::Done <==> (old(self).idle_gap && old(self).out@.len()
                        > 0))
                },
                _ => final(self).out@ == old(self).out@ && step == ReadStep::Continue,
            },
            (event matches ReadEvent::Received(bytes) && bytes@.len() == 0) ==> (final(self).out@
                == old(self).out@ && step == ReadStep::Continue),
    {
        match event {
            ReadEvent::Received(bytes) => {
                if bytes.len() == 0 {
                    return ReadStep::Continue;
                }
                self.out.extend_from_slice(bytes.as_slice());
                if goal.is_reached(self.out.as_slice()) {
                    ReadStep::Done
                } else {
                    ReadStep::Continue
                }
            },
            ReadEvent::TimedOut => {
                if self.idle_gap && self.out.len() > 0 {
                    ReadStep::Done
                } else {
                    ReadStep::Continue
                }
            },
            _ => ReadStep::Continue,
        }
    }

    /// The bytes read, or `Timeout` when none arrived.
    pub fn finish(self) -> (r: ServoResult<Vec<u8>>)
        ensures
            self.out@.len() == 0 ==> r matches Err(SmartServoError::Timeout),
            self.out@.len() > 0 ==> (r matches Ok(v) && v@ == self.out@),
    {
        if self.out.len() == 0 {
            Err(SmartServoError::Timeout)
        } else {
            Ok(self.out)
        }
    }
}

} // verus!
