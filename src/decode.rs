//! The read path: each rising edge starts a bit that is sampled three and six
//! delay units later; a line still high at the second sample ends the byte.
use vstd::prelude::*;
use crate::edge::{EdgeDetector, is_rising, tracked_after};
use crate::error::Error;

verus! {

/// The next thing the caller does to the line while reading a byte.
#[derive(Debug, Clone, Copy, PartialEq, Eq)]
pub enum ReadAction {
    /// Read the level of the line now and report it.
    Poll,
    /// Wait the given number of delay units, then read the level and report it.
    SampleAfter(u8),
    /// The read is over with this result; the line goes back to its owner.
    Finish(Result<u8, Error>),
}

/// Where the decoder is within a bit.
#[derive(Debug, Clone, Copy, PartialEq, Eq)]
pub enum DecodeStage {
    /// Waiting for a rising edge.
    Polling,
    /// An edge was seen; the first sample is due.
    First,
    /// The first sample read the given level; the second sample is due.
    Second(bool),
    /// The read has ended with this result.
    Finished(Result<u8, Error>),
}

/// The decoder's state as a value: the level tracked by its edge detector,
/// the bits gathered so far and the stage.
pub struct DecodeState {
    /// The level tracked by the edge detector.
    pub last: bool,
    /// The bits gathered so far, the latest at the low end.
    pub data: u8,
    /// Where the decoder is within a bit.
    pub stage: DecodeStage,
}

/// The byte after shifting in one more bit at the low end.
pub open spec fn shift_in(data: u8, bit: bool) -> u8 {
    ((2 * data + (if bit { 1int } else { 0int })) % 256) as u8
}

/// One step of the decoder: the state and the action that follow a read of
/// the line that gave `level` (`None` when the read failed).
pub open spec fn decode_step(s: DecodeState, level: Option<bool>) -> (DecodeState, ReadAction) {
    match s.stage {
        DecodeStage::Polling => {
            let next = DecodeState { last: tracked_after(s.last, level), ..s };
            if is_rising(s.last, level) {
                (DecodeState { stage: DecodeStage::First, ..next }, ReadAction::SampleAfter(3))
            } else {
                (next, ReadAction::Poll)
            }
        },
        DecodeStage::First => match level {
            Some(tmp) => (DecodeState { stage: DecodeStage::Second(tmp), ..s }, ReadAction::SampleAfter(3)),
            None => (
                DecodeState { stage: DecodeStage::Finished(Err(Error::IO)), ..s },
                ReadAction::Finish(Err(Error::IO)),
            ),
        },
        DecodeStage::Second(tmp) => match level {
            Some(true) => (
                DecodeState { stage: DecodeStage::Finished(Ok(s.data)), ..s },
                ReadAction::Finish(Ok(s.data)),
            ),
            Some(false) => (
                DecodeState { data: shift_in(s.data, tmp), stage: DecodeStage::Polling, ..s },
                ReadAction::Poll,
            ),
            None => (
                DecodeState { stage: DecodeStage::Finished(Err(Error::IO)), ..s },
                ReadAction::Finish(Err(Error::IO)),
            ),
        },
        DecodeStage::Finished(r) => (s, ReadAction::Finish(r)),
    }
}

/// The state in which a read starts, given what the first read of the line
/// gave (a failed read counts as low).
pub open spec fn decode_start(level: Option<bool>) -> DecodeState {
    DecodeState { last: crate::edge::level_or_low(level), data: 0, stage: DecodeStage::Polling }
}

/// Drives one read of a byte from a line in input capability.
pub struct Decoder<T> {
    edge: EdgeDetector<T>,
    data: u8,
    stage: DecodeStage,
}

impl<T> Decoder<T> {
    /// The decoder's state as a value.
    pub closed spec fn state(&self) -> DecodeState {
        DecodeState { last: self.edge.last_level(), data: self.data, stage: self.stage }
    }

    /// The line being read.
    pub closed spec fn held(&self) -> T {
        self.edge.held()
    }

    /// Starts a read on `pin`; `level` is what an immediate read of it gave.
    /// The first action is a poll.
    pub fn new(pin: T, level: Option<bool>) -> (r: Self)
        ensures
            r.state() == decode_start(level),
            r.held() == pin,
    {
        Decoder { edge: EdgeDetector::new(pin, level), data: 0, stage: DecodeStage::Polling }
    }

    /// The line being read, to read its level.
    pub fn pin(&self) -> (r: &T)
        ensures
            *r == self.held(),
    {
        self.edge.pin()
    }

    /// Takes the result of the read that the previous action asked for and
    /// returns the next action.
    pub fn step(&mut self, level: Option<bool>) -> (r: ReadAction)
        ensures
            (final(self).state(), r) == decode_step(old(self).state(), level),
            final(self).held() == old(self).held(),
    {
        match self.stage {
            DecodeStage::Polling => {
                if self.edge.risig_edge(level) {
                    self.stage = DecodeStage::First;
                    ReadAction::SampleAfter(3)
                } else {
                    ReadAction::Poll
                }
            },
            DecodeStage::First => match level {
                Some(tmp) => {
                    self.stage = DecodeStage::Second(tmp);
                    ReadAction::SampleAfter(3)
                },
                None => {
                    self.stage = DecodeStage::Finished(Err(Error::IO));
                    ReadAction::Finish(Err(Error::IO))
                },
            },
            DecodeStage::Second(tmp) => match level {
                Some(true) => {
                    self.stage = DecodeStage::Finished(Ok(self.data));
                    ReadAction::Finish(Ok(self.data))
                },
                Some(false) => {
                    let d = self.data;
                    let t: u8 = if tmp { 1 } else { 0 };
                    let next = (d << 1u8) | t;
                    assert(next == ((2 * d + t) % 256) as u8) by (bit_vector)
                        requires
                            next == (d << 1u8) | t,
                            t < 2,
                    ;
                    self.data = next;
                    self.stage = DecodeStage::Polling;
                    ReadAction::Poll
                },
                None => {
                    self.stage = DecodeStage::Finished(Err(Error::IO));
                    ReadAction::Finish(Err(Error::IO))
                },
            },
            DecodeStage::Finished(r) => ReadAction::Finish(r),
        }
    }

    /// Gives the line back.
    pub fn release(self) -> (r: T)
        ensures
            r == self.held(),
    {
        self.edge.release()
    }
}

} // verus!
