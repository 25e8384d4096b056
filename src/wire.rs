//! Exclusive ownership of the line and the conversions between its capabilities.
use vstd::prelude::*;
use crate::error::Error;

verus! {

/// What a presence probe does: whether it waits one delay unit, and its result.
/// Success means the line is held and reads low (a peer asserts the start
/// condition); a high line is `NoResponse`, a line not held is `Unavailable`.
pub open spec fn presence_outcome(held: bool, level: Option<bool>) -> (bool, Result<(), Error>) {
    if !held {
        (true, Err(Error::Unavailable))
    } else {
        match level {
            None => (false, Err(Error::IO)),
            Some(true) => (true, Err(Error::NoResponse)),
            Some(false) => (false, Ok(())),
        }
    }
}

/// Owns one GPIO line, held in input capability between operations, together
/// with the conversions to and from output capability and the delay unit.
#[verifier::reject_recursive_types(I)]
#[verifier::reject_recursive_types(O)]
pub struct HalfDuplexWire<F2, F1, I, O, T> where F1: Fn(O) -> I, F2: Fn(I) -> O {
    pin: Option<I>,
    into_input: F1,
    into_output: F2,
    delay: T,
}

impl<F2, F1, I, O, T: Copy> HalfDuplexWire<F2, F1, I, O, T> where F1: Fn(O) -> I, F2: Fn(I) -> O {
    /// The line in the slot, if it is held.
    pub closed spec fn slot(&self) -> Option<I> {
        self.pin
    }

    /// The configured delay unit.
    pub closed spec fn unit(&self) -> T {
        self.delay
    }

    /// The conversion to output capability.
    pub closed spec fn output_conversion(&self) -> F2 {
        self.into_output
    }

    /// The conversion back to input capability.
    pub closed spec fn input_conversion(&self) -> F1 {
        self.into_input
    }

    /// Takes a line already in input capability; performs no I/O.
    pub fn new(pin: I, into_output: F2, into_input: F1, delay: T) -> (r: Self)
        ensures
            r.slot() == Some(pin),
            r.unit() == delay,
            r.output_conversion() == into_output,
            r.input_conversion() == into_input,
    {
        HalfDuplexWire { pin: Some(pin), into_input, into_output, delay }
    }

    /// Takes the line out of the slot for the duration of an operation.
    pub fn take_pin(&mut self) -> (r: Result<I, Error>)
        ensures
            match old(self).slot() {
                Some(p) => r == Ok::<I, Error>(p),
                None => r == Err::<I, Error>(Error::Unavailable),
            },
            final(self).slot() == None::<I>,
            final(self).unit() == old(self).unit(),
            final(self).output_conversion() == old(self).output_conversion(),
            final(self).input_conversion() == old(self).input_conversion(),
    {
        match self.pin.take() {
            Some(p) => Ok(p),
            None => Err(Error::Unavailable),
        }
    }

    /// Puts the line, in input capability, back into the slot.
    pub fn bring_back_pin(&mut self, pin: I)
        ensures
            final(self).slot() == Some(pin),
            final(self).unit() == old(self).unit(),
            final(self).output_conversion() == old(self).output_conversion(),
            final(self).input_conversion() == old(self).input_conversion(),
    {
        self.pin = Some(pin);
    }

    /// The line in the slot, to read its level without taking it.
    pub fn pin(&self) -> (r: Option<&I>)
        ensures
            match self.slot() {
                Some(p) => r == Some(&p),
                None => r == None::<&I>,
            },
    {
        match &self.pin {
            Some(p) => Some(p),
            None => None,
        }
    }

    /// The delay unit used for every timed wait.
    pub fn delay_unit(&self) -> (r: T)
        ensures
            r == self.unit(),
    {
        self.delay
    }

    /// Converts a taken line to output capability with the configured conversion.
    pub fn to_output(&self, pin: I) -> (r: O)
        requires
            self.output_conversion().requires((pin,)),
        ensures
            self.output_conversion().ensures((pin,), r),
    {
        (self.into_output)(pin)
    }

    /// Converts a line in output capability back to input capability.
    pub fn to_input(&self, pin: O) -> (r: I)
        requires
            self.input_conversion().requires((pin,)),
        ensures
            self.input_conversion().ensures((pin,), r),
    {
        (self.into_input)(pin)
    }

    /// Ends the session and hands the line back.
    pub fn release(self) -> (r: Result<I, Error>)
        ensures
            match self.slot() {
                Some(p) => r == Ok::<I, Error>(p),
                None => r == Err::<I, Error>(Error::Unavailable),
            },
    {
        match self.pin {
            Some(p) => Ok(p),
            None => Err(Error::Unavailable),
        }
    }

    /// Decides a presence probe. `level` is what a read of the held line gave
    /// (`None` when the read failed; not consulted when the line is not held).
    /// The first component says whether one delay unit is waited before
    /// the result is returned.
    pub fn presence(&self, level: Option<bool>) -> (r: (bool, Result<(), Error>))
        ensures
            r == presence_outcome(self.slot() is Some, level),
    {
        match &self.pin {
            Some(_) => match level {
                None => (false, Err(Error::IO)),
                Some(true) => (true, Err(Error::NoResponse)),
                Some(false) => (false, Ok(())),
            },
            None => (true, Err(Error::Unavailable)),
        }
    }
}

/// A probe of a held line succeeds exactly when the line reads low, and
/// answers `NoResponse` after exactly one delay unit exactly when it reads high.
pub proof fn lemma_presence(level: Option<bool>)
    ensures
        presence_outcome(true, level).1 is Ok <==> level == Some(false),
        presence_outcome(true, level) == (true, Err::<(), Error>(Error::NoResponse)) <==> level == Some(true),
{
}

/// On an owner whose slot is empty a probe waits one delay unit and answers
/// `Unavailable`, whatever the level.
pub proof fn lemma_probe_empty_slot(level: Option<bool>)
    ensures
        presence_outcome(false, level) == (true, Err::<(), Error>(Error::Unavailable)),
{
}

} // verus!
