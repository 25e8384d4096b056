//! The write path: a start handshake, then eight pulse-width encoded bits,
//! most significant first.
use vstd::prelude::*;
use crate::error::Error;

verus! {

/// What the caller observed while performing the previous action.
#[derive(Debug, Clone, Copy, PartialEq, Eq, Structural)]
pub enum LineEvent {
    /// A non-sampling action was carried out.
    Completed,
    /// A sample read the line; `true` is high.
    Level(bool),
    /// A sample failed to read the line.
    ReadFailed,
}

/// The next thing the caller does to the line while writing a byte.
#[derive(Debug, Clone, Copy, PartialEq, Eq)]
pub enum WriteAction {
    /// Wait the given number of delay units, then read the level of the line
    /// and report it.
    SampleAfter(u8),
    /// Convert the line to output capability.
    ToOutput,
    /// Drive the line to the level (`true` is high), then wait the given
    /// number of delay units.
    Drive(bool, u8),
    /// Convert the line back to input capability.
    ToInput,
    /// The write is over with this result; the line, in input capability,
    /// goes back to its owner.
    Finish(Result<(), Error>),
}

/// Bit `i` of `data`, counting from the most significant bit (`i` in `0..8`).
pub open spec fn msb_bit(data: u8, i: int) -> bool {
    (data >> ((7 - i) as u8)) & 1u8 == 1u8
}

/// The symbol of one bit: a long high phase for one, a short one for zero.
pub open spec fn bit_pulse(bit: bool) -> Seq<WriteAction> {
    if bit {
        seq![WriteAction::Drive(true, 4), WriteAction::Drive(false, 4)]
    } else {
        seq![WriteAction::Drive(true, 2), WriteAction::Drive(false, 6)]
    }
}

/// The symbols of the first `n` bits of `data`, most significant first.
pub open spec fn bit_pulses(data: u8, n: nat) -> Seq<WriteAction>
    decreases n,
{
    if n == 0 {
        Seq::empty()
    } else {
        bit_pulses(data, (n - 1) as nat) + bit_pulse(msb_bit(data, n - 1))
    }
}

/// The actions before the first bit: two busy checks four units apart, then
/// the start condition (low for four units).
pub open spec fn write_header() -> Seq<WriteAction> {
    seq![
        WriteAction::SampleAfter(0),
        WriteAction::SampleAfter(4),
        WriteAction::ToOutput,
        WriteAction::Drive(false, 4),
    ]
}

/// Every action of an uncontended write of `data`, in order.
pub open spec fn write_script(data: u8) -> Seq<WriteAction> {
    write_header() + bit_pulses(data, 8) + seq![WriteAction::ToInput, WriteAction::Finish(Ok(()))]
}

/// The number of actions in an uncontended write.
pub const SCRIPT_LEN: usize = 22;

/// The result with which a busy check ends the write, if it does: a low line
/// is `Busy`, a failed or missing sample is `IO`.
pub open spec fn check_failure(event: LineEvent) -> Option<Error> {
    match event {
        LineEvent::Level(true) => None,
        LineEvent::Level(false) => Some(Error::Busy),
        _ => Some(Error::IO),
    }
}

/// Whether the action issued at `pos - 1` was a busy check.
pub open spec fn follows_check(pos: int) -> bool {
    pos == 1 || pos == 2
}

proof fn lemma_bit_pulses_len(data: u8, n: nat)
    ensures
        bit_pulses(data, n).len() == 2 * n,
    decreases n,
{
    if n > 0 {
        lemma_bit_pulses_len(data, (n - 1) as nat);
    }
}

proof fn lemma_bit_pulses_index(data: u8, n: nat, j: int)
    requires
        0 <= j < 2 * n,
    ensures
        bit_pulses(data, n).len() == 2 * n,
        bit_pulses(data, n)[j] == bit_pulse(msb_bit(data, j / 2))[j % 2],
    decreases n,
{
    lemma_bit_pulses_len(data, n);
    lemma_bit_pulses_len(data, (n - 1) as nat);
    if j < 2 * (n - 1) {
        lemma_bit_pulses_index(data, (n - 1) as nat, j);
    }
}

/// Drives one write of a byte: each call takes what the caller observed
/// while performing the previous action and returns the next action.
pub struct Encoder {
    data: u8,
    pos: usize,
    outcome: Option<Result<(), Error>>,
}

impl Encoder {
    /// The byte being written.
    pub closed spec fn byte(&self) -> u8 {
        self.data
    }

    /// How many actions of the script have been issued.
    pub closed spec fn issued(&self) -> nat {
        self.pos as nat
    }

    /// The result once the write has ended.
    pub closed spec fn result(&self) -> Option<Result<(), Error>> {
        self.outcome
    }

    /// The encoder's internal consistency.
    pub closed spec fn wf(&self) -> bool {
        &&& self.pos <= SCRIPT_LEN
        &&& (self.outcome is None ==> self.pos < SCRIPT_LEN)
    }

    /// Starts a write of `data`; no action has been issued yet.
    pub fn new(data: u8) -> (r: Self)
        ensures
            r.wf(),
            r.byte() == data,
            r.issued() == 0,
            r.result() is None,
    {
        Encoder { data, pos: 0, outcome: None }
    }

    /// The action at `pos` of the script of an uncontended write.
    fn script_action(&self, pos: usize) -> (r: WriteAction)
        requires
            pos < SCRIPT_LEN,
        ensures
            r == write_script(self.data)[pos as int],
    {
        proof {
            lemma_bit_pulses_len(self.data, 8);
            assert(write_script(self.data).len() == SCRIPT_LEN);
        }
        if pos == 0 {
            WriteAction::SampleAfter(0)
        } else if pos == 1 {
            WriteAction::SampleAfter(4)
        } else if pos == 2 {
            WriteAction::ToOutput
        } else if pos == 3 {
            WriteAction::Drive(false, 4)
        } else if pos < 20 {
            let k: usize = pos - 4;
            let b: u8 = (k / 2) as u8;
            let data = self.data;
            let one = data & (0x80u8 >> b) != 0;
            proof {
                lemma_bit_pulses_index(data, 8, k as int);
                assert(one == ((data >> ((7 - b) as u8)) & 1u8 == 1u8)) by (bit_vector)
                    requires
                        b < 8,
                        one == (data & (0x80u8 >> b) != 0),
                ;
                assert(write_script(data)[pos as int] == bit_pulses(data, 8)[k as int]);
            }
            if k % 2 == 0 {
                if one { WriteAction::Drive(true, 4) } else { WriteAction::Drive(true, 2) }
            } else {
                if one { WriteAction::Drive(false, 4) } else { WriteAction::Drive(false, 6) }
            }
        } else if pos == 20 {
            WriteAction::ToInput
        } else {
            WriteAction::Finish(Ok(()))
        }
    }

    /// Takes what was observed while performing the previous action (the
    /// first call's event is not consulted) and returns the next action.
    /// After a busy check, anything but a high level ends the write.
    pub fn step(&mut self, event: LineEvent) -> (r: WriteAction)
        requires
            old(self).wf(),
        ensures
            final(self).wf(),
            final(self).byte() == old(self).byte(),
            old(self).result() matches Some(res) ==> r == WriteAction::Finish(res) && *final(self) == *old(self),
            old(self).result() is None && follows_check(old(self).issued() as int) && check_failure(event) is Some
                ==> r == WriteAction::Finish(Err(check_failure(event)->0))
                    && final(self).result() == Some(Err::<(), Error>(check_failure(event)->0)),
            old(self).result() is None && !(follows_check(old(self).issued() as int) && check_failure(event) is Some)
                ==> r == write_script(old(self).byte())[old(self).issued() as int]
                    && final(self).issued() == old(self).issued() + 1
                    && final(self).result() == (if final(self).issued() == SCRIPT_LEN {
                        Some(Ok::<(), Error>(()))
                    } else {
                        None::<Result<(), Error>>
                    }),
    {
        if let Some(res) = self.outcome {
            return WriteAction::Finish(res);
        }
        if self.pos == 1 || self.pos == 2 {
            let failure = match event {
                LineEvent::Level(true) => None,
                LineEvent::Level(false) => Some(Error::Busy),
                _ => Some(Error::IO),
            };
            if let Some(e) = failure {
                self.outcome = Some(Err(e));
                return WriteAction::Finish(Err(e));
            }
        }
        let a = self.script_action(self.pos);
        self.pos = self.pos + 1;
        if self.pos == SCRIPT_LEN {
            self.outcome = Some(Ok(()));
        }
        a
    }
}

/// A busy check that reads low ends the write with `Busy`, and every action
/// issued before it was a busy check: the line has been neither converted to
/// output nor driven, so it goes back to its owner in input capability.
pub proof fn lemma_busy_keeps_input(data: u8, pos: int)
    requires
        follows_check(pos),
    ensures
        check_failure(LineEvent::Level(false)) == Some(Error::Busy),
        forall|k: int| 0 <= k < pos ==> #[trigger] write_script(data)[k] is SampleAfter,
{
    lemma_bit_pulses_len(data, 8);
    assert(write_script(data)[0] == WriteAction::SampleAfter(0));
    assert(write_script(data)[1] == WriteAction::SampleAfter(4));
}

} // verus!
