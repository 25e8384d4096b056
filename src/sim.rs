//! A simulated line shared by a writer and a reader, and the round trip of a
//! byte through it.
use vstd::prelude::*;
use crate::encode::{WriteAction, bit_pulse, bit_pulses, msb_bit, write_header, write_script};
use crate::decode::{DecodeStage, DecodeState, ReadAction, decode_start, decode_step, shift_in};
use crate::error::Error;

verus! {

/// The levels that one action puts on the line, one per delay unit.
pub open spec fn levels_of(a: WriteAction) -> Seq<bool> {
    match a {
        WriteAction::Drive(level, n) => Seq::new(n as nat, |i: int| level),
        _ => Seq::empty(),
    }
}

/// The levels that a sequence of write actions puts on the line, one per
/// delay unit.
pub open spec fn waveform(actions: Seq<WriteAction>) -> Seq<bool>
    decreases actions.len(),
{
    if actions.len() == 0 {
        Seq::empty()
    } else {
        waveform(actions.drop_last()) + levels_of(actions.last())
    }
}

/// The level of a simulated line at unit `t`: the waveform while it lasts,
/// then high, as a released line is pulled up.
pub open spec fn line_at(line: Seq<bool>, t: int) -> bool {
    if 0 <= t < line.len() {
        line[t]
    } else {
        true
    }
}

/// What a reader whose state is `s` and whose pending action is `action`
/// returns on the simulated line from unit `t`, within `fuel` steps. The line
/// changes only at unit boundaries; a poll that finds no edge lets one unit
/// pass, and a sample after `n` units reads the level `n` units later.
pub open spec fn run_decoder(s: DecodeState, action: ReadAction, line: Seq<bool>, t: nat, fuel: nat) -> Option<
    Result<u8, Error>,
>
    decreases fuel,
{
    if fuel == 0 {
        None
    } else {
        match action {
            ReadAction::Finish(r) => Some(r),
            ReadAction::Poll => {
                let (s2, a2) = decode_step(s, Some(line_at(line, t as int)));
                let t2 = if a2 is Poll { (t + 1) as nat } else { t };
                run_decoder(s2, a2, line, t2, (fuel - 1) as nat)
            },
            ReadAction::SampleAfter(n) => {
                let t2 = (t + n) as nat;
                let (s2, a2) = decode_step(s, Some(line_at(line, t2 as int)));
                run_decoder(s2, a2, line, t2, (fuel - 1) as nat)
            },
        }
    }
}

/// The level of the symbol of `bit` at unit `j` of its eight.
pub open spec fn pulse_level(bit: bool, j: int) -> bool {
    if bit {
        j < 4
    } else {
        j < 2
    }
}

/// The top `n` bits of `b`, as gathered by a reader after `n` bits.
pub open spec fn top_bits(b: u8, n: int) -> u8 {
    if n <= 0 {
        0
    } else {
        b >> ((8 - n) as u8)
    }
}

proof fn lemma_waveform_concat(a: Seq<WriteAction>, b: Seq<WriteAction>)
    ensures
        waveform(a + b) == waveform(a) + waveform(b),
    decreases b.len(),
{
    if b.len() == 0 {
        assert(a + b =~= a);
        assert(waveform(b) =~= Seq::<bool>::empty());
        assert(waveform(a) + waveform(b) =~= waveform(a));
    } else {
        lemma_waveform_concat(a, b.drop_last());
        assert((a + b).drop_last() =~= a + b.drop_last());
        assert((a + b).last() == b.last());
        assert(waveform(a + b) =~= waveform(a) + waveform(b));
    }
}

proof fn lemma_waveform_pulse(bit: bool)
    ensures
        waveform(bit_pulse(bit)).len() == 8,
        forall|j: int| 0 <= j < 8 ==> waveform(bit_pulse(bit))[j] == pulse_level(bit, j),
{
    let p = bit_pulse(bit);
    lemma_waveform_concat(seq![p[0]], seq![p[1]]);
    assert(p =~= seq![p[0]] + seq![p[1]]);
    assert(seq![p[0]].drop_last() =~= Seq::<WriteAction>::empty());
    assert(seq![p[1]].drop_last() =~= Seq::<WriteAction>::empty());
    assert(waveform(Seq::<WriteAction>::empty()) == Seq::<bool>::empty());
    assert(waveform(seq![p[0]]) =~= levels_of(p[0]));
    assert(waveform(seq![p[1]]) =~= levels_of(p[1]));
}

proof fn lemma_waveform_pulses(b: u8, n: nat)
    requires
        n <= 8,
    ensures
        waveform(bit_pulses(b, n)).len() == 8 * n,
        forall|t: int|
            0 <= t < 8 * n ==> #[trigger] waveform(bit_pulses(b, n))[t] == pulse_level(msb_bit(b, t / 8), t % 8),
    decreases n,
{
    if n > 0 {
        let m = (n - 1) as nat;
        lemma_waveform_pulses(b, m);
        lemma_waveform_concat(bit_pulses(b, m), bit_pulse(msb_bit(b, m as int)));
        lemma_waveform_pulse(msb_bit(b, m as int));
        assert forall|t: int| 0 <= t < 8 * n implies #[trigger] waveform(bit_pulses(b, n))[t] == pulse_level(
            msb_bit(b, t / 8),
            t % 8,
        ) by {
            if t >= 8 * m {
                assert(t / 8 == m);
                assert(t % 8 == t - 8 * m);
            }
        }
    }
}

proof fn lemma_waveform_header()
    ensures
        waveform(write_header()) =~= seq![false, false, false, false],
{
    let h = write_header();
    reveal_with_fuel(waveform, 5);
    assert(h.drop_last() =~= seq![h[0], h[1], h[2]]);
    assert(seq![h[0], h[1], h[2]].drop_last() =~= seq![h[0], h[1]]);
    assert(seq![h[0], h[1]].drop_last() =~= seq![h[0]]);
    assert(seq![h[0]].drop_last() =~= Seq::<WriteAction>::empty());
    assert(levels_of(h[3]) =~= seq![false, false, false, false]);
}

proof fn lemma_frame(b: u8)
    ensures
        waveform(write_script(b)).len() == 68,
        forall|t: int| 0 <= t < 4 ==> !#[trigger] line_at(waveform(write_script(b)), t),
        forall|k: int, j: int|
            0 <= k < 8 && 0 <= j < 8 ==> #[trigger] line_at(waveform(write_script(b)), 4 + 8 * k + j)
                == pulse_level(msb_bit(b, k), j),
        forall|t: int| t >= 68 ==> #[trigger] line_at(waveform(write_script(b)), t),
{
    let tail = seq![WriteAction::ToInput, WriteAction::Finish(Ok(()))];
    lemma_waveform_concat(write_header() + bit_pulses(b, 8), tail);
    lemma_waveform_concat(write_header(), bit_pulses(b, 8));
    lemma_waveform_header();
    lemma_waveform_pulses(b, 8);
    reveal_with_fuel(waveform, 3);
    assert(tail.drop_last() =~= seq![WriteAction::ToInput]);
    assert(seq![WriteAction::ToInput].drop_last() =~= Seq::<WriteAction>::empty());
    assert(waveform(tail) =~= Seq::<bool>::empty());
    let line = waveform(write_script(b));
    assert forall|k: int, j: int| 0 <= k < 8 && 0 <= j < 8 implies #[trigger] line_at(line, 4 + 8 * k + j)
        == pulse_level(msb_bit(b, k), j) by {
        let t = 8 * k + j;
        assert(t / 8 == k && t % 8 == j) by (nonlinear_arith)
            requires
                t == 8 * k + j,
                0 <= j < 8,
        ;
        assert(waveform(bit_pulses(b, 8))[t] == pulse_level(msb_bit(b, t / 8), t % 8));
    }
}

proof fn lemma_top_bits_step(b: u8, n: int)
    requires
        0 <= n < 8,
    ensures
        shift_in(top_bits(b, n), msb_bit(b, n)) == top_bits(b, n + 1),
{
    let k: u8 = (7 - n) as u8;
    let hi: u8 = top_bits(b, n);
    let t: u8 = (b >> k) & 1u8;
    assert(hi == if k == 7 { 0u8 } else { b >> ((k + 1) as u8) });
    assert(t < 2) by (bit_vector)
        requires
            t == (b >> k) & 1u8,
    ;
    assert(((hi << 1u8) | t) == b >> k) by (bit_vector)
        requires
            k < 8,
            hi == if k == 7 { 0u8 } else { b >> ((k + 1) as u8) },
            t == (b >> k) & 1u8,
    ;
    assert(((hi << 1u8) | t) == ((2 * hi + t) % 256) as u8) by (bit_vector)
        requires
            t < 2,
    ;
    if n == 7 {
        assert(b >> 0u8 == b) by (bit_vector);
    }
}

/// Polls on a line that keeps the tracked level let time pass without a
/// change of state.
proof fn lemma_quiet_polls(s: DecodeState, line: Seq<bool>, t: nat, m: nat, fuel: nat)
    requires
        s.stage == DecodeStage::Polling,
        fuel >= m,
        forall|i: int| t <= i < t + m ==> #[trigger] line_at(line, i) == s.last,
    ensures
        run_decoder(s, ReadAction::Poll, line, t, fuel) == run_decoder(
            s,
            ReadAction::Poll,
            line,
            t + m,
            (fuel - m) as nat,
        ),
    decreases m,
{
    if m > 0 {
        assert(line_at(line, t as int) == s.last);
        assert(decode_step(s, Some(line_at(line, t as int))) == (s, ReadAction::Poll));
        lemma_quiet_polls(s, line, t + 1, (m - 1) as nat, (fuel - 1) as nat);
    }
}

/// One symbol: from the rising edge that starts it to the unit after it.
proof fn lemma_one_bit(data: u8, bit: bool, line: Seq<bool>, t0: nat, fuel: nat)
    requires
        fuel >= 5,
        forall|j: int| 0 <= j < 8 ==> #[trigger] line_at(line, t0 as int + j) == pulse_level(bit, j),
    ensures
        run_decoder(
            DecodeState { last: false, data, stage: DecodeStage::Polling },
            ReadAction::Poll,
            line,
            t0,
            fuel,
        ) == run_decoder(
            DecodeState { last: false, data: shift_in(data, bit), stage: DecodeStage::Polling },
            ReadAction::Poll,
            line,
            t0 + 8,
            (fuel - 5) as nat,
        ),
{
    assert(line_at(line, t0 as int + 0) == true);
    assert(line_at(line, t0 as int + 3) == bit);
    assert(line_at(line, t0 as int + 6) == false);
    assert(line_at(line, t0 as int + 7) == false);
    let s0 = DecodeState { last: false, data, stage: DecodeStage::Polling };
    let s1 = DecodeState { last: true, data, stage: DecodeStage::First };
    let s2 = DecodeState { last: true, data, stage: DecodeStage::Second(bit) };
    let s3 = DecodeState { last: true, data: shift_in(data, bit), stage: DecodeStage::Polling };
    let s4 = DecodeState { last: false, data: shift_in(data, bit), stage: DecodeStage::Polling };
    assert(decode_step(s0, Some(true)) == (s1, ReadAction::SampleAfter(3)));
    assert(decode_step(s1, Some(bit)) == (s2, ReadAction::SampleAfter(3)));
    assert(decode_step(s2, Some(false)) == (s3, ReadAction::Poll));
    assert(decode_step(s3, Some(false)) == (s4, ReadAction::Poll));
    assert(decode_step(s4, Some(false)) == (s4, ReadAction::Poll));
    assert(run_decoder(s0, ReadAction::Poll, line, t0, fuel) == run_decoder(
        s1,
        ReadAction::SampleAfter(3),
        line,
        t0,
        (fuel - 1) as nat,
    ));
    assert(run_decoder(s1, ReadAction::SampleAfter(3), line, t0, (fuel - 1) as nat) == run_decoder(
        s2,
        ReadAction::SampleAfter(3),
        line,
        t0 + 3,
        (fuel - 2) as nat,
    ));
    assert(run_decoder(s2, ReadAction::SampleAfter(3), line, t0 + 3, (fuel - 2) as nat) == run_decoder(
        s3,
        ReadAction::Poll,
        line,
        t0 + 6,
        (fuel - 3) as nat,
    ));
    assert(run_decoder(s3, ReadAction::Poll, line, t0 + 6, (fuel - 3) as nat) == run_decoder(
        s4,
        ReadAction::Poll,
        line,
        t0 + 7,
        (fuel - 4) as nat,
    ));
}

proof fn lemma_bits(b: u8, line: Seq<bool>, o: nat, k: nat, fuel: nat)
    requires
        k <= 8,
        fuel >= 5 * (8 - k),
        forall|i: int, j: int|
            0 <= i < 8 && 0 <= j < 8 ==> #[trigger] line_at(line, o + 4 + 8 * i + j) == pulse_level(msb_bit(b, i), j),
    ensures
        run_decoder(
            DecodeState { last: false, data: top_bits(b, k as int), stage: DecodeStage::Polling },
            ReadAction::Poll,
            line,
            o + 4 + 8 * k,
            fuel,
        ) == run_decoder(
            DecodeState { last: false, data: b, stage: DecodeStage::Polling },
            ReadAction::Poll,
            line,
            o + 68,
            (fuel - 5 * (8 - k)) as nat,
        ),
    decreases 8 - k,
{
    if k == 8 {
        assert(b >> 0u8 == b) by (bit_vector);
    } else {
        let t0 = (o + 4 + 8 * k) as nat;
        assert forall|j: int| 0 <= j < 8 implies #[trigger] line_at(line, t0 as int + j) == pulse_level(
            msb_bit(b, k as int),
            j,
        ) by {
            assert(line_at(line, o + 4 + 8 * (k as int) + j) == pulse_level(msb_bit(b, k as int), j));
        }
        lemma_one_bit(top_bits(b, k as int), msb_bit(b, k as int), line, t0, fuel);
        lemma_top_bits_step(b, k as int);
        lemma_bits(b, line, o, k + 1, (fuel - 5) as nat);
    }
}

/// The line as a reader sees it when it starts `idle` units before the
/// writer's start condition: high while idle, then the writer's waveform.
pub open spec fn idle_then(idle: nat, frame: Seq<bool>) -> Seq<bool> {
    Seq::new(idle, |i: int| true) + frame
}

/// Round trip: the levels that an uncontended write of `b` puts on the line,
/// read back by a reader that starts on the idle (high) line `idle` units
/// before the start condition, or right at it, decode to `b`. The line is
/// released high after the last bit, which is the terminator. Any run of at
/// least `48 + idle` steps suffices.
pub proof fn lemma_round_trip(b: u8, idle: nat, fuel: nat)
    requires
        fuel >= 48 + idle,
    ensures
        ({
            let line = idle_then(idle, waveform(write_script(b)));
            run_decoder(decode_start(Some(line_at(line, 0))), ReadAction::Poll, line, 0, fuel) == Some(
                Ok::<u8, Error>(b),
            )
        }),
{
    let frame = waveform(write_script(b));
    let line = idle_then(idle, frame);
    lemma_frame(b);
    assert forall|t: int| 0 <= t < idle implies #[trigger] line_at(line, t) by {}
    assert forall|t: int| #![auto] 0 <= t ==> line_at(line, idle + t) == line_at(frame, t) by {
        if 0 <= t < frame.len() {
            assert(line[idle + t] == frame[t]);
        }
    }
    assert forall|i: int, j: int| 0 <= i < 8 && 0 <= j < 8 implies #[trigger] line_at(line, idle + 4 + 8 * i + j)
        == pulse_level(msb_bit(b, i), j) by {
        assert(line_at(line, idle as int + (4 + 8 * i + j)) == line_at(frame, 4 + 8 * i + j));
    }
    let s0 = decode_start(Some(line_at(line, 0)));
    let low = DecodeState { last: false, data: top_bits(b, 0), stage: DecodeStage::Polling };
    let start = (idle + 4) as nat;
    if idle == 0 {
        assert(line_at(line, 0) == line_at(frame, 0));
        assert(s0 == low);
        assert forall|i: int| 0 <= i < 4 implies #[trigger] line_at(line, i) == low.last by {
            assert(line_at(line, 0 + i) == line_at(frame, i));
        }
        lemma_quiet_polls(low, line, 0, 4, fuel);
    } else {
        let high = DecodeState { last: true, data: top_bits(b, 0), stage: DecodeStage::Polling };
        assert(s0 == high);
        lemma_quiet_polls(high, line, 0, idle, fuel);
        assert(line_at(line, idle as int + 0) == line_at(frame, 0));
        assert(decode_step(high, Some(false)) == (low, ReadAction::Poll));
        assert(run_decoder(high, ReadAction::Poll, line, idle, (fuel - idle) as nat) == run_decoder(
            low,
            ReadAction::Poll,
            line,
            idle + 1,
            (fuel - idle - 1) as nat,
        ));
        assert forall|i: int| idle + 1 <= i < idle + 4 implies #[trigger] line_at(line, i) == low.last by {
            assert(line_at(line, idle as int + (i - idle)) == line_at(frame, i - idle));
        }
        lemma_quiet_polls(low, line, idle + 1, 3, (fuel - idle - 1) as nat);
    }
    lemma_bits(b, line, idle, 0, (fuel - idle - 4) as nat);
    let f = (fuel - idle - 44) as nat;
    let t_end = (idle + 68) as nat;
    let e0 = DecodeState { last: false, data: b, stage: DecodeStage::Polling };
    let e1 = DecodeState { last: true, data: b, stage: DecodeStage::First };
    let e2 = DecodeState { last: true, data: b, stage: DecodeStage::Second(true) };
    let e3 = DecodeState { last: true, data: b, stage: DecodeStage::Finished(Ok(b)) };
    assert(line_at(line, idle as int + 68) == line_at(frame, 68));
    assert(line_at(line, idle as int + 71) == line_at(frame, 71));
    assert(line_at(line, idle as int + 74) == line_at(frame, 74));
    assert(decode_step(e0, Some(true)) == (e1, ReadAction::SampleAfter(3)));
    assert(decode_step(e1, Some(true)) == (e2, ReadAction::SampleAfter(3)));
    assert(decode_step(e2, Some(true)) == (e3, ReadAction::Finish(Ok(b))));
    assert(run_decoder(e0, ReadAction::Poll, line, t_end, f) == run_decoder(
        e1,
        ReadAction::SampleAfter(3),
        line,
        t_end,
        (f - 1) as nat,
    ));
    assert(run_decoder(e1, ReadAction::SampleAfter(3), line, t_end, (f - 1) as nat) == run_decoder(
        e2,
        ReadAction::SampleAfter(3),
        line,
        (t_end + 3) as nat,
        (f - 2) as nat,
    ));
    assert(run_decoder(e2, ReadAction::SampleAfter(3), line, (t_end + 3) as nat, (f - 2) as nat) == run_decoder(
        e3,
        ReadAction::Finish(Ok(b)),
        line,
        (t_end + 6) as nat,
        (f - 3) as nat,
    ));
}

} // verus!
