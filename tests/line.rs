use half_duplex::collect::ByteCollector;
use half_duplex::decode::{Decoder, ReadAction};
use half_duplex::edge::EdgeDetector;
use half_duplex::encode::{Encoder, LineEvent, WriteAction};
use half_duplex::error::Error;
use half_duplex::wire::HalfDuplexWire;

#[derive(Debug, PartialEq)]
struct InPin(u32);

#[derive(Debug, PartialEq)]
struct OutPin(u32);

/// Runs an uncontended write and returns every action, with the samples
/// answered by a high line.
fn write_actions(data: u8) -> Vec<WriteAction> {
    let mut enc = Encoder::new(data);
    let mut event = LineEvent::Completed;
    let mut out = Vec::new();
    loop {
        let a = enc.step(event);
        out.push(a);
        event = match a {
            WriteAction::SampleAfter(_) => LineEvent::Level(true),
            WriteAction::Finish(_) => return out,
            _ => LineEvent::Completed,
        };
    }
}

/// The levels the write puts on the line, one per delay unit.
fn waveform(data: u8) -> Vec<bool> {
    let mut line = Vec::new();
    for a in write_actions(data) {
        if let WriteAction::Drive(level, n) = a {
            for _ in 0..n {
                line.push(level);
            }
        }
    }
    line
}

/// Reads from a simulated line that is high once the waveform is over; a
/// poll without an edge lets one unit pass.
fn read_line(line: &[bool], start: usize) -> Result<u8, Error> {
    let at = |t: usize| if t < line.len() { line[t] } else { true };
    let mut t = start;
    let mut dec = Decoder::new((), Some(at(t)));
    let mut action = ReadAction::Poll;
    for _ in 0..10_000 {
        action = match action {
            ReadAction::Poll => {
                let a = dec.step(Some(at(t)));
                if a == ReadAction::Poll {
                    t += 1;
                }
                a
            }
            ReadAction::SampleAfter(n) => {
                t += n as usize;
                dec.step(Some(at(t)))
            }
            ReadAction::Finish(r) => return r,
        };
    }
    panic!("the reader did not finish");
}

#[test]
fn error_messages() {
    assert_eq!(Error::IO.as_str(), "io");
    assert_eq!(Error::Busy.as_str(), "busy");
    assert_eq!(Error::NoResponse.as_str(), "no response");
    assert_eq!(Error::Unavailable.as_str(), "unavailable");
}

#[test]
fn edge_detector_starts_from_first_read() {
    let mut ed = EdgeDetector::new((), Some(true));
    assert!(!ed.risig_edge(Some(true)));
    let mut ed = EdgeDetector::new((), None);
    assert!(ed.risig_edge(Some(true)));
}

#[test]
fn edge_detector_reports_each_rise_once() {
    let mut ed = EdgeDetector::new(7u8, Some(false));
    let reads = [false, false, true, true, true, false, false, true, false, true];
    let expected = [false, false, true, false, false, false, false, true, false, true];
    for (r, e) in reads.iter().zip(expected.iter()) {
        assert_eq!(ed.risig_edge(Some(*r)), *e);
    }
    assert_eq!(*ed.pin(), 7);
    assert_eq!(ed.release(), 7);
}

#[test]
fn edge_detector_ignores_failed_reads() {
    let mut ed = EdgeDetector::new((), Some(false));
    assert!(!ed.risig_edge(None));
    assert!(ed.risig_edge(Some(true)));
    assert!(!ed.risig_edge(None));
    assert!(!ed.risig_edge(Some(true)));
}

#[test]
fn wire_take_and_restore() {
    let mut w = HalfDuplexWire::new(InPin(3), |p: InPin| OutPin(p.0), |o: OutPin| InPin(o.0), 5u8);
    assert_eq!(w.delay_unit(), 5);
    assert_eq!(w.pin(), Some(&InPin(3)));
    let p = w.take_pin().unwrap();
    assert!(matches!(w.take_pin(), Err(Error::Unavailable)));
    assert_eq!(w.pin(), None);
    let o = w.to_output(p);
    assert_eq!(o, OutPin(3));
    let p = w.to_input(o);
    w.bring_back_pin(p);
    assert_eq!(w.release().unwrap(), InPin(3));
}

#[test]
fn wire_operations_on_empty_slot_are_unavailable() {
    let mut w = HalfDuplexWire::new(InPin(1), |p: InPin| OutPin(p.0), |o: OutPin| InPin(o.0), 1u8);
    let _p = w.take_pin().unwrap();
    assert!(matches!(w.take_pin(), Err(Error::Unavailable)));
    assert_eq!(w.presence(Some(false)), (true, Err(Error::Unavailable)));
    assert!(matches!(w.release(), Err(Error::Unavailable)));
}

#[test]
fn presence_probe() {
    let w = HalfDuplexWire::new(InPin(1), |p: InPin| OutPin(p.0), |o: OutPin| InPin(o.0), 1u8);
    assert_eq!(w.presence(Some(false)), (false, Ok(())));
    assert_eq!(w.presence(Some(true)), (true, Err(Error::NoResponse)));
    assert_eq!(w.presence(None), (false, Err(Error::IO)));
}

#[test]
fn write_pulse_pattern_of_a0() {
    let actions = write_actions(0b1010_0000);
    let mut expected = vec![
        WriteAction::SampleAfter(0),
        WriteAction::SampleAfter(4),
        WriteAction::ToOutput,
        WriteAction::Drive(false, 4),
    ];
    for bit in [true, false, true, false, false, false, false, false] {
        if bit {
            expected.push(WriteAction::Drive(true, 4));
            expected.push(WriteAction::Drive(false, 4));
        } else {
            expected.push(WriteAction::Drive(true, 2));
            expected.push(WriteAction::Drive(false, 6));
        }
    }
    expected.push(WriteAction::ToInput);
    expected.push(WriteAction::Finish(Ok(())));
    assert_eq!(actions, expected);
}

#[test]
fn write_busy_at_first_check() {
    let mut enc = Encoder::new(0x55);
    assert_eq!(enc.step(LineEvent::Completed), WriteAction::SampleAfter(0));
    assert_eq!(enc.step(LineEvent::Level(false)), WriteAction::Finish(Err(Error::Busy)));
    assert_eq!(enc.step(LineEvent::Completed), WriteAction::Finish(Err(Error::Busy)));
}

#[test]
fn write_busy_at_second_check() {
    let mut enc = Encoder::new(0x55);
    assert_eq!(enc.step(LineEvent::Completed), WriteAction::SampleAfter(0));
    assert_eq!(enc.step(LineEvent::Level(true)), WriteAction::SampleAfter(4));
    assert_eq!(enc.step(LineEvent::Level(false)), WriteAction::Finish(Err(Error::Busy)));
}

#[test]
fn write_failed_check_is_io() {
    let mut enc = Encoder::new(0x55);
    enc.step(LineEvent::Completed);
    assert_eq!(enc.step(LineEvent::ReadFailed), WriteAction::Finish(Err(Error::IO)));
}

#[test]
fn round_trip_every_byte() {
    for b in 0..=255u8 {
        let line = waveform(b);
        assert_eq!(line.len(), 68);
        assert_eq!(read_line(&line, 0), Ok(b));
    }
}

#[test]
fn round_trip_after_idle_line() {
    let mut line = vec![true; 5];
    line.extend(waveform(0x3c));
    assert_eq!(read_line(&line, 0), Ok(0x3c));
}

#[test]
fn read_failed_sample_is_io() {
    let mut dec = Decoder::new((), Some(false));
    assert_eq!(dec.step(Some(true)), ReadAction::SampleAfter(3));
    assert_eq!(dec.step(None), ReadAction::Finish(Err(Error::IO)));
    assert_eq!(dec.step(Some(true)), ReadAction::Finish(Err(Error::IO)));
}

#[test]
fn read_terminator_right_away_gives_zero() {
    let mut dec = Decoder::new((), Some(false));
    assert_eq!(dec.step(Some(true)), ReadAction::SampleAfter(3));
    assert_eq!(dec.step(Some(true)), ReadAction::SampleAfter(3));
    assert_eq!(dec.step(Some(true)), ReadAction::Finish(Ok(0)));
}

#[test]
fn collect_two_bytes() {
    let mut c = ByteCollector::new(2);
    let mut reads = 0;
    let source = [0x34u8, 0x12u8];
    while c.needs_more() {
        c.push(source[reads]);
        reads += 1;
    }
    assert_eq!(reads, 2);
    let buf = c.buffer();
    assert_eq!(buf, [0x34, 0x12, 0, 0, 0, 0, 0, 0]);
    assert_eq!(u16::from_ne_bytes([buf[0], buf[1]]), u16::from_ne_bytes([0x34, 0x12]));
}

#[test]
fn collect_stops_on_failed_read() {
    let mut c = ByteCollector::new(2);
    let reads: [Result<u8, Error>; 2] = [Ok(0xab), Err(Error::IO)];
    let mut failure = None;
    for r in reads {
        if !c.needs_more() {
            break;
        }
        if let Err(e) = c.accept(r) {
            failure = Some(e);
            break;
        }
    }
    assert_eq!(failure, Some(Error::IO));
    assert!(c.needs_more());
    assert_eq!(c.buffer(), [0xab, 0, 0, 0, 0, 0, 0, 0]);
}
