use repeaterpi::config::Calibration;
use repeaterpi::dispatch::with_host_health;
use repeaterpi::dispatch::Dispatcher;
use repeaterpi::dispatch::HaltReason;
use repeaterpi::dispatch::Step;
use repeaterpi::layout::Channels;
use repeaterpi::layout::Layout;
use repeaterpi::metric::Field;
use repeaterpi::metric::FieldKey;
use repeaterpi::metric::Measurement;
use repeaterpi::metric::MetricRecord;
use repeaterpi::metric::Quantity;
use repeaterpi::metric::Timestamp;
use repeaterpi::numeral::Numeral;
use repeaterpi::reading::ParseError;
use repeaterpi::sensor_board::splice_at;
use repeaterpi::sensor_board::SpliceError;

fn n(text: &str) -> Numeral {
    Numeral::parse(text.as_bytes()).unwrap()
}

fn identity() -> Calibration {
    let line = || vec![n("0"), n("1")];
    Calibration {
        voltage_main: line(),
        voltage_amp: line(),
        voltage_usb: line(),
        power_forward: line(),
        power_reverse: line(),
        voltage_clamp: n("0"),
    }
}

fn toy_layout() -> Layout {
    Layout::new(
        6,
        Channels {
            temperature: 0,
            pressure: 1,
            humidity: None,
            secondary_temperature: None,
            main_voltage: 2,
            amplifier_voltage: 3,
            usb_voltage: None,
            forward_power: 4,
            reverse_power: 5,
        },
    )
    .unwrap()
}

fn dispatcher() -> Dispatcher {
    Dispatcher::new("site".to_string(), toy_layout(), identity())
}

fn at(nanos: i64) -> Option<Timestamp> {
    Some(Timestamp { nanos })
}

fn batch(line: &str, nanos: i64) -> Vec<MetricRecord> {
    splice_at("site", line, &toy_layout(), &identity(), Timestamp { nanos }).unwrap()
}

const GOOD: &str = "72.4,1002.3,13.2,13.8,74,13";
const OTHER: &str = "71.9,1002.1,13.1,13.7,70,2";

#[test]
fn a_new_dispatcher_asks_for_input() {
    let mut d = dispatcher();
    assert!(!d.is_halted());
    assert_eq!(d.step_with(at(1)), Step::NeedInput);
    assert_eq!(d.step_with(None), Step::NeedInput);
    assert!(!d.is_halted());
}

#[test]
fn a_whole_line_is_dispatched_and_then_input_is_needed() {
    let mut d = dispatcher();
    d.receive(format!("{}\n", GOOD).as_bytes());
    assert_eq!(d.step_with(at(7)), Step::Dispatch(batch(GOOD, 7)));
    assert_eq!(d.step_with(at(8)), Step::NeedInput);
}

#[test]
fn lines_are_taken_in_order_one_per_step() {
    let mut d = dispatcher();
    d.receive(format!("{}\n{}\n", GOOD, OTHER).as_bytes());
    assert_eq!(d.step_with(at(1)), Step::Dispatch(batch(GOOD, 1)));
    assert_eq!(d.step_with(at(2)), Step::Dispatch(batch(OTHER, 2)));
    assert_eq!(d.step_with(at(3)), Step::NeedInput);
}

#[test]
fn a_line_in_pieces_is_dispatched_when_its_line_feed_arrives() {
    let mut d = dispatcher();
    d.receive(b"72.4,1002");
    assert_eq!(d.step_with(at(1)), Step::NeedInput);
    d.receive(b".3,13.2,13.8,74,13");
    assert_eq!(d.step_with(at(2)), Step::NeedInput);
    d.receive(b"\n71.9");
    assert_eq!(d.step_with(at(3)), Step::Dispatch(batch(GOOD, 3)));
    assert_eq!(d.step_with(at(4)), Step::NeedInput);
}

#[test]
fn a_bad_line_is_discarded_and_the_next_line_is_taken() {
    let mut d = dispatcher();
    d.receive(format!("1,2,3\n72.4,abc,13.2,13.8,74,13\n\n{}\n", GOOD).as_bytes());
    assert_eq!(
        d.step_with(at(1)),
        Step::Discard(SpliceError::Line(ParseError::Shape { observed: 3, expected: 6 }))
    );
    assert!(!d.is_halted());
    assert_eq!(
        d.step_with(at(2)),
        Step::Discard(SpliceError::Line(ParseError::Conversion {
            position: 1,
            text: b"abc".to_vec()
        }))
    );
    assert_eq!(
        d.step_with(at(3)),
        Step::Discard(SpliceError::Line(ParseError::Shape { observed: 1, expected: 6 }))
    );
    assert_eq!(d.step_with(at(4)), Step::Dispatch(batch(GOOD, 4)));
    assert_eq!(d.step_with(at(5)), Step::NeedInput);
    assert!(!d.is_halted());
}

#[test]
fn without_a_clock_reading_a_good_line_is_discarded() {
    let mut d = dispatcher();
    d.receive(format!("{}\n1,2\n{}\n", GOOD, OTHER).as_bytes());
    assert_eq!(d.step_with(None), Step::Discard(SpliceError::Clock));
    assert_eq!(
        d.step_with(None),
        Step::Discard(SpliceError::Line(ParseError::Shape { observed: 2, expected: 6 }))
    );
    assert_eq!(d.step_with(at(9)), Step::Dispatch(batch(OTHER, 9)));
}

#[test]
fn a_line_that_is_no_text_stops_the_dispatcher_for_good() {
    let mut d = dispatcher();
    d.receive(format!("{}\n", GOOD).as_bytes());
    d.receive(&[0x37, 0xff, 0x0a]);
    d.receive(format!("{}\n", OTHER).as_bytes());
    assert_eq!(d.step_with(at(1)), Step::Dispatch(batch(GOOD, 1)));
    assert!(!d.is_halted());
    assert_eq!(d.step_with(at(2)), Step::Halt(HaltReason::Framing));
    assert!(d.is_halted());
    assert_eq!(d.step_with(at(3)), Step::Halt(HaltReason::Framing));
    d.receive(format!("{}\n", GOOD).as_bytes());
    assert_eq!(d.step_with(at(4)), Step::Halt(HaltReason::Framing));
    assert_eq!(d.next_step(), Step::Halt(HaltReason::Framing));
    assert!(d.is_halted());
}

#[test]
fn the_end_of_the_stream_stops_after_the_whole_lines() {
    let mut d = dispatcher();
    d.receive(format!("{}\n{}\n71.9,10", GOOD, OTHER).as_bytes());
    d.end_of_stream();
    assert!(!d.is_halted());
    assert_eq!(d.step_with(at(1)), Step::Dispatch(batch(GOOD, 1)));
    assert_eq!(d.step_with(at(2)), Step::Dispatch(batch(OTHER, 2)));
    assert!(d.is_halted());
    assert_eq!(d.step_with(at(3)), Step::Halt(HaltReason::EndOfStream));
    assert_eq!(d.step_with(at(4)), Step::Halt(HaltReason::EndOfStream));
    assert!(d.is_halted());
}

#[test]
fn the_end_of_an_empty_stream_stops_at_once() {
    let mut d = dispatcher();
    d.end_of_stream();
    assert!(d.is_halted());
    assert_eq!(d.step_with(at(1)), Step::Halt(HaltReason::EndOfStream));
}

#[test]
fn a_framing_error_outranks_the_end_of_the_stream() {
    let mut d = dispatcher();
    d.receive(&[0xc3, 0x0a]);
    d.end_of_stream();
    assert_eq!(d.step_with(at(1)), Step::Halt(HaltReason::Framing));
    assert_eq!(d.step_with(at(2)), Step::Halt(HaltReason::Framing));
}

#[test]
fn next_step_uses_the_present_instant() {
    let mut d = dispatcher();
    assert_eq!(d.next_step(), Step::NeedInput);
    d.receive(format!("{}\nbad line\n", GOOD).as_bytes());
    match d.next_step() {
        Step::Dispatch(records) => {
            assert!(records[0].time.nanos > 1_600_000_000_000_000_000);
            assert_eq!(records, batch(GOOD, records[0].time.nanos));
        }
        other => panic!("{:?}", other),
    }
    assert_eq!(
        d.next_step(),
        Step::Discard(SpliceError::Line(ParseError::Shape { observed: 1, expected: 6 }))
    );
    assert_eq!(d.next_step(), Step::NeedInput);
}

#[test]
fn text_beyond_ascii_in_a_field_is_a_conversion_error() {
    let mut d = dispatcher();
    d.receive("72.4,1002.3,13.2,13.8,74,13\u{b0}\n".as_bytes());
    assert_eq!(
        d.step_with(at(1)),
        Step::Discard(SpliceError::Line(ParseError::Conversion {
            position: 5,
            text: "13\u{b0}".as_bytes().to_vec()
        }))
    );
    assert!(!d.is_halted());
}

#[test]
fn host_health_follows_the_records_of_the_line() {
    let host = vec![MetricRecord {
        measurement: Measurement::PiStatus,
        time: Timestamp { nanos: 5 },
        fields: vec![Field { key: FieldKey::TemperatureC, quantity: Quantity::Measured(n("47.2")) }],
        location: "site".to_string(),
    }];
    let line = batch(GOOD, 4);
    let all = with_host_health(line.clone(), host.clone());
    assert_eq!(all.len(), 4);
    assert_eq!(all[..3], line[..]);
    assert_eq!(all[3..], host[..]);
    assert_eq!(with_host_health(line.clone(), Vec::new()), line);
    assert_eq!(with_host_health(Vec::new(), host.clone()), host);
}
