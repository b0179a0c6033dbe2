//! The metric assembler: from the values of one line to the records that are
//! stored.
//!
//! One line gives one record per sensor group, in this order: the primary
//! environment sensor, the second temperature sensor where the board has one,
//! the supply voltages, the RF power. Temperatures, pressure and humidity are
//! passed through. Voltages and powers are reported through the polynomial of
//! their channel. The standing-wave ratio is taken from the forward and
//! reverse power as they were read, before calibration. All records of a line
//! carry the same instant and the same site tag.

use crate::config::Calibration;
use crate::config::CalibrationView;
use crate::layout::Channels;
use crate::layout::Layout;
use crate::layout::LayoutView;
use crate::metric::calibrated;
use crate::metric::measured;
use crate::metric::record_views;
use crate::metric::standing_wave_ratio;
use crate::metric::Field;
use crate::metric::FieldKey;
use crate::metric::Measurement;
use crate::metric::MetricRecord;
use crate::metric::Quantity;
use crate::metric::RecordView;
use crate::metric::Timestamp;
use crate::numeral::copy_numerals;
use crate::numeral::texts;
use crate::numeral::Numeral;
use crate::reading::parse_reading;
use crate::reading::reading_of;
use crate::reading::ChannelValues;
use crate::reading::ParseError;
use crate::reading::ParseFault;
use vstd::prelude::*;
use vstd::string::StringSliceAdditionalSpecFns;

verus! {

/// The record of the primary environment sensor: temperature and pressure,
/// and humidity where the board sends it, each as it was read.
pub open spec fn environment_record(
    values: Seq<Seq<u8>>,
    channels: Channels,
    location: Seq<char>,
    time: Timestamp,
) -> RecordView {
    let common = seq![
        measured(FieldKey::TemperatureF, values[channels.temperature as int]),
        measured(FieldKey::Pressure, values[channels.pressure as int]),
    ];
    match channels.humidity {
        Some(h) => RecordView {
            measurement: Measurement::Bme280,
            time,
            fields: common.push(measured(FieldKey::Humidity, values[h as int])),
            location,
        },
        None => RecordView { measurement: Measurement::Bmp280, time, fields: common, location },
    }
}

/// The record of the second temperature sensor, whose value stands at
/// `position`.
pub open spec fn secondary_record(
    values: Seq<Seq<u8>>,
    position: usize,
    location: Seq<char>,
    time: Timestamp,
) -> RecordView {
    RecordView {
        measurement: Measurement::Tmp36,
        time,
        fields: seq![measured(FieldKey::TemperatureF, values[position as int])],
        location,
    }
}

/// The record of the supply voltages, each through the polynomial of its
/// channel: main, amplifier, and USB where the board sends it.
pub open spec fn voltage_record(
    values: Seq<Seq<u8>>,
    calibration: CalibrationView,
    channels: Channels,
    location: Seq<char>,
    time: Timestamp,
) -> RecordView {
    let common = seq![
        calibrated(FieldKey::Main, calibration.voltage_main, values[channels.main_voltage as int]),
        calibrated(
            FieldKey::Amplifier,
            calibration.voltage_amp,
            values[channels.amplifier_voltage as int],
        ),
    ];
    RecordView {
        measurement: Measurement::Voltage,
        time,
        fields: match channels.usb_voltage {
            Some(u) => common.push(
                calibrated(FieldKey::Usb, calibration.voltage_usb, values[u as int]),
            ),
            None => common,
        },
        location,
    }
}

/// The record of the RF power: forward and reverse power through their
/// polynomials, and the standing-wave ratio of the two as they were read.
pub open spec fn rf_power_record(
    values: Seq<Seq<u8>>,
    calibration: CalibrationView,
    channels: Channels,
    location: Seq<char>,
    time: Timestamp,
) -> RecordView {
    let forward = values[channels.forward_power as int];
    let reverse = values[channels.reverse_power as int];
    RecordView {
        measurement: Measurement::RfPower,
        time,
        fields: seq![
            calibrated(FieldKey::Forward, calibration.power_forward, forward),
            calibrated(FieldKey::Reverse, calibration.power_reverse, reverse),
            standing_wave_ratio(forward, reverse),
        ],
        location,
    }
}

/// The records of one line, in the order in which they are stored.
pub open spec fn batch_of(
    values: Seq<Seq<u8>>,
    calibration: CalibrationView,
    layout: LayoutView,
    location: Seq<char>,
    time: Timestamp,
) -> Seq<RecordView> {
    let channels = layout.channels;
    let first = seq![environment_record(values, channels, location, time)];
    let sensors = match channels.secondary_temperature {
        Some(p) => first.push(secondary_record(values, p, location, time)),
        None => first,
    };
    sensors.push(voltage_record(values, calibration, channels, location, time)).push(
        rf_power_record(values, calibration, channels, location, time),
    )
}

/// What a line of text gives: the records of its values, or the reason for
/// discarding it.
pub open spec fn splice_of(
    line: Seq<u8>,
    calibration: CalibrationView,
    layout: LayoutView,
    location: Seq<char>,
    time: Timestamp,
) -> Result<Seq<RecordView>, ParseFault> {
    match reading_of(line, layout.arity) {
        Ok(values) => Ok(batch_of(values, calibration, layout, location, time)),
        Err(fault) => Err(fault),
    }
}

/// A line gives three records, and a fourth where the board has a second
/// temperature sensor.
pub proof fn lemma_batch_len(
    values: Seq<Seq<u8>>,
    calibration: CalibrationView,
    layout: LayoutView,
    location: Seq<char>,
    time: Timestamp,
)
    ensures
        layout.channels.secondary_temperature is Some ==> batch_of(
            values,
            calibration,
            layout,
            location,
            time,
        ).len() == 4,
        layout.channels.secondary_temperature is None ==> batch_of(
            values,
            calibration,
            layout,
            location,
            time,
        ).len() == 3,
{
}

/// Every record of a line carries the instant and the site tag that the line
/// was assembled with.
pub proof fn lemma_batch_shares_time_and_tag(
    values: Seq<Seq<u8>>,
    calibration: CalibrationView,
    layout: LayoutView,
    location: Seq<char>,
    time: Timestamp,
)
    ensures
        forall|i: int|
            0 <= i < batch_of(values, calibration, layout, location, time).len() ==> {
                &&& (#[trigger] batch_of(values, calibration, layout, location, time)[i]).time
                    == time
                &&& batch_of(values, calibration, layout, location, time)[i].location == location
            },
{
}

/// A record with another instant and everything else unchanged.
pub open spec fn at_instant(record: RecordView, time: Timestamp) -> RecordView {
    RecordView { time, ..record }
}

/// Assembling the same values with the same calibration, layout and site tag
/// at two instants gives records that differ in their instant and in nothing
/// else: as many records, and each of the second batch is the record of the
/// first at the same place, moved to the second instant.
pub proof fn lemma_assembly_repeats(
    values: Seq<Seq<u8>>,
    calibration: CalibrationView,
    layout: LayoutView,
    location: Seq<char>,
    first: Timestamp,
    second: Timestamp,
)
    ensures
        batch_of(values, calibration, layout, location, second).len() == batch_of(
            values,
            calibration,
            layout,
            location,
            first,
        ).len(),
        forall|i: int|
            0 <= i < batch_of(values, calibration, layout, location, first).len() ==> (
            #[trigger] batch_of(values, calibration, layout, location, second)[i]) == at_instant(
                batch_of(values, calibration, layout, location, first)[i],
                second,
            ),
{
}

fn measured_field(key: FieldKey, values: &ChannelValues, position: usize) -> (f: Field)
    requires
        position < values@.len(),
    ensures
        f@ == measured(key, values@[position as int]),
{
    Field { key, quantity: Quantity::Measured(values.at(position).clone()) }
}

fn calibrated_field(
    key: FieldKey,
    coefficients: &Vec<Numeral>,
    values: &ChannelValues,
    position: usize,
) -> (f: Field)
    requires
        position < values@.len(),
    ensures
        f@ == calibrated(key, texts(coefficients@), values@[position as int]),
{
    Field {
        key,
        quantity: Quantity::Calibrated {
            coefficients: copy_numerals(coefficients),
            raw: values.at(position).clone(),
        },
    }
}

fn environment(values: &ChannelValues, channels: Channels, location: &str, time: Timestamp) -> (r:
    MetricRecord)
    requires
        channels.within(values@.len()),
    ensures
        r@ == environment_record(values@, channels, location@, time),
{
    let mut fields: Vec<Field> = Vec::new();
    fields.push(measured_field(FieldKey::TemperatureF, values, channels.temperature));
    fields.push(measured_field(FieldKey::Pressure, values, channels.pressure));
    let measurement = match channels.humidity {
        Some(h) => {
            fields.push(measured_field(FieldKey::Humidity, values, h));
            Measurement::Bme280
        },
        None => Measurement::Bmp280,
    };
    let r = MetricRecord { measurement, time, fields, location: location.to_owned() };
    assert(r@.fields =~= environment_record(values@, channels, location@, time).fields);
    r
}

fn secondary(values: &ChannelValues, position: usize, location: &str, time: Timestamp) -> (r:
    MetricRecord)
    requires
        position < values@.len(),
    ensures
        r@ == secondary_record(values@, position, location@, time),
{
    let mut fields: Vec<Field> = Vec::new();
    fields.push(measured_field(FieldKey::TemperatureF, values, position));
    let r = MetricRecord {
        measurement: Measurement::Tmp36,
        time,
        fields,
        location: location.to_owned(),
    };
    assert(r@.fields =~= secondary_record(values@, position, location@, time).fields);
    r
}

fn voltage(
    values: &ChannelValues,
    calibration: &Calibration,
    channels: Channels,
    location: &str,
    time: Timestamp,
) -> (r: MetricRecord)
    requires
        channels.within(values@.len()),
    ensures
        r@ == voltage_record(values@, calibration@, channels, location@, time),
{
    let mut fields: Vec<Field> = Vec::new();
    fields.push(
        calibrated_field(FieldKey::Main, &calibration.voltage_main, values, channels.main_voltage),
    );
    fields.push(
        calibrated_field(
            FieldKey::Amplifier,
            &calibration.voltage_amp,
            values,
            channels.amplifier_voltage,
        ),
    );
    match channels.usb_voltage {
        Some(u) => {
            fields.push(calibrated_field(FieldKey::Usb, &calibration.voltage_usb, values, u));
        },
        None => {},
    }
    let r = MetricRecord {
        measurement: Measurement::Voltage,
        time,
        fields,
        location: location.to_owned(),
    };
    assert(r@.fields =~= voltage_record(values@, calibration@, channels, location@, time).fields);
    r
}

fn rf_power(
    values: &ChannelValues,
    calibration: &Calibration,
    channels: Channels,
    location: &str,
    time: Timestamp,
) -> (r: MetricRecord)
    requires
        channels.within(values@.len()),
    ensures
        r@ == rf_power_record(values@, calibration@, channels, location@, time),
{
    let mut fields: Vec<Field> = Vec::new();
    fields.push(
        calibrated_field(
            FieldKey::Forward,
            &calibration.power_forward,
            values,
            channels.forward_power,
        ),
    );
    fields.push(
        calibrated_field(
            FieldKey::Reverse,
            &calibration.power_reverse,
            values,
            channels.reverse_power,
        ),
    );
    fields.push(
        Field {
            key: FieldKey::Swr,
            quantity: Quantity::StandingWaveRatio {
                forward: values.at(channels.forward_power).clone(),
                reverse: values.at(channels.reverse_power).clone(),
            },
        },
    );
    let r = MetricRecord {
        measurement: Measurement::RfPower,
        time,
        fields,
        location: location.to_owned(),
    };
    assert(r@.fields =~= rf_power_record(values@, calibration@, channels, location@, time).fields);
    r
}

/// Assembles the records of one line from its values.
///
/// Values that are not as many as the layout has fields are refused with
/// [`ParseError::Shape`]; nothing else fails.
pub fn assemble(
    values: &ChannelValues,
    calibration: &Calibration,
    layout: &Layout,
    location: &str,
    time: Timestamp,
) -> (r: Result<Vec<MetricRecord>, ParseError>)
    ensures
        values@.len() == layout@.arity ==> r is Ok && record_views(r->Ok_0@) == batch_of(
            values@,
            calibration@,
            layout@,
            location@,
            time,
        ),
        values@.len() != layout@.arity ==> r is Err && r->Err_0@ == (ParseFault::Shape {
            observed: values@.len(),
            expected: layout@.arity,
        }),
{
    if values.len() != layout.arity() {
        return Err(ParseError::Shape { observed: values.len(), expected: layout.arity() });
    }
    let channels = layout.channels();
    let mut batch: Vec<MetricRecord> = Vec::new();
    batch.push(environment(values, channels, location, time));
    match channels.secondary_temperature {
        Some(p) => {
            batch.push(secondary(values, p, location, time));
        },
        None => {},
    }
    batch.push(voltage(values, calibration, channels, location, time));
    batch.push(rf_power(values, calibration, channels, location, time));
    assert(record_views(batch@) =~= batch_of(values@, calibration@, layout@, location@, time));
    Ok(batch)
}

/// Reads one line of text and assembles its records for the instant `time`.
///
/// The line is discarded, and nothing assembled, where it does not have the
/// layout's number of fields or holds a field that is no numeral.
pub fn splice_at(
    location: &str,
    input_string: &str,
    layout: &Layout,
    calibration: &Calibration,
    time: Timestamp,
) -> (r: Result<Vec<MetricRecord>, ParseError>)
    ensures
        match r {
            Ok(batch) => splice_of(
                input_string.spec_bytes(),
                calibration@,
                layout@,
                location@,
                time,
            ) == Ok::<Seq<RecordView>, ParseFault>(record_views(batch@)),
            Err(e) => splice_of(input_string.spec_bytes(), calibration@, layout@, location@, time)
                == Err::<Seq<RecordView>, ParseFault>(e@),
        },
{
    match parse_reading(input_string.as_bytes(), layout.arity()) {
        Ok(values) => assemble(&values, calibration, layout, location, time),
        Err(e) => Err(e),
    }
}

/// Why no records came of a line.
#[derive(Debug, PartialEq, Eq)]
pub enum SpliceError {
    /// The line was discarded.
    Line(ParseError),
    /// The line was read, but the clock gave no instant that can be stored.
    Clock,
}

/// A [`SpliceError`] as contracts speak of it.
pub enum SpliceFault {
    Line(ParseFault),
    Clock,
}

impl View for SpliceError {
    type V = SpliceFault;

    open spec fn view(&self) -> SpliceFault {
        match *self {
            SpliceError::Line(e) => SpliceFault::Line(e@),
            SpliceError::Clock => SpliceFault::Clock,
        }
    }
}

/// Reads one line of text and assembles its records for the present instant.
///
/// The line is judged first, as [`splice_at`] judges it, and a discarded line
/// is reported whatever the clock says. For a line that is read the clock is
/// asked once, and all records carry what it gave.
pub fn splice_sensor_readings(
    location: String,
    input_string: &str,
    layout: &Layout,
    calibration: &Calibration,
) -> (r: Result<Vec<MetricRecord>, SpliceError>)
    ensures
        match r {
            Ok(batch) => batch@.len() > 0 && splice_of(
                input_string.spec_bytes(),
                calibration@,
                layout@,
                location@,
                batch@[0].time,
            ) == Ok::<Seq<RecordView>, ParseFault>(record_views(batch@)),
            Err(SpliceError::Line(e)) => reading_of(input_string.spec_bytes(), layout@.arity)
                == Err::<Seq<Seq<u8>>, ParseFault>(e@),
            Err(SpliceError::Clock) => reading_of(input_string.spec_bytes(), layout@.arity) is Ok,
        },
{
    let values = match parse_reading(input_string.as_bytes(), layout.arity()) {
        Ok(values) => values,
        Err(e) => {
            return Err(SpliceError::Line(e));
        },
    };
    let time = match Timestamp::now() {
        Some(time) => time,
        None => {
            return Err(SpliceError::Clock);
        },
    };
    match assemble(&values, calibration, layout, location.as_str(), time) {
        Ok(batch) => {
            proof {
                lemma_batch_len(values@, calibration@, layout@, location@, time);
                lemma_batch_shares_time_and_tag(values@, calibration@, layout@, location@, time);
                assert(record_views(batch@).len() == batch@.len());
                assert(record_views(batch@)[0] == batch@[0]@);
            }
            Ok(batch)
        },
        Err(e) => Err(SpliceError::Line(e)),
    }
}

} // verus!
