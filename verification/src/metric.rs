//! Metric records: what the pipeline hands to the time-series store.
//!
//! A record is one timestamped, tagged observation: a measurement, the instant
//! of capture, an ordered list of fields and the site it comes from. A field
//! does not hold a machine number. It holds a [`Quantity`]: the numerals that
//! were read and what is to be computed from them. Two records with equal views
//! therefore denote the same numbers, whatever arithmetic a host applies.

use crate::numeral::texts;
use crate::numeral::Numeral;
use vstd::prelude::*;

verus! {

/// The instant at which a line was captured, in nanoseconds since the Unix
/// epoch.
#[derive(Clone, Copy, Debug, PartialEq, Eq)]
pub struct Timestamp {
    pub nanos: i64,
}

/// Reads the wall clock with `std::time::SystemTime::now`, takes it as a date
/// with chrono's `impl From<SystemTime> for DateTime<Utc>` and counts it with
/// `DateTime::timestamp_nanos_opt`: nanoseconds from the Unix epoch, negative
/// before it, or `None` where that number does not fit. Nothing is claimed of
/// the value. The conversion takes a clock before the epoch as it takes one
/// after it; it panics only on an instant outside the years that chrono can
/// name, some 262,000 years either way.
#[verifier::external_body]
fn capture_instant() -> (nanos: Option<i64>) {
    chrono::DateTime::<chrono::Utc>::from(std::time::SystemTime::now()).timestamp_nanos_opt()
}

/// The instant that a reading of the clock stands for: the reading itself
/// where there is one and it is not before the epoch.
pub open spec fn instant_of(reading: Option<i64>) -> Option<Timestamp> {
    match reading {
        Some(nanos) => if nanos >= 0 {
            Some(Timestamp { nanos })
        } else {
            None
        },
        None => None,
    }
}

impl Timestamp {
    /// The present instant, or `None` where the clock stands before the epoch
    /// or too late to count in nanoseconds. Two calls may give two instants.
    pub fn now() -> (r: Option<Timestamp>)
        ensures
            r matches Some(instant) ==> instant.nanos >= 0,
    {
        Timestamp::from_clock(capture_instant())
    }

    /// Takes a reading of the clock, in nanoseconds from the epoch, as an
    /// instant. Only an instant from the epoch on can be stored: a reading
    /// before it, like a missing one, gives `None`.
    pub fn from_clock(reading: Option<i64>) -> (r: Option<Timestamp>)
        ensures
            r == instant_of(reading),
    {
        match reading {
            Some(nanos) => if nanos >= 0 {
                Some(Timestamp { nanos })
            } else {
                None
            },
            None => None,
        }
    }
}

/// The measurement that a record belongs to.
#[derive(Clone, Copy, Debug, PartialEq, Eq)]
pub enum Measurement {
    /// Primary temperature and pressure.
    Bmp280,
    /// Primary temperature, pressure and humidity.
    Bme280,
    /// Temperature of the second sensor.
    Tmp36,
    /// Supply voltages.
    Voltage,
    /// Forward and reverse RF power and their standing-wave ratio.
    RfPower,
    /// Health of the host itself.
    PiStatus,
}

impl Measurement {
    /// The name under which the store files the measurement.
    pub open spec fn spec_name(self) -> Seq<char> {
        match self {
            Measurement::Bmp280 => "bmp280"@,
            Measurement::Bme280 => "bme280"@,
            Measurement::Tmp36 => "tmp36"@,
            Measurement::Voltage => "voltage"@,
            Measurement::RfPower => "rf_power"@,
            Measurement::PiStatus => "pi_status"@,
        }
    }

    /// The name under which the store files the measurement.
    pub fn name(&self) -> (s: &'static str)
        ensures
            s@ == self.spec_name(),
    {
        match self {
            Measurement::Bmp280 => "bmp280",
            Measurement::Bme280 => "bme280",
            Measurement::Tmp36 => "tmp36",
            Measurement::Voltage => "voltage",
            Measurement::RfPower => "rf_power",
            Measurement::PiStatus => "pi_status",
        }
    }
}

/// The name of a field within its measurement.
#[derive(Clone, Copy, Debug, PartialEq, Eq)]
pub enum FieldKey {
    TemperatureF,
    Pressure,
    Humidity,
    Main,
    Amplifier,
    Usb,
    Forward,
    Reverse,
    Swr,
    TemperatureC,
    ClockFreqHz,
}

impl FieldKey {
    /// The name under which the store files the field.
    pub open spec fn spec_name(self) -> Seq<char> {
        match self {
            FieldKey::TemperatureF => "temperature_f"@,
            FieldKey::Pressure => "pressure"@,
            FieldKey::Humidity => "humidity"@,
            FieldKey::Main => "main"@,
            FieldKey::Amplifier => "amplifier"@,
            FieldKey::Usb => "usb"@,
            FieldKey::Forward => "forward"@,
            FieldKey::Reverse => "reverse"@,
            FieldKey::Swr => "swr"@,
            FieldKey::TemperatureC => "temperature_c"@,
            FieldKey::ClockFreqHz => "clock_freq_hz"@,
        }
    }

    /// The name under which the store files the field.
    pub fn name(&self) -> (s: &'static str)
        ensures
            s@ == self.spec_name(),
    {
        match self {
            FieldKey::TemperatureF => "temperature_f",
            FieldKey::Pressure => "pressure",
            FieldKey::Humidity => "humidity",
            FieldKey::Main => "main",
            FieldKey::Amplifier => "amplifier",
            FieldKey::Usb => "usb",
            FieldKey::Forward => "forward",
            FieldKey::Reverse => "reverse",
            FieldKey::Swr => "swr",
            FieldKey::TemperatureC => "temperature_c",
            FieldKey::ClockFreqHz => "clock_freq_hz",
        }
    }
}

/// The number that a field reports, as the numerals it is made from.
#[derive(Clone, Debug, PartialEq, Eq)]
pub enum Quantity {
    /// The number that the numeral denotes, passed through as it was read.
    Measured(Numeral),
    /// The value at `raw` of the polynomial with these coefficients, the
    /// constant term first: `c0 + c1 * raw + c2 * raw^2 + ...`, and 0 where
    /// there are no coefficients.
    Calibrated { coefficients: Vec<Numeral>, raw: Numeral },
    /// The standing-wave ratio of the two powers as they were read,
    /// `(1 + g) / (1 - g)` with `g` the square root of `reverse / forward`.
    StandingWaveRatio { forward: Numeral, reverse: Numeral },
    /// A whole number.
    Count(i64),
}

/// A [`Quantity`] as contracts speak of it.
pub enum QuantityView {
    Measured(Seq<u8>),
    Calibrated { coefficients: Seq<Seq<u8>>, raw: Seq<u8> },
    StandingWaveRatio { forward: Seq<u8>, reverse: Seq<u8> },
    Count(i64),
}

impl View for Quantity {
    type V = QuantityView;

    open spec fn view(&self) -> QuantityView {
        match *self {
            Quantity::Measured(n) => QuantityView::Measured(n@),
            Quantity::Calibrated { coefficients, raw } => QuantityView::Calibrated {
                coefficients: texts(coefficients@),
                raw: raw@,
            },
            Quantity::StandingWaveRatio { forward, reverse } => QuantityView::StandingWaveRatio {
                forward: forward@,
                reverse: reverse@,
            },
            Quantity::Count(n) => QuantityView::Count(n),
        }
    }
}

/// One named number of a record.
#[derive(Clone, Debug, PartialEq, Eq)]
pub struct Field {
    pub key: FieldKey,
    pub quantity: Quantity,
}

/// A [`Field`] as contracts speak of it.
pub struct FieldView {
    pub key: FieldKey,
    pub quantity: QuantityView,
}

impl View for Field {
    type V = FieldView;

    open spec fn view(&self) -> FieldView {
        FieldView { key: self.key, quantity: self.quantity@ }
    }
}

/// The views of the fields, in order.
pub open spec fn field_views(fields: Seq<Field>) -> Seq<FieldView> {
    Seq::new(fields.len(), |i: int| fields[i]@)
}

/// One observation: a measurement, the instant of capture, its fields in the
/// order in which they are written, and the site tag.
#[derive(Clone, Debug, PartialEq, Eq)]
pub struct MetricRecord {
    pub measurement: Measurement,
    pub time: Timestamp,
    pub fields: Vec<Field>,
    pub location: String,
}

/// A [`MetricRecord`] as contracts speak of it.
pub struct RecordView {
    pub measurement: Measurement,
    pub time: Timestamp,
    pub fields: Seq<FieldView>,
    pub location: Seq<char>,
}

impl View for MetricRecord {
    type V = RecordView;

    open spec fn view(&self) -> RecordView {
        RecordView {
            measurement: self.measurement,
            time: self.time,
            fields: field_views(self.fields@),
            location: self.location@,
        }
    }
}

/// The views of the records, in order.
pub open spec fn record_views(records: Seq<MetricRecord>) -> Seq<RecordView> {
    Seq::new(records.len(), |i: int| records[i]@)
}

/// The field that passes a numeral through.
pub open spec fn measured(key: FieldKey, text: Seq<u8>) -> FieldView {
    FieldView { key, quantity: QuantityView::Measured(text) }
}

/// The field that reports a polynomial's value at a numeral.
pub open spec fn calibrated(key: FieldKey, coefficients: Seq<Seq<u8>>, raw: Seq<u8>) -> FieldView {
    FieldView { key, quantity: QuantityView::Calibrated { coefficients, raw } }
}

/// The field that reports the standing-wave ratio of two numerals.
pub open spec fn standing_wave_ratio(forward: Seq<u8>, reverse: Seq<u8>) -> FieldView {
    FieldView { key: FieldKey::Swr, quantity: QuantityView::StandingWaveRatio { forward, reverse } }
}

} // verus!
