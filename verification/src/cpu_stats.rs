//! Host health: records about the computer that runs the pipeline.
//!
//! The host reports its processor temperature through a firmware tool that
//! prints a line such as `temp=47.2'C`, and on some systems its clock
//! frequency through a library. Running the tool is the host's business. What
//! its output means is decided here.

use crate::metric::measured;
use crate::metric::record_views;
use crate::metric::Field;
use crate::metric::FieldKey;
use crate::metric::FieldView;
use crate::metric::Measurement;
use crate::metric::MetricRecord;
use crate::metric::Quantity;
use crate::metric::QuantityView;
use crate::metric::RecordView;
use crate::metric::Timestamp;
use crate::numeral::is_numeral;
use crate::numeral::Numeral;
use vstd::prelude::*;
use vstd::slice::slice_subrange;
use vstd::string::StringSliceAdditionalSpecFns;

verus! {

// What `String::from_utf8_lossy` makes of the bytes.
pub uninterp spec fn lossy_decoded(bytes: Seq<u8>) -> Seq<char>;

// What `str::trim` leaves of the text.
pub uninterp spec fn trimmed(text: Seq<char>) -> Seq<char>;

/// Reads bytes as text with `String::from_utf8_lossy`, which puts U+FFFD in
/// the place of whatever is not well-formed UTF-8. The result is named, not
/// described: it is a function of the bytes alone. Of well-formed UTF-8 it is
/// the text that the bytes encode.
#[verifier::external_body]
fn lossy_text(bytes: &[u8]) -> (text: String)
    ensures
        text@ == lossy_decoded(bytes@),
        vstd::utf8::valid_utf8(bytes@) ==> text@ == vstd::utf8::decode_utf8(bytes@),
{
    String::from_utf8_lossy(bytes).into_owned()
}

/// Takes the white space off both ends of a text with `str::trim`. White
/// space is what Unicode calls so, line ends included. The result is named,
/// not described: it is a function of the text alone.
#[verifier::external_body]
fn trim(text: &str) -> (inner: &str)
    ensures
        inner@ == trimmed(text@),
{
    text.trim()
}

/// The bytes of `temp=`, which a temperature report begins with.
pub open spec fn report_prefix() -> Seq<u8> {
    seq![0x74u8, 0x65u8, 0x6du8, 0x70u8, 0x3du8]
}

/// The bytes of `'C`, which a temperature report ends with.
pub open spec fn report_suffix() -> Seq<u8> {
    seq![0x27u8, 0x43u8]
}

/// The temperature that a report holds: the numeral between `temp=` and `'C`,
/// where the report is made of just these three.
pub open spec fn reported_temperature(report: Seq<u8>) -> Option<Seq<u8>> {
    if report.len() >= 7 && report.take(5) == report_prefix() && report.skip(report.len() - 2)
        == report_suffix() && is_numeral(report.subrange(5, report.len() - 2)) {
        Some(report.subrange(5, report.len() - 2))
    } else {
        None
    }
}

/// A report holds the temperature `text` exactly where it is `temp=`, then
/// `text`, then `'C`, and `text` is a numeral.
pub proof fn lemma_reported_temperature(report: Seq<u8>, text: Seq<u8>)
    ensures
        reported_temperature(report) == Some(text) <==> is_numeral(text) && report
            == report_prefix() + text + report_suffix(),
{
    if reported_temperature(report) == Some(text) {
        assert(report =~= report.take(5) + text + report.skip(report.len() - 2));
    }
    if is_numeral(text) && report == report_prefix() + text + report_suffix() {
        assert(report.take(5) =~= report_prefix());
        assert(report.skip(report.len() - 2) =~= report_suffix());
        assert(report.subrange(5, report.len() - 2) =~= text);
    }
}

/// Reads the temperature out of a report from which the white space around
/// it has been taken.
pub fn measure_temp_reading(report: &str) -> (r: Option<Numeral>)
    ensures
        match r {
            Some(n) => reported_temperature(report.spec_bytes()) == Some(n@),
            None => reported_temperature(report.spec_bytes()) is None,
        },
{
    let bytes = report.as_bytes();
    let n = bytes.len();
    if n < 7 {
        return None;
    }
    let starts: bool = bytes[0] == 0x74 && bytes[1] == 0x65 && bytes[2] == 0x6d && bytes[3] == 0x70
        && bytes[4] == 0x3d;
    let ends: bool = bytes[n - 2] == 0x27 && bytes[n - 1] == 0x43;
    proof {
        let s = bytes@;
        if starts {
            assert(s.take(5) =~= report_prefix());
        } else {
            assert(s.take(5)[0] == s[0] && s.take(5)[1] == s[1] && s.take(5)[2] == s[2]
                && s.take(5)[3] == s[3] && s.take(5)[4] == s[4]);
        }
        if ends {
            assert(s.skip(n - 2) =~= report_suffix());
        } else {
            assert(s.skip(n - 2)[0] == s[n - 2] && s.skip(n - 2)[1] == s[n - 1]);
        }
    }
    if !starts || !ends {
        return None;
    }
    Numeral::parse(slice_subrange(bytes, 5, n - 2))
}

/// Why the host's temperature is not recorded.
#[derive(Debug, PartialEq, Eq)]
pub enum CpuStatsError {
    /// The tool ran and reported failure.
    CommandFailed,
    /// The tool printed something that is no temperature report. The text is
    /// what it printed, without the white space around it.
    UnexpectedFormat(String),
    /// The clock gave no instant that can be stored.
    Clock,
}

/// A [`CpuStatsError`] as contracts speak of it.
pub enum CpuStatsFault {
    CommandFailed,
    UnexpectedFormat(Seq<char>),
    Clock,
}

impl View for CpuStatsError {
    type V = CpuStatsFault;

    open spec fn view(&self) -> CpuStatsFault {
        match *self {
            CpuStatsError::CommandFailed => CpuStatsFault::CommandFailed,
            CpuStatsError::UnexpectedFormat(text) => CpuStatsFault::UnexpectedFormat(text@),
            CpuStatsError::Clock => CpuStatsFault::Clock,
        }
    }
}

/// The record of the processor temperature, in degrees Celsius.
pub open spec fn cpu_temp_record(
    location: Seq<char>,
    temperature: Seq<u8>,
    time: Timestamp,
) -> RecordView {
    RecordView {
        measurement: Measurement::PiStatus,
        time,
        fields: seq![measured(FieldKey::TemperatureC, temperature)],
        location,
    }
}

/// The record of processor temperature and clock frequency.
pub open spec fn pi_status_record(
    location: Seq<char>,
    temperature: Seq<u8>,
    clock_freq_hz: i64,
    time: Timestamp,
) -> RecordView {
    RecordView {
        measurement: Measurement::PiStatus,
        time,
        fields: seq![
            measured(FieldKey::TemperatureC, temperature),
            FieldView { key: FieldKey::ClockFreqHz, quantity: QuantityView::Count(clock_freq_hz) },
        ],
        location,
    }
}

/// What a run of the temperature tool gives, `report` being what it printed
/// without the white space around it: one record, or the reason for none. A
/// run that failed gives nothing, whatever it printed.
pub open spec fn cpu_stats_of(
    location: Seq<char>,
    success: bool,
    report: Seq<char>,
    time: Timestamp,
) -> Result<Seq<RecordView>, CpuStatsFault> {
    if !success {
        Err(CpuStatsFault::CommandFailed)
    } else {
        match reported_temperature(vstd::utf8::encode_utf8(report)) {
            Some(temperature) => Ok(seq![cpu_temp_record(location, temperature, time)]),
            None => Err(CpuStatsFault::UnexpectedFormat(report)),
        }
    }
}

fn temperature_records(location: &str, temperature: Numeral, time: Timestamp) -> (records: Vec<
    MetricRecord,
>)
    ensures
        record_views(records@) == seq![cpu_temp_record(location@, temperature@, time)],
        records@.len() == 1,
        records@[0].time == time,
{
    let mut fields: Vec<Field> = Vec::new();
    fields.push(Field { key: FieldKey::TemperatureC, quantity: Quantity::Measured(temperature) });
    let record = MetricRecord {
        measurement: Measurement::PiStatus,
        time,
        fields,
        location: location.to_owned(),
    };
    assert(record@.fields =~= cpu_temp_record(location@, temperature@, time).fields);
    let mut records: Vec<MetricRecord> = Vec::new();
    records.push(record);
    assert(record_views(records@) =~= seq![cpu_temp_record(location@, temperature@, time)]);
    records
}

/// Makes the record of the processor temperature from what the tool printed,
/// the white space around it taken off, for the instant `time`.
pub fn cpu_stats_from_report(location: &str, success: bool, report: &str, time: Timestamp) -> (r:
    Result<Vec<MetricRecord>, CpuStatsError>)
    ensures
        match r {
            Ok(records) => cpu_stats_of(location@, success, report@, time) == Ok::<
                Seq<RecordView>,
                CpuStatsFault,
            >(record_views(records@)),
            Err(e) => cpu_stats_of(location@, success, report@, time) == Err::<
                Seq<RecordView>,
                CpuStatsFault,
            >(e@),
        },
{
    if !success {
        return Err(CpuStatsError::CommandFailed);
    }
    match measure_temp_reading(report) {
        Some(temperature) => Ok(temperature_records(location, temperature, time)),
        None => Err(CpuStatsError::UnexpectedFormat(report.to_owned())),
    }
}

/// Makes the record of the processor temperature from the bytes that the tool
/// printed, for the instant `time`. The bytes are read as text, with a mark in
/// place of what is no text, and the white space around the text is taken
/// off.
pub fn cpu_stats_at(location: &str, success: bool, stdout: &[u8], time: Timestamp) -> (r: Result<
    Vec<MetricRecord>,
    CpuStatsError,
>)
    ensures
        match r {
            Ok(records) => cpu_stats_of(
                location@,
                success,
                trimmed(lossy_decoded(stdout@)),
                time,
            ) == Ok::<Seq<RecordView>, CpuStatsFault>(record_views(records@)),
            Err(e) => cpu_stats_of(location@, success, trimmed(lossy_decoded(stdout@)), time)
                == Err::<Seq<RecordView>, CpuStatsFault>(e@),
        },
        vstd::utf8::valid_utf8(stdout@) ==> lossy_decoded(stdout@) == vstd::utf8::decode_utf8(
            stdout@,
        ),
{
    let text = lossy_text(stdout);
    cpu_stats_from_report(location, success, trim(text.as_str()), time)
}

/// Makes the record of the processor temperature from the bytes that the tool
/// printed, for the present instant.
///
/// The output is judged first, as [`cpu_stats_at`] judges it, and what is
/// wrong with it is reported whatever the clock says. Where it holds a
/// temperature the clock is asked once.
pub fn get_cpu_stats(location: String, success: bool, stdout: &[u8]) -> (r: Result<
    Vec<MetricRecord>,
    CpuStatsError,
>)
    ensures
        match r {
            Ok(records) => records@.len() == 1 && cpu_stats_of(
                location@,
                success,
                trimmed(lossy_decoded(stdout@)),
                records@[0].time,
            ) == Ok::<Seq<RecordView>, CpuStatsFault>(record_views(records@)),
            Err(CpuStatsError::Clock) => success && reported_temperature(
                vstd::utf8::encode_utf8(trimmed(lossy_decoded(stdout@))),
            ) is Some,
            Err(e) => forall|time: Timestamp|
                #[trigger] cpu_stats_of(
                    location@,
                    success,
                    trimmed(lossy_decoded(stdout@)),
                    time,
                ) == Err::<Seq<RecordView>, CpuStatsFault>(e@),
        },
        success && vstd::utf8::valid_utf8(stdout@) ==> lossy_decoded(stdout@)
            == vstd::utf8::decode_utf8(stdout@),
{
    if !success {
        return Err(CpuStatsError::CommandFailed);
    }
    let text = lossy_text(stdout);
    let report = trim(text.as_str());
    match measure_temp_reading(report) {
        Some(temperature) => match Timestamp::now() {
            Some(time) => Ok(temperature_records(location.as_str(), temperature, time)),
            None => Err(CpuStatsError::Clock),
        },
        None => Err(CpuStatsError::UnexpectedFormat(report.to_owned())),
    }
}

/// The records of the host's health as a library reports it: one record of
/// temperature and clock frequency where both were measured, none otherwise.
pub open spec fn vcgencmd_stats_of(
    location: Seq<char>,
    temperature: Option<Seq<u8>>,
    clock_freq_hz: Option<i64>,
    time: Timestamp,
) -> Seq<RecordView> {
    match (temperature, clock_freq_hz) {
        (Some(t), Some(f)) => seq![pi_status_record(location, t, f, time)],
        _ => Seq::<RecordView>::empty(),
    }
}

/// Makes the record of temperature and clock frequency for the instant
/// `time`, where both were measured.
pub fn vcgencmd_stats_at(
    location: &str,
    temperature: Option<Numeral>,
    clock_freq_hz: Option<i64>,
    time: Timestamp,
) -> (records: Vec<MetricRecord>)
    ensures
        record_views(records@) == vcgencmd_stats_of(
            location@,
            match temperature {
                Some(t) => Some(t@),
                None => None,
            },
            clock_freq_hz,
            time,
        ),
{
    let mut records: Vec<MetricRecord> = Vec::new();
    match (temperature, clock_freq_hz) {
        (Some(t), Some(f)) => {
            let mut fields: Vec<Field> = Vec::new();
            fields.push(Field { key: FieldKey::TemperatureC, quantity: Quantity::Measured(t) });
            fields.push(Field { key: FieldKey::ClockFreqHz, quantity: Quantity::Count(f) });
            let record = MetricRecord {
                measurement: Measurement::PiStatus,
                time,
                fields,
                location: location.to_owned(),
            };
            assert(record@.fields =~= pi_status_record(location@, t@, f, time).fields);
            records.push(record);
            assert(record_views(records@) =~= seq![pi_status_record(location@, t@, f, time)]);
        },
        _ => {
            assert(record_views(records@) =~= Seq::<RecordView>::empty());
        },
    }
    records
}

/// Makes the record of temperature and clock frequency for the present
/// instant, where both were measured and the clock gives an instant that can
/// be stored; no record otherwise.
pub fn get_vcgencmd_stats(
    location: String,
    temperature: Option<Numeral>,
    clock_freq_hz: Option<i64>,
) -> (records: Vec<MetricRecord>)
    ensures
        records@.len() <= 1,
        temperature is None || clock_freq_hz is None ==> records@.len() == 0,
        records@.len() == 1 ==> temperature is Some && clock_freq_hz is Some && record_views(
            records@,
        ) == vcgencmd_stats_of(
            location@,
            Some(temperature->0@),
            clock_freq_hz,
            records@[0].time,
        ),
{
    match Timestamp::now() {
        Some(time) => {
            let records = vcgencmd_stats_at(location.as_str(), temperature, clock_freq_hz, time);
            proof {
                assert(record_views(records@).len() == records@.len());
                if records@.len() == 1 {
                    assert(record_views(records@)[0] == records@[0]@);
                }
            }
            records
        },
        None => Vec::new(),
    }
}

} // verus!
