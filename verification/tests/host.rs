use repeaterpi::cpu_stats::cpu_stats_at;
use repeaterpi::cpu_stats::cpu_stats_from_report;
use repeaterpi::cpu_stats::get_cpu_stats;
use repeaterpi::cpu_stats::get_vcgencmd_stats;
use repeaterpi::cpu_stats::measure_temp_reading;
use repeaterpi::cpu_stats::vcgencmd_stats_at;
use repeaterpi::cpu_stats::CpuStatsError;
use repeaterpi::metric::Field;
use repeaterpi::metric::FieldKey;
use repeaterpi::metric::Measurement;
use repeaterpi::metric::MetricRecord;
use repeaterpi::metric::Quantity;
use repeaterpi::metric::Timestamp;
use repeaterpi::numeral::Numeral;

fn n(text: &str) -> Numeral {
    Numeral::parse(text.as_bytes()).unwrap()
}

const NOON: Timestamp = Timestamp { nanos: 1_700_000_000_000_000_000 };

fn temperature_record(text: &str, time: Timestamp) -> MetricRecord {
    MetricRecord {
        measurement: Measurement::PiStatus,
        time,
        fields: vec![Field { key: FieldKey::TemperatureC, quantity: Quantity::Measured(n(text)) }],
        location: "site".to_string(),
    }
}

#[test]
fn a_temperature_report_holds_the_numeral_between_its_ends() {
    assert_eq!(measure_temp_reading("temp=47.2'C"), Some(n("47.2")));
    assert_eq!(measure_temp_reading("temp=-3'C"), Some(n("-3")));
    assert_eq!(measure_temp_reading("temp=1e2'C"), Some(n("1e2")));
    assert_eq!(measure_temp_reading("temp=nan'C"), Some(n("nan")));
}

#[test]
fn anything_else_is_no_temperature_report() {
    for report in [
        "",
        "temp=",
        "'C",
        "temp='C",
        "temp=47.2",
        "47.2'C",
        "temp=47.2'F",
        "Temp=47.2'C",
        "temp=47.2'C ",
        " temp=47.2'C",
        "temp=47.2'C\n",
        "temp= 47.2'C",
        "temp=abc'C",
        "temp=47.2'C'C",
        "temp=temp=47.2'C",
        "temp=47,2'C",
        "volt=1.2000V",
        "temp=47.2\u{b0}C",
    ] {
        assert_eq!(measure_temp_reading(report), None, "{:?}", report);
    }
}

#[test]
fn report_reading_agrees_with_stripping_the_ends() {
    for report in [
        "temp=47.2'C", "temp='C", "temp=", "temp=1'C'C", "temp=temp=1'C", "x", "temp=.5'C",
        "temp=.'C", "temp=+inf'C", "temp=1e'C",
    ] {
        let expected = report
            .strip_prefix("temp=")
            .and_then(|s| s.strip_suffix("'C"))
            .and_then(|t| t.parse::<f64>().ok().map(|_| t));
        let got = measure_temp_reading(report);
        assert_eq!(got.as_ref().map(|g| g.as_bytes()), expected.map(|e| e.as_bytes()), "{}", report);
    }
}

#[test]
fn a_report_gives_one_record() {
    assert_eq!(
        cpu_stats_from_report("site", true, "temp=47.2'C", NOON),
        Ok(vec![temperature_record("47.2", NOON)])
    );
}

#[test]
fn a_failed_run_gives_nothing_whatever_it_printed() {
    assert_eq!(
        cpu_stats_from_report("site", false, "temp=47.2'C", NOON),
        Err(CpuStatsError::CommandFailed)
    );
    assert_eq!(cpu_stats_at("site", false, b"temp=47.2'C\n", NOON), Err(CpuStatsError::CommandFailed));
    assert_eq!(
        get_cpu_stats("site".to_string(), false, b"temp=47.2'C\n"),
        Err(CpuStatsError::CommandFailed)
    );
}

#[test]
fn an_unexpected_report_is_handed_back() {
    assert_eq!(
        cpu_stats_from_report("site", true, "VCHI initialization failed", NOON),
        Err(CpuStatsError::UnexpectedFormat("VCHI initialization failed".to_string()))
    );
}

#[test]
fn white_space_around_the_output_is_taken_off() {
    assert_eq!(
        cpu_stats_at("site", true, b"temp=47.2'C\n", NOON),
        Ok(vec![temperature_record("47.2", NOON)])
    );
    assert_eq!(
        cpu_stats_at("site", true, b" \t\r\ntemp=51.0'C \n\n", NOON),
        Ok(vec![temperature_record("51.0", NOON)])
    );
    assert_eq!(
        cpu_stats_at("site", true, "\u{a0}\u{2003}temp=51.0'C\u{3000}".as_bytes(), NOON),
        Ok(vec![temperature_record("51.0", NOON)])
    );
    assert_eq!(
        cpu_stats_at("site", true, b"  no temperature here \n", NOON),
        Err(CpuStatsError::UnexpectedFormat("no temperature here".to_string()))
    );
    assert_eq!(
        cpu_stats_at("site", true, b"temp= 47.2'C\n", NOON),
        Err(CpuStatsError::UnexpectedFormat("temp= 47.2'C".to_string()))
    );
}

#[test]
fn output_that_is_no_text_is_read_with_marks() {
    assert_eq!(
        cpu_stats_at("site", true, &[0x74, 0x65, 0x6d, 0x70, 0x3d, 0xff, 0x27, 0x43, 0x0a], NOON),
        Err(CpuStatsError::UnexpectedFormat("temp=\u{fffd}'C".to_string()))
    );
    assert_eq!(
        cpu_stats_at("site", true, &[0xc3, 0x28], NOON),
        Err(CpuStatsError::UnexpectedFormat("\u{fffd}(".to_string()))
    );
}

#[test]
fn get_cpu_stats_stamps_the_record_with_the_present_instant() {
    let records = get_cpu_stats("site".to_string(), true, b"temp=47.2'C\n").unwrap();
    assert_eq!(records.len(), 1);
    assert!(records[0].time.nanos > 1_600_000_000_000_000_000);
    assert_eq!(records, vec![temperature_record("47.2", records[0].time)]);
    assert_eq!(
        get_cpu_stats("site".to_string(), true, b"nothing\n"),
        Err(CpuStatsError::UnexpectedFormat("nothing".to_string()))
    );
}

#[test]
fn temperature_and_clock_together_give_one_record() {
    assert_eq!(
        vcgencmd_stats_at("site", Some(n("47.2")), Some(1_500_000_000), NOON),
        vec![MetricRecord {
            measurement: Measurement::PiStatus,
            time: NOON,
            fields: vec![
                Field { key: FieldKey::TemperatureC, quantity: Quantity::Measured(n("47.2")) },
                Field { key: FieldKey::ClockFreqHz, quantity: Quantity::Count(1_500_000_000) },
            ],
            location: "site".to_string(),
        }]
    );
}

#[test]
fn a_missing_measurement_gives_no_record() {
    assert_eq!(vcgencmd_stats_at("site", None, Some(1), NOON), Vec::<MetricRecord>::new());
    assert_eq!(vcgencmd_stats_at("site", Some(n("1")), None, NOON), Vec::<MetricRecord>::new());
    assert_eq!(vcgencmd_stats_at("site", None, None, NOON), Vec::<MetricRecord>::new());
    assert_eq!(
        get_vcgencmd_stats("site".to_string(), None, Some(1)),
        Vec::<MetricRecord>::new()
    );
    assert_eq!(
        get_vcgencmd_stats("site".to_string(), Some(n("1")), None),
        Vec::<MetricRecord>::new()
    );
}

#[test]
fn get_vcgencmd_stats_stamps_the_record_with_the_present_instant() {
    let records = get_vcgencmd_stats("site".to_string(), Some(n("47.2")), Some(600_000_000));
    assert_eq!(records.len(), 1);
    assert!(records[0].time.nanos > 1_600_000_000_000_000_000);
    assert_eq!(
        records,
        vcgencmd_stats_at("site", Some(n("47.2")), Some(600_000_000), records[0].time)
    );
}
