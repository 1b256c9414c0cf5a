use telemetry_ingest::decoder::{decode, WireFormat};
use telemetry_ingest::delimited::{decode_delimited, parse_session, FIELDS, SEPARATOR};
use telemetry_ingest::outcome::DecodeOutcome;
use telemetry_ingest::record::{Record, Scalar};

fn chars(s: &str) -> Vec<char> {
    s.chars().collect()
}

fn record_of(line: &str) -> Record {
    match decode_delimited(line) {
        DecodeOutcome::Record(record) => record,
        other => panic!("no record from {:?}: {:?}", line, other),
    }
}

fn value(scalar: &Scalar) -> f64 {
    scalar.as_str().parse::<f64>().unwrap()
}

fn values(record: &Record) -> Vec<f64> {
    vec![
        value(&record.latitude),
        value(&record.longitude),
        value(&record.altitude),
        value(&record.accel_x),
        value(&record.accel_y),
        value(&record.accel_z),
        value(&record.gyro_x),
        value(&record.gyro_y),
        value(&record.gyro_z),
        value(&record.dac_1),
        value(&record.dac_2),
        value(&record.dac_3),
        value(&record.dac_4),
    ]
}

#[test]
fn the_layout_is_fifteen_fields_between_commas() {
    assert_eq!(FIELDS, 15);
    assert_eq!(SEPARATOR, ',');
}

#[test]
fn line_without_session_decodes_to_a_record() {
    let record = record_of("None,2024-01-01T00:00:00Z,1.0,2.0,3.0,0,0,0,0,0,0,0,0,0,0");
    assert_eq!(record.session_id, None);
    assert_eq!(record.timestamp, "2024-01-01T00:00:00Z");
    assert_eq!(value(&record.latitude), 1.0);
    assert_eq!(value(&record.longitude), 2.0);
    assert_eq!(value(&record.altitude), 3.0);
    assert_eq!(
        values(&record),
        vec![1.0, 2.0, 3.0, 0.0, 0.0, 0.0, 0.0, 0.0, 0.0, 0.0, 0.0, 0.0, 0.0]
    );
}

#[test]
fn line_of_four_fields_is_malformed() {
    assert_eq!(decode_delimited("7,t,1,2"), DecodeOutcome::Malformed("7,t,1,2".to_string()));
}

#[test]
fn every_field_lands_in_its_place() {
    let record = record_of("42,now,1,2,3,4,5,6,7,8,9,10,11,12,13");
    assert_eq!(record.session_id, Some(42));
    assert_eq!(record.timestamp, "now");
    assert_eq!(
        values(&record),
        vec![1.0, 2.0, 3.0, 4.0, 5.0, 6.0, 7.0, 8.0, 9.0, 10.0, 11.0, 12.0, 13.0]
    );
    assert_eq!(record.latitude.as_str(), "1");
    assert_eq!(record.dac_4.as_str(), "13");
}

#[test]
fn literals_are_kept_as_they_were_written() {
    let record = record_of("1,t,-1.50,+2e3,.5,7.,1E-2,inf,NaN,0,0,0,0,0,0");
    assert_eq!(record.latitude.as_str(), "-1.50");
    assert_eq!(record.longitude.as_str(), "+2e3");
    assert_eq!(record.altitude.as_str(), ".5");
    assert_eq!(record.accel_x.as_str(), "7.");
    assert_eq!(record.accel_y.as_str(), "1E-2");
    assert_eq!(record.accel_z.as_str(), "inf");
    assert_eq!(record.gyro_x.as_str(), "NaN");
    assert_eq!(value(&record.latitude), -1.5);
    assert_eq!(value(&record.longitude), 2000.0);
    assert_eq!(value(&record.accel_y), 0.01);
}

#[test]
fn unreadable_scalar_is_zero_and_the_line_is_kept() {
    let record = record_of("3,t,abc,,1.2.3, 4,5 ,--6,7e,0x8,9,ten,1_1,12,13");
    assert_eq!(record.session_id, Some(3));
    assert_eq!(
        values(&record),
        vec![0.0, 0.0, 0.0, 0.0, 0.0, 0.0, 0.0, 0.0, 9.0, 0.0, 0.0, 12.0, 13.0]
    );
    assert_eq!(record.latitude, Scalar::zero());
    assert_eq!(record.gyro_z.as_str(), "9");
}

#[test]
fn one_unreadable_scalar_leaves_the_others_alone() {
    let record = record_of("3,t,1.5,bad,2.5,0,0,0,0,0,0,0,0,0,0");
    assert_eq!(value(&record.latitude), 1.5);
    assert_eq!(value(&record.longitude), 0.0);
    assert_eq!(value(&record.altitude), 2.5);
}

#[test]
fn every_line_of_fifteen_fields_or_more_is_decoded() {
    let lines = [
        ",,,,,,,,,,,,,,",
        "x,y,z,z,z,z,z,z,z,z,z,z,z,z,z",
        "1,t,1,2,3,4,5,6,7,8,9,10,11,12,13,extra,more",
        "None,,0,0,0,0,0,0,0,0,0,0,0,0,0,",
        "\"type\":\"keepalive\",t,0,0,0,0,0,0,0,0,0,0,0,0,0",
    ];
    for line in lines {
        assert!(decode_delimited(line).is_record(), "{:?}", line);
    }
}

#[test]
fn fields_after_the_fifteenth_are_not_read() {
    let record = record_of("1,t,1,2,3,4,5,6,7,8,9,10,11,12,13,14,15");
    assert_eq!(value(&record.dac_4), 13.0);
    assert_eq!(record, record_of("1,t,1,2,3,4,5,6,7,8,9,10,11,12,13"));
}

#[test]
fn every_line_of_fewer_than_fifteen_fields_is_malformed() {
    let lines = [
        "",
        "x",
        "7,t,1,2",
        "1,t,1,2,3,4,5,6,7,8,9,10,11,12",
        "1,keepalive,1,2,3,4,5,6,7,8,9,10,11,12",
        "{\"type\":\"keepalive\"}",
        "keepalive",
    ];
    for line in lines {
        assert_eq!(decode_delimited(line), DecodeOutcome::Malformed(line.to_string()), "{:?}", line);
    }
}

#[test]
fn session_is_absent_for_the_token_and_for_what_is_no_number() {
    assert_eq!(parse_session(&chars("None")), None);
    assert_eq!(parse_session(&chars("none")), None);
    assert_eq!(parse_session(&chars("")), None);
    assert_eq!(parse_session(&chars("7.0")), None);
    assert_eq!(parse_session(&chars("abc")), None);
    assert_eq!(parse_session(&chars("2147483648")), None);
    assert_eq!(parse_session(&chars("7")), Some(7));
    assert_eq!(parse_session(&chars("-12")), Some(-12));
    assert_eq!(parse_session(&chars("2147483647")), Some(i32::MAX));
}

#[test]
fn unreadable_session_does_not_reject_the_line() {
    assert_eq!(record_of("seven,t,0,0,0,0,0,0,0,0,0,0,0,0,0").session_id, None);
    assert_eq!(record_of("99999999999,t,0,0,0,0,0,0,0,0,0,0,0,0,0").session_id, None);
    assert_eq!(record_of("-5,t,0,0,0,0,0,0,0,0,0,0,0,0,0").session_id, Some(-5));
}

#[test]
fn timestamp_is_stored_as_it_came() {
    assert_eq!(record_of("1, not a date ,0,0,0,0,0,0,0,0,0,0,0,0,0").timestamp, " not a date ");
    assert_eq!(record_of("1,,0,0,0,0,0,0,0,0,0,0,0,0,0").timestamp, "");
    assert_eq!(record_of("1,é√,0,0,0,0,0,0,0,0,0,0,0,0,0").timestamp, "é√");
}

#[test]
fn keepalive_in_the_timestamp_gives_no_record() {
    for stamp in ["keepalive", "xkeepalivex", "2024 keepalive", "keepalive-1"] {
        let line = format!("1,{},0,0,0,0,0,0,0,0,0,0,0,0,0", stamp);
        assert_eq!(decode_delimited(&line), DecodeOutcome::Keepalive, "{:?}", line);
    }
}

#[test]
fn keepalive_elsewhere_in_the_line_is_no_keepalive() {
    let record = record_of("keepalive,t,keepalive,0,0,0,0,0,0,0,0,0,0,0,0");
    assert_eq!(record.session_id, None);
    assert_eq!(record.latitude, Scalar::zero());
    assert!(decode_delimited("1,Keepalive,0,0,0,0,0,0,0,0,0,0,0,0,0").is_record());
}

#[test]
fn decode_goes_by_the_format() {
    let line = "None,2024-01-01T00:00:00Z,1.0,2.0,3.0,0,0,0,0,0,0,0,0,0,0";
    assert_eq!(decode(WireFormat::Delimited, line), decode_delimited(line));
    assert!(decode(WireFormat::Delimited, line).is_record());
    assert!(decode(WireFormat::Structured, line).is_malformed());
}
