use repeaterpi::reading::parse_reading;
use repeaterpi::reading::ChannelValues;
use repeaterpi::reading::ParseError;
use repeaterpi::numeral::Numeral;

fn texts(values: &ChannelValues) -> Vec<String> {
    (0..values.len())
        .map(|i| String::from_utf8(values.get(i).unwrap().as_bytes().to_vec()).unwrap())
        .collect()
}

#[test]
fn a_line_of_numerals_is_read_in_order() {
    let values = parse_reading(b"72.4,1002.3,13.2,13.8,74,13", 6).unwrap();
    assert_eq!(values.len(), 6);
    assert_eq!(texts(&values), vec!["72.4", "1002.3", "13.2", "13.8", "74", "13"]);
    assert!(values.get(6).is_none());
}

#[test]
fn a_line_with_fewer_fields_is_a_shape_error() {
    assert_eq!(
        parse_reading(b"72.4,1002.3,13.2", 8),
        Err(ParseError::Shape { observed: 3, expected: 8 })
    );
}

#[test]
fn a_line_with_more_fields_is_a_shape_error() {
    assert_eq!(
        parse_reading(b"1,2,3,4,5,6,7,8,9,10", 9),
        Err(ParseError::Shape { observed: 10, expected: 9 })
    );
}

#[test]
fn the_shape_is_judged_before_the_fields() {
    assert_eq!(
        parse_reading(b"abc,def", 3),
        Err(ParseError::Shape { observed: 2, expected: 3 })
    );
}

#[test]
fn a_field_that_is_no_number_is_a_conversion_error() {
    assert_eq!(
        parse_reading(b"72.4,1002.3,68.0,abc,13.8,0.2,74,13,0", 9),
        Err(ParseError::Conversion { position: 3, text: b"abc".to_vec() })
    );
}

#[test]
fn the_first_bad_field_is_reported() {
    assert_eq!(
        parse_reading(b"1,x,3,y", 4),
        Err(ParseError::Conversion { position: 1, text: b"x".to_vec() })
    );
    assert_eq!(
        parse_reading(b"x,2,3,4", 4),
        Err(ParseError::Conversion { position: 0, text: b"x".to_vec() })
    );
    assert_eq!(
        parse_reading(b"1,2,3,", 4),
        Err(ParseError::Conversion { position: 3, text: Vec::new() })
    );
}

#[test]
fn an_empty_line_has_one_empty_field() {
    assert_eq!(parse_reading(b"", 0), Err(ParseError::Shape { observed: 1, expected: 0 }));
    assert_eq!(
        parse_reading(b"", 1),
        Err(ParseError::Conversion { position: 0, text: Vec::new() })
    );
}

#[test]
fn nothing_is_trimmed() {
    assert_eq!(
        parse_reading(b"1, 2", 2),
        Err(ParseError::Conversion { position: 1, text: b" 2".to_vec() })
    );
    assert_eq!(
        parse_reading(b"1,2\r", 2),
        Err(ParseError::Conversion { position: 1, text: b"2\r".to_vec() })
    );
}

#[test]
fn a_field_that_is_no_text_is_a_conversion_error() {
    assert_eq!(
        parse_reading(&[0x31, 0x2c, 0xff, 0xfe], 2),
        Err(ParseError::Conversion { position: 1, text: vec![0xff, 0xfe] })
    );
}

#[test]
fn parse_errors_can_be_copied() {
    let e = ParseError::Conversion { position: 2, text: b"abc".to_vec() };
    assert_eq!(e.clone(), e);
    let s = ParseError::Shape { observed: 1, expected: 2 };
    assert_eq!(s.clone(), s);
}

#[test]
fn channel_values_can_be_built_and_copied() {
    let values = ChannelValues::new(vec![
        Numeral::parse(b"1").unwrap(),
        Numeral::parse(b"2.5").unwrap(),
    ]);
    assert_eq!(values.len(), 2);
    assert_eq!(values.clone(), values);
    assert_eq!(values.get(1).unwrap().as_bytes(), b"2.5");
}
