use quazal::rmc::basic::{FromStream, ToStream};
use quazal::text::IntErrorKind;
use quazal::rmc::types::{DateTime, Property, QList, QResult, StationURL, StationURLParseError};

#[test]
fn parse_stationurl() {
    let parsed: StationURL = "prudp:/address=127.0.0.1;port=3074;sid=15;type=3".parse().unwrap();
    assert_eq!(parsed.address.as_str(), "127.0.0.1");
    assert_eq!(parsed.port, 3074);
    let get = |k: &str| parsed.params.iter().find(|(key, _)| key == k).map(|(_, v)| v.as_str());
    assert_eq!(get("sid"), Some("15"));
    assert_eq!(get("type"), Some("3"));
}

#[test]
fn stationurl_errors() {
    assert_eq!(StationURL::parse_str("address=1;port=2").unwrap_err(), StationURLParseError::MissingScheme);
    assert_eq!(StationURL::parse_str("prudp:/address=1;port").unwrap_err(), StationURLParseError::InvalidParameters);
    assert_eq!(StationURL::parse_str("prudp:/port=2").unwrap_err(), StationURLParseError::MissingAddress);
    assert_eq!(StationURL::parse_str("prudp:/address=1").unwrap_err(), StationURLParseError::MissingPort);
    assert_eq!(
        StationURL::parse_str("prudp:/address=1;port=99999").unwrap_err(),
        StationURLParseError::InvalidPort(IntErrorKind::PosOverflow)
    );
    assert_eq!(
        StationURL::parse_str("prudp:/address=1;port=").unwrap_err(),
        StationURLParseError::InvalidPort(IntErrorKind::Empty)
    );
    assert_eq!(
        StationURL::parse_str("prudp:/address=1;port=2x").unwrap_err(),
        StationURLParseError::InvalidPort(IntErrorKind::InvalidDigit)
    );
    assert_eq!(
        StationURL::parse_str("prudp:/address=1;port=+").unwrap_err(),
        StationURLParseError::InvalidPort(IntErrorKind::InvalidDigit)
    );
    // the digits are read from the front: an overflow comes before a later bad character
    assert_eq!(
        StationURL::parse_str("prudp:/address=1;port=999999x").unwrap_err(),
        StationURLParseError::InvalidPort(IntErrorKind::PosOverflow)
    );
}

#[test]
fn stationurl_text_round_trip() {
    let u = StationURL::parse_str("prudp:/sid=15;address=10.0.0.1;port=21126;type=2;sid=16").unwrap();
    assert_eq!(u.scheme, "prudp");
    assert_eq!(u.address, "10.0.0.1");
    assert_eq!(u.port, 21126);
    // a repeated parameter keeps its first position and its last value
    assert_eq!(u.params, vec![("sid".to_string(), "16".to_string()), ("type".to_string(), "2".to_string())]);
    let text = u.to_string();
    assert_eq!(text, "prudp:/address=10.0.0.1;port=21126;sid=16;type=2");
    let again = StationURL::parse_str(&text).unwrap();
    assert_eq!(again.to_string(), text);
}

#[test]
fn stationurl_stream_round_trip() {
    let u = StationURL::parse_str("prudp:/address=127.0.0.1;port=3074").unwrap();
    let bytes = u.to_bytes();
    let back = StationURL::from_bytes(&bytes).unwrap();
    assert_eq!(back.address, "127.0.0.1");
    assert_eq!(back.port, 3074);
}

#[test]
fn stationurl_list() {
    let ok = QList::<StationURL>::try_from_strs(&vec!["prudp:/address=a;port=1".to_string()]).unwrap();
    assert_eq!(ok.0.len(), 1);
    assert!(QList::<StationURL>::try_from_strs(&vec!["nope".to_string()]).is_err());
}

#[test]
fn qresult_codes() {
    assert_eq!(QResult::from_code(0x10001), QResult::Success);
    assert_eq!(QResult::Success.code(), 0x10001);
    assert!(matches!(QResult::from_code(0x8001_0002), QResult::Error(_)));
    assert_eq!(QResult::from_code(0x8001_0002).code(), 0x8001_0002);
    assert_eq!(QResult::from_code(0x1234), QResult::Unknown(0x1234));
    assert_eq!(QResult::from_bytes(&[1, 0, 1, 0]).unwrap(), QResult::Success);
}

#[test]
fn property_text() {
    let p = Property::parse_str("12 => 34").unwrap();
    assert_eq!(p.id, 12);
    assert_eq!(p.value, 34);
    assert_eq!(p.to_string(), "12 => 34");
    assert!(Property::parse_str("12").is_err());
    assert!(Property::parse_str("12 => x").is_err());
    let l = QList::<Property>::parse_str("1 => 2;3 => 4").unwrap();
    assert_eq!(l.0.len(), 2);
    assert_eq!(l.0[1].value, 4);
}

#[test]
fn datetime_components() {
    let d = DateTime(0);
    assert_eq!(d.components(), (0, 0, 0, 0, 0, 0));
    let d = DateTime::from_bytes(&[1, 0, 0, 0, 0, 0, 0, 0]).unwrap();
    assert_eq!(d.0, 1);
}

#[test]
fn string_stream_round_trip() {
    let s = "ABCD".to_string();
    let b = s.to_bytes();
    assert_eq!(b, b"\x05\x00ABCD\x00".to_vec());
    assert_eq!(String::from_bytes(&b).unwrap(), "ABCD");
}
