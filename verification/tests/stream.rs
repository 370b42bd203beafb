use quazal::rmc::basic::{FromStream, FromStreamError, ToStream};
use quazal::rmc::types::Variant;

#[test]
fn list_of_pairs_reads_back() {
    let v = vec![("abc".to_string(), 7u32), (String::new(), 0), ("ünï".to_string(), u32::MAX)];
    let mut bytes = v.to_bytes();
    bytes.extend_from_slice(&[1, 2, 3]);
    let back: Vec<(String, u32)> = FromStream::from_bytes(&bytes).unwrap();
    assert_eq!(back, v);
}

#[test]
fn string_encoding() {
    assert_eq!("Hi".to_string().to_bytes(), vec![3, 0, b'H', b'i', 0]);
    assert_eq!(String::new().to_bytes(), vec![0, 0]);
    assert_eq!(String::from_bytes(&[3, 0, b'H', b'i', 0]).unwrap(), "Hi");
}

#[test]
fn string_with_nul_does_not_read_back() {
    let bytes = "a\0b".to_string().to_bytes();
    assert_eq!(String::from_bytes(&bytes).unwrap_err(), FromStreamError::ParseCString);
}

#[test]
fn core_configuration_reads_back() {
    let config = vec![
        ("Empty".to_string(), Variant::Empty),
        ("Int".to_string(), Variant::I64(-5)),
        ("Float".to_string(), Variant::F64(1.5f64.to_bits())),
        ("Flag".to_string(), Variant::Bool(true)),
        ("Name".to_string(), Variant::String("Sam".to_string())),
        ("Count".to_string(), Variant::U64(u64::MAX)),
    ];
    let bytes = config.to_bytes();
    let back: Vec<(String, Variant)> = FromStream::from_bytes(&bytes).unwrap();
    assert_eq!(back, config);
}
