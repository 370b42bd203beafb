use quazal::ddl::{
    parse_ddl, parse_element, parse_element_list, parse_parameter_type, parse_subtype, read_string, read_u32,
    DDLHeader, DdlError, Element, ParameterType, SubType,
};
use quazal::rmc::basic::IoErrorKind;

fn string(out: &mut Vec<u8>, s: &str) {
    out.extend_from_slice(&(s.len() as u32).to_be_bytes());
    out.extend_from_slice(s.as_bytes());
}

fn header() -> Vec<u8> {
    let mut h = Vec::new();
    h.extend_from_slice(&0xCD65_2312u32.to_be_bytes());
    h.push(1);
    for v in [2u32, 3, 4, 5] {
        h.extend_from_slice(&v.to_be_bytes());
    }
    h
}

#[test]
fn header_fields_are_big_endian() {
    let h = DDLHeader::parse(&header()).unwrap();
    assert_eq!(h.magic, 0xCD65_2312);
    assert_eq!(h.unknown, 1);
    assert_eq!((h.major, h.minor, h.micro, h.build), (2, 3, 4, 5));
    assert!(DDLHeader::parse(&header()[..20]).is_none());
}

#[test]
fn short_file_is_unexpected_eof() {
    let h = header();
    let r = parse_ddl(&h[..10], 0);
    assert_eq!(r.err(), Some(IoErrorKind::UnexpectedEof));
}

#[test]
fn namespace_with_nested_template() {
    let mut data = header();
    data.extend_from_slice(&2u32.to_be_bytes());
    // a simple declaration
    data.push(0x11);
    string(&mut data, "int");
    string(&mut data, "x");
    string(&mut data, "ns");
    data.extend_from_slice(&7u32.to_be_bytes());
    // a variable of type list<int>
    data.push(0x06);
    string(&mut data, "v");
    string(&mut data, "w");
    data.push(0x12);
    string(&mut data, "t");
    string(&mut data, "list");
    data.push(1);
    data.push(0x11);
    string(&mut data, "int");
    data.extend_from_slice(&9u32.to_be_bytes());
    data.extend_from_slice(&[0xAA, 0xBB]);

    let (rest, ns) = parse_ddl(&data, 0).unwrap();
    assert_eq!(rest, &[0xAA, 0xBB]);
    assert_eq!(ns.elements.len(), 2);
    match &ns.elements[0] {
        Element::SimpleDeclaration(s) => {
            assert_eq!((s.name1.as_str(), s.name2.as_str(), s.namespace.as_str(), s.u1), ("int", "x", "ns", 7));
        },
        other => panic!("unexpected element {:?}", other),
    }
    match &ns.elements[1] {
        Element::Variable(v) => {
            assert_eq!((v.name1.as_str(), v.name2.as_str()), ("v", "w"));
            assert_eq!(v.ty.unknown, 9);
            match &v.ty.ty {
                SubType::Template(t) => {
                    assert_eq!((t.name.as_str(), t.template_name.as_str()), ("t", "list"));
                    assert_eq!(t.parameters.len(), 1);
                    assert!(matches!(&t.parameters[0], SubType::Simple(s) if s == "int"));
                },
                other => panic!("unexpected type {:?}", other),
            }
        },
        other => panic!("unexpected element {:?}", other),
    }
}

#[test]
fn element_errors() {
    assert!(matches!(parse_element(&[0x01, 0, 0], 0, 10), Err(DdlError::InvalidTag(0x01))));
    assert!(matches!(parse_element(&[0x11, 0, 0], 0, 10), Err(DdlError::Incomplete)));
    assert!(matches!(parse_element(&[0x11, 0, 0, 0, 0], 0, 0), Err(DdlError::TooDeep)));
    assert!(matches!(parse_element_list(&[0, 0, 0, 1], 0, 10), Err(DdlError::Incomplete)));
    let empty = parse_element_list(&[0, 0, 0, 0, 0xFF], 0, 10).unwrap();
    assert!(empty.0.is_empty());
    assert_eq!(empty.1, 4);
}

#[test]
fn strings_and_numbers() {
    assert_eq!(read_u32(&[9, 1, 2, 3, 4], 1).unwrap(), (0x0102_0304, 5));
    assert!(matches!(read_u32(&[1, 2, 3], 0), Err(DdlError::Incomplete)));
    let (s, p) = read_string(&[0, 0, 0, 2, b'h', b'i', 0], 0).unwrap();
    assert_eq!((s.as_str(), p), ("hi", 6));
    assert!(matches!(read_string(&[0, 0, 0, 2, 0xFF, 0xFE], 0), Err(DdlError::InvalidUtf8)));
    assert!(matches!(read_string(&[0, 0, 0, 3, b'a'], 0), Err(DdlError::Incomplete)));
}

#[test]
fn parameter_types_and_subtypes() {
    assert_eq!(parse_parameter_type(&[1], 0).unwrap(), (ParameterType::Request, 1));
    assert_eq!(parse_parameter_type(&[2], 0).unwrap(), (ParameterType::Response, 1));
    assert_eq!(parse_parameter_type(&[3], 0).unwrap(), (ParameterType::Unknown, 1));
    assert_eq!(parse_parameter_type(&[0], 0).unwrap(), (ParameterType::Unknown2, 1));
    assert!(matches!(parse_parameter_type(&[4], 0), Err(DdlError::InvalidTag(4))));
    let mut data = vec![0x03];
    string(&mut data, "Obj");
    assert!(matches!(parse_subtype(&data, 0, 4), Ok((SubType::DOClass(s), 8)) if s == "Obj"));
    data[0] = 0x04;
    assert!(matches!(parse_subtype(&data, 0, 4), Ok((SubType::Dataset(_), 8))));
    data[0] = 0x0f;
    assert!(matches!(parse_subtype(&data, 0, 4), Ok((SubType::Class(_), 8))));
    assert!(matches!(parse_subtype(&[0x12], 0, 0), Err(DdlError::TooDeep)));
}

fn ddl_file(elements: &[u8]) -> Vec<u8> {
    let mut out = 0xCD65_2312u32.to_be_bytes().to_vec();
    out.extend_from_slice(&[0u8; 17]);
    out.extend_from_slice(elements);
    out
}

#[test]
fn scan_finds_each_ddl_file() {
    let mut file = vec![1u8, 2];
    file.extend(ddl_file(&[0, 0, 0, 0]));
    file.push(9);
    file.extend(ddl_file(&[0, 0, 0, 0]));
    let found = quazal::ddl::scan_namespaces(&file).unwrap();
    assert_eq!(found.len(), 2);
    assert!(found.iter().all(|n| n.elements.is_empty()));
    // a magic whose namespace does not read stops the scan at its position
    let mut bad = file.clone();
    let at = bad.len();
    bad.extend(ddl_file(&[0, 0, 0, 1]));
    assert_eq!(quazal::ddl::scan_namespaces(&bad).unwrap_err(), at);
    // a magic without room for the header
    let mut short = vec![0u8];
    short.extend_from_slice(&0xCD65_2312u32.to_be_bytes());
    assert_eq!(quazal::ddl::scan_namespaces(&short).unwrap_err(), 1);
    assert_eq!(quazal::ddl::scan_namespaces(&[]).unwrap().len(), 0);
}

fn protocol(namespace: &str, name: &str) -> Element {
    Element::ProtocolDeclaration(quazal::ddl::ProtocolDeclaration {
        name1: name.into(),
        name2: String::new(),
        namespace: namespace.into(),
        u1: 0,
        methods: vec![],
        id: None,
    })
}

fn id_of(e: &Element) -> Option<u16> {
    match e {
        Element::ProtocolDeclaration(p) => p.id,
        _ => panic!("not a protocol"),
    }
}

#[test]
fn protocol_ids_by_qualified_then_plain_name() {
    let mut ns = quazal::ddl::Namespace {
        elements: vec![protocol("ns", "Proto"), protocol("ns", "Other"), protocol("ns", "Unknown")],
    };
    let ids = vec![("Proto".to_string(), 3u16), ("ns::Proto".to_string(), 7), ("Other".to_string(), 5)];
    quazal::ddl::assign_protocol_ids(&mut ns, &ids);
    assert_eq!(id_of(&ns.elements[0]), Some(7));
    assert_eq!(id_of(&ns.elements[1]), Some(5));
    assert_eq!(id_of(&ns.elements[2]), None);
}

#[test]
fn ddl_binary_with_id_mapping() {
    let file = ddl_file(&[0, 0, 0, 0]);
    let found = quazal::ddl::parse_ddl_binary(&file, Some(br#"{"A": 1, "B::C": 2}"#)).unwrap();
    assert_eq!(found.len(), 1);
    assert!(matches!(
        quazal::ddl::parse_ddl_binary(&file, Some(b"[1, 2]")),
        Err(quazal::ddl::DdlScanError::InvalidIdMapping)
    ));
    assert!(matches!(
        quazal::ddl::parse_ddl_binary(&file, Some(br#"{"A": 70000}"#)),
        Err(quazal::ddl::DdlScanError::InvalidIdMapping)
    ));
    let mut bad = file.clone();
    bad.extend(ddl_file(&[0, 0, 0, 1]));
    assert!(matches!(
        quazal::ddl::parse_ddl_binary(&bad, None),
        Err(quazal::ddl::DdlScanError::InvalidNamespace(25))
    ));
}
