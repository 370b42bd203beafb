use quazal::dll::{parse, parse_directory, try_parse, DllError};

fn put16(b: &mut [u8], at: usize, v: u16) {
    b[at..at + 2].copy_from_slice(&v.to_le_bytes());
}

fn put32(b: &mut [u8], at: usize, v: u32) {
    b[at..at + 4].copy_from_slice(&v.to_le_bytes());
}

/// A PE image with one section, `name`, whose raw data is `rsrc` at file
/// offset 0x200 and address 0x1000; with an optional header where
/// `optional` is set.
fn image(name: &[u8; 8], rsrc: &[u8], optional: bool) -> Vec<u8> {
    let mut b = vec![0u8; 0x400];
    b[0] = b'M';
    b[1] = b'Z';
    put32(&mut b, 0x3c, 0x40);
    b[0x40..0x44].copy_from_slice(b"PE\0\0");
    put16(&mut b, 0x44, 0x14c);
    put16(&mut b, 0x46, 1);
    let opt_size: u16 = if optional { 96 } else { 0 };
    put16(&mut b, 0x54, opt_size);
    put16(&mut b, 0x56, 0x2102);
    let mut p = 0x58;
    if optional {
        put16(&mut b, p, 0x10b);
        let w = p + 28;
        put32(&mut b, w, 0x1000_0000);
        put32(&mut b, w + 4, 0x1000);
        put32(&mut b, w + 8, 0x200);
        put32(&mut b, w + 28, 0x2000);
        put32(&mut b, w + 32, 0x200);
        p += 96;
    }
    b[p..p + 8].copy_from_slice(name);
    put32(&mut b, p + 8, 0x200);
    put32(&mut b, p + 12, 0x1000);
    put32(&mut b, p + 16, 0x200);
    put32(&mut b, p + 20, 0x200);
    b[0x200..0x200 + rsrc.len()].copy_from_slice(rsrc);
    b
}

/// A resource directory with the given numbered entries.
fn directory(out: &mut Vec<u8>, ids: &[(u32, u32)]) {
    out.extend_from_slice(&[0u8; 12]);
    out.extend_from_slice(&0u16.to_le_bytes());
    out.extend_from_slice(&(ids.len() as u16).to_le_bytes());
    for (id, offset) in ids {
        out.extend_from_slice(&id.to_le_bytes());
        out.extend_from_slice(&offset.to_le_bytes());
    }
}

/// Resources that hold version 1.2.4.
fn version_resources() -> Vec<u8> {
    let mut r = Vec::new();
    directory(&mut r, &[(0x10, 0x8000_0018)]);
    directory(&mut r, &[(1, 0x8000_0030)]);
    directory(&mut r, &[(0x409, 0x48)]);
    r.extend_from_slice(&0x1060u32.to_le_bytes());
    r.extend_from_slice(&56u32.to_le_bytes());
    r.extend_from_slice(&[0u8; 8]);
    r.resize(0x60, 0);
    r.extend_from_slice(&[56, 0, 52, 0, 0, 0]);
    for unit in "VS_VERSION_INFO".encode_utf16() {
        r.extend_from_slice(&unit.to_le_bytes());
    }
    r.extend_from_slice(&[0, 0, 0, 0]);
    r.extend_from_slice(&0xFEEF_04BDu32.to_le_bytes());
    r.extend_from_slice(&0x0001_0000u32.to_le_bytes());
    for v in [2u16, 1, 3, 4] {
        r.extend_from_slice(&v.to_le_bytes());
    }
    r
}

#[test]
fn reads_file_version() {
    let data = image(b".rsrc\0\0\0", &version_resources(), true);
    let dll = parse(&data).ok().unwrap();
    assert_eq!((dll.version.major, dll.version.minor, dll.version.patch), (1, 2, 4));
}

#[test]
fn without_version_resource_is_zero() {
    let mut r = Vec::new();
    directory(&mut r, &[(0x3, 0x18)]);
    let data = image(b".rsrc\0\0\0", &r, false);
    let dll = parse(&data).ok().unwrap();
    assert_eq!((dll.version.major, dll.version.minor, dll.version.patch), (0, 0, 0));
}

#[test]
fn missing_resource_section() {
    let data = image(b".text\0\0\0", &[], false);
    assert!(matches!(parse(&data), Err(DllError::ResourceSectionNotFound)));
}

#[test]
fn short_resource_directory() {
    let mut r = Vec::new();
    directory(&mut r, &[(0x10, 0x18)]);
    let mut data = image(b".rsrc\0\0\0", &r, false);
    // the root directory claims a second entry that the data cannot hold
    put16(&mut data, 0x200 + 14, 0x100);
    assert!(matches!(parse(&data), Err(DllError::UnexpectedEof)));
}

#[test]
fn gives_up_on_malformed_images() {
    assert!(try_parse(b"not an image").is_none());
    // a version resource but no optional header to locate its data
    let data = image(b".rsrc\0\0\0", &version_resources(), false);
    assert!(try_parse(&data).is_none());
    let good = image(b".rsrc\0\0\0", &version_resources(), true);
    assert!(matches!(try_parse(&good), Some(Ok(_))));
}

#[test]
fn directory_entries_mask_the_high_bit() {
    let mut r = Vec::new();
    directory(&mut r, &[(7, 0x8000_0010), (9, 0x20)]);
    let d = parse_directory(&r, 0).ok().unwrap();
    assert_eq!(d.id_entries.len(), 2);
    assert_eq!((d.id_entries[0].id, d.id_entries[0].offset), (7, 0x10));
    assert_eq!((d.id_entries[1].id, d.id_entries[1].offset), (9, 0x20));
    assert!(matches!(parse_directory(&r[..20], 0), Err(DllError::UnexpectedEof)));
}
