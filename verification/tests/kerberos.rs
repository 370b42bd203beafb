use quazal::kerberos::{KerberosTicket, KerberosTicketInternal};
use quazal::prudp::packet::crypt_key;
use quazal::rmc::basic::{FromStream, FromStreamError, IoErrorKind, ToStream};

fn sample_internal() -> KerberosTicketInternal {
    KerberosTicketInternal { principle_id: 0x1234, valid_until: 0x0102_0304_0506_0708, session_key: [7u8; 16] }
}

#[test]
fn internal_ticket_encoding() {
    let t = sample_internal();
    let b = t.to_bytes();
    assert_eq!(b.len(), 28);
    assert_eq!(&b[..4], &[0x34, 0x12, 0, 0]);
    assert_eq!(&b[4..12], &[8, 7, 6, 5, 4, 3, 2, 1]);
    let back = KerberosTicketInternal::from_bytes(&b).unwrap();
    assert_eq!(back.principle_id, 0x1234);
    assert_eq!(back.valid_until, 0x0102_0304_0506_0708);
    assert_eq!(back.session_key, [7u8; 16]);
    assert_eq!(
        KerberosTicketInternal::from_bytes(&b[..27]).unwrap_err(),
        FromStreamError::IO(IoErrorKind::UnexpectedEof)
    );
}

#[test]
fn sealed_ticket_opens_with_its_key() {
    let key = [3u8; 32];
    let t = sample_internal();
    let sealed = t.seal(&key);
    assert_eq!(sealed.len(), 24 + 28 + 16);
    let opened = KerberosTicketInternal::open(&sealed, &key).unwrap();
    assert_eq!(opened.principle_id, t.principle_id);
    assert_eq!(opened.valid_until, t.valid_until);
    assert_eq!(opened.session_key, t.session_key);

    let nonce = [9u8; 24];
    let fixed = t.seal_with_nonce(&nonce, &key);
    assert_eq!(&fixed[..24], &nonce);
    assert_eq!(fixed, t.seal_with_nonce(&nonce, &key));
}

#[test]
fn open_refuses_short_and_forged_tickets() {
    let key = [3u8; 32];
    assert_eq!(
        KerberosTicketInternal::open(&[0u8; 23], &key).unwrap_err(),
        FromStreamError::IO(IoErrorKind::UnexpectedEof)
    );
    let mut sealed = sample_internal().seal(&key);
    let last = sealed.len() - 1;
    sealed[last] ^= 1;
    assert_eq!(
        KerberosTicketInternal::open(&sealed, &key).unwrap_err(),
        FromStreamError::IO(IoErrorKind::InvalidData)
    );
    let other = [4u8; 32];
    let sealed = sample_internal().seal(&key);
    assert_eq!(
        KerberosTicketInternal::open(&sealed, &other).unwrap_err(),
        FromStreamError::IO(IoErrorKind::InvalidData)
    );
}

#[test]
fn derived_key_is_md5_rounds() {
    let k1 = KerberosTicket::derive_key(1, Some("secret"));
    let k2 = KerberosTicket::derive_key(1025, Some("secret"));
    let k3 = KerberosTicket::derive_key(2, Some("secret"));
    let dummy = KerberosTicket::derive_key(1, None);
    let dummy_named = KerberosTicket::derive_key(1, Some("UbiDummyPwd"));
    assert_eq!(k1.len(), 16);
    assert_eq!(k1, k2);
    assert_ne!(k1, k3);
    assert_eq!(dummy, dummy_named);
    assert_ne!(dummy, k1);
}

#[test]
fn ticket_bytes_layout() {
    let key = [5u8; 32];
    let ticket = KerberosTicket { session_key: [1u8; 16], pid: 77, internal: sample_internal() };
    let nonce = [2u8; 24];
    let bytes = ticket.as_bytes_with_nonce(&nonce, 1000, Some("pw"), &key);
    // session key, PID, length-prefixed sealed ticket, then a 16-byte MAC
    assert_eq!(bytes.len(), 16 + 4 + 4 + 68 + 16);
    let k = KerberosTicket::derive_key(1000, Some("pw"));
    let plain = crypt_key(&k, &bytes[..bytes.len() - 16]);
    assert_eq!(&plain[..16], &[1u8; 16]);
    assert_eq!(&plain[16..20], &[77, 0, 0, 0]);
    assert_eq!(&plain[20..24], &[68, 0, 0, 0]);
    assert_eq!(&plain[24..48], &nonce);
    let random = ticket.as_bytes(1000, Some("pw"), &key);
    assert_eq!(random.len(), bytes.len());
}

#[test]
fn ticket_from_bytes_reads_the_body() {
    let key = [5u8; 32];
    let k = KerberosTicket::derive_key(1000, Some("pw"));
    // session key, PID, then the sealed ticket without a length prefix
    let mut plain = vec![1u8; 16];
    plain.extend_from_slice(&77u32.to_le_bytes());
    plain.extend(sample_internal().seal(&key));
    let mut buf = crypt_key(&k, &plain);
    buf.extend_from_slice(&[0u8; 16]);
    let t = KerberosTicket::from_bytes(&buf, 1000, Some("pw"), &key).unwrap();
    assert_eq!(t.session_key, [1u8; 16]);
    assert_eq!(t.pid, 77);
    assert_eq!(t.internal.principle_id, 0x1234);

    // a ticket written by as_bytes carries a length prefix and does not read back
    let ticket = KerberosTicket { session_key: [1u8; 16], pid: 77, internal: sample_internal() };
    let written = ticket.as_bytes(1000, Some("pw"), &key);
    assert!(KerberosTicket::from_bytes(&written, 1000, Some("pw"), &key).is_err());

    assert_eq!(
        KerberosTicket::from_bytes(&[0u8; 20], 1000, Some("pw"), &key).unwrap_err(),
        FromStreamError::IO(IoErrorKind::UnexpectedEof)
    );
}
