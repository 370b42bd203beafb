use quazal::config::Context;
use quazal::prudp::packet::{
    crypt_key, parse, Error, PacketFlag, PacketFlags, PacketType, QPacket, Rc4, StreamType, VPort,
};
use quazal::rmc::basic::ReadStream;

#[test]
fn test_syn() {
    let ctx = &Context::splinter_cell_blacklist();
    let data = [
        0x3f, 0x31, 0x20, 0x00, 0x00, 0x00, 0x00, 0x00, 0x00, 0x00, 0x00, 0x00, 0x00, 0x00, 0x40,
    ];

    let pkt = QPacket::from_bytes(ctx, &data).unwrap().0;
    assert_eq!(pkt.to_bytes(ctx), Vec::from(data));
    assert_eq!(pkt.checksum, pkt.calc_checksum(ctx));

    let data = [
        0x31, 0x3f, 0x08, 0x00, 0x00, 0x00, 0x00, 0x00, 0x00, 0x00, 0x78, 0x56, 0x34, 0x12,
        0x3c, // not verified
    ];

    let pkt = QPacket::from_bytes(ctx, &data).unwrap().0;
    assert_eq!(pkt.to_bytes(ctx), Vec::from(data));
    assert_eq!(pkt.checksum, pkt.calc_checksum(ctx));

    let data = *b"\x3e\x31\x31\x96\x60\x30\x0d\xd5\x01\x00\x37\x00\xba\xd2\x1c";

    let pkt = QPacket::from_bytes(ctx, &data).unwrap().0;
    assert_eq!(pkt.to_bytes(ctx), Vec::from(data));
    assert_eq!(pkt.checksum, pkt.calc_checksum(ctx));

    let data = *b"\x3f\x31\x32\x7c\x60\x30\x0d\xd5\x02\x00\x00\x0f\x93\x44\xdb\x13\x75\xe2\x50\x05\xa2\x60\xfd\x2a\x16\xfb\xb1\xab\x24\x87\x96\xfc\x3f\xcc\x7b\x5a\x7f";

    let pkt = QPacket::from_bytes(ctx, &data).unwrap().0;
    assert_eq!(pkt.to_bytes(ctx), Vec::from(data));
    assert_eq!(pkt.checksum, pkt.calc_checksum(ctx));
}

#[test]
fn nat_packet() {
    let ctx = &Context::splinter_cell_blacklist();
    let data = *b"qq\x05\x00\x00\x00\x00\x00\x00\x00\x01\x053\x00\x00\x00\x00\xdcJ\x8d{\x80\x00\x01\x03\xd4";
    let (pkt, l) = QPacket::from_bytes(ctx, &data).unwrap();
    assert!(pkt.validate(ctx, &data[..l as usize]).is_ok());

    assert!(parse(ctx, &mut ReadStream::from_bytes(&data)).is_ok());
}

#[test]
fn checksum_mismatch_is_refused() {
    let ctx = &Context::splinter_cell_blacklist();
    let mut data = [
        0x3f, 0x31, 0x20, 0x00, 0x00, 0x00, 0x00, 0x00, 0x00, 0x00, 0x00, 0x00, 0x00, 0x00, 0x40,
    ];
    data[14] = 0x41;
    let (pkt, _) = QPacket::from_bytes(ctx, &data).unwrap();
    assert!(matches!(pkt.validate(ctx, &data), Err(Error::InvalidChecksum)));
    assert!(matches!(parse(ctx, &mut ReadStream::from_bytes(&data)), Err(Error::InvalidChecksum)));
}

#[test]
fn invalid_flags_and_stream_type() {
    let ctx = &Context::splinter_cell_blacklist();
    // flag bits 16 and up name no flag
    let data = [0x3f, 0x31, 0x80, 0, 0, 0, 0, 0, 0, 0, 0, 0, 0, 0, 0];
    assert!(matches!(QPacket::from_bytes(ctx, &data), Err(Error::InvalidFlag(16))));
    // stream type 0 names no stream type
    let data = [0x0f, 0x31, 0x00, 0, 0, 0, 0, 0, 0, 0, 0, 0, 0, 0, 0];
    assert!(matches!(QPacket::from_bytes(ctx, &data), Err(Error::InvalidStreamType(0))));
}

#[test]
fn vport_bytes() {
    let v = VPort { port: 15, stream_type: StreamType::RVSec };
    assert_eq!(v.to_bytes(), vec![0x3f]);
    assert_eq!(VPort::from_reader(&mut ReadStream::from_bytes(&[0x3f])).unwrap(), v);
    assert!(matches!(VPort::from_reader(&mut ReadStream::from_bytes(&[0x9f])), Err(Error::InvalidStreamType(9))));
}

#[test]
fn rc4_known_keystream() {
    // RC4 with key "Key" starts EB 9F 77 81 B7 34 CA 72 A7 19
    let mut rc4 = Rc4::new(b"Key");
    let ks: Vec<u8> = (0..10).map(|_| rc4.next()).collect();
    assert_eq!(ks, vec![0xEB, 0x9F, 0x77, 0x81, 0xB7, 0x34, 0xCA, 0x72, 0xA7, 0x19]);
}

#[test]
fn crypt_twice_is_identity() {
    let data = b"Plaintext".to_vec();
    let enc = crypt_key(b"Key", &data);
    assert_eq!(enc, vec![0xBB, 0xF3, 0x16, 0xE8, 0xD9, 0x40, 0xAF, 0x0A, 0xD3]);
    assert_eq!(crypt_key(b"Key", &enc), data);
}

#[test]
fn flags_sets() {
    let mut f = PacketFlags::empty();
    assert!(!f.contains(PacketFlag::Ack));
    f.insert(PacketFlag::HasSize);
    assert!(f.contains(PacketFlag::HasSize));
    assert_eq!(f.bits(), 8);
    assert_eq!(PacketFlags::pair(PacketFlag::Ack, PacketFlag::NeedAck).bits(), 5);
    assert!(PacketFlags::from_bits(0x10).is_err());
    assert_eq!(PacketType::try_from_u8(4), Ok(PacketType::Ping));
    assert_eq!(PacketType::try_from_u8(9), Err(9));
}

#[test]
fn data_packet_round_trip_with_compression() {
    let ctx = &Context::splinter_cell_blacklist();
    let mut p = QPacket::new_default();
    p.source = VPort { port: 1, stream_type: StreamType::RVSec };
    p.destination = VPort { port: 15, stream_type: StreamType::RVSec };
    p.packet_type = PacketType::Data;
    p.flags = PacketFlags::pair(PacketFlag::HasSize, PacketFlag::NeedAck);
    p.fragment_id = Some(0);
    p.payload = vec![0x61; 200];
    p.use_compression = true;
    p.checksum = p.calc_checksum(ctx);
    let bytes = p.to_bytes(ctx);
    let (q, n) = QPacket::from_bytes(ctx, &bytes).unwrap();
    assert_eq!(n as usize, bytes.len());
    assert_eq!(q.payload, p.payload);
    assert!(q.use_compression);
    assert_eq!(q.fragment_id, Some(0));
    assert!(q.validate(ctx, &bytes).is_ok());
}

#[test]
fn data_packet_signature() {
    let ctx = Context::splinter_cell_blacklist();
    let mut pkt = QPacket::new_default();
    pkt.packet_type = PacketType::Data;
    assert_eq!(pkt.calc_signature(&ctx, &[]), 0x1234_5678);
    assert_eq!(pkt.calc_signature(&ctx, &[1, 2, 3, 4, 5]), 0xa116_5dbe);
    let plain = Context::new_default();
    assert_eq!(pkt.calc_signature(&plain, b"abc"), 0xbf05_8901);
}

#[test]
fn parse_leaves_reader_after_packet() {
    let ctx = &Context::splinter_cell_blacklist();
    let data = b"qq\x05\x00\x00\x00\x00\x00\x00\x00\x01\x053\x00\x00\x00\x00\xdcJ\x8d{\x80\x00\x01\x03\xd4".to_vec();
    let mut rdr = ReadStream::from_bytes(&data);
    let pkt = parse(ctx, &mut rdr).unwrap();
    assert_eq!(pkt.checksum, 0xd4);
    assert_eq!(rdr.remaining_len(), 0);
    let mut bad = data.clone();
    bad[25] = 0xd5;
    let mut rdr = ReadStream::from_bytes(&bad);
    assert!(matches!(parse(ctx, &mut rdr), Err(Error::InvalidChecksum)));
    assert_eq!(rdr.remaining_len(), 0);
}

#[test]
fn packets_without_secure_payload_need_no_crypto_key() {
    let mut ctx = Context::splinter_cell_blacklist();
    ctx.crypto_key = Vec::new();
    let data = [
        0x3f, 0x31, 0x20, 0x00, 0x00, 0x00, 0x00, 0x00, 0x00, 0x00, 0x00, 0x00, 0x00, 0x00, 0x40,
    ];
    let (pkt, n) = QPacket::from_bytes(&ctx, &data).unwrap();
    assert_eq!(n, 15);
    assert_eq!(pkt.to_bytes(&ctx), Vec::from(data));
}
