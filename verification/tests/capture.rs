use quazal::capture::{datagram_on_port, walk_datagram, PortFrame, WalkError};
use quazal::config::Context;
use quazal::prudp::packet::{PacketFlag, PacketType, QPacket, StreamType};

fn udp_ipv4_frame(src_port: u16, dst_port: u16, payload: &[u8]) -> Vec<u8> {
    let mut f = vec![0u8; 12];
    f.extend_from_slice(&[0x08, 0x00]);
    let total = (20 + 8 + payload.len()) as u16;
    f.extend_from_slice(&[0x45, 0, (total >> 8) as u8, total as u8, 0, 0, 0x40, 0, 64, 17, 0, 0]);
    f.extend_from_slice(&[10, 0, 0, 1, 10, 0, 0, 2]);
    let ulen = (8 + payload.len()) as u16;
    f.extend_from_slice(&src_port.to_be_bytes());
    f.extend_from_slice(&dst_port.to_be_bytes());
    f.extend_from_slice(&ulen.to_be_bytes());
    f.extend_from_slice(&[0, 0]);
    f.extend_from_slice(payload);
    f
}

fn udp_ipv6_frame(src_port: u16, dst_port: u16) -> Vec<u8> {
    let mut f = vec![0u8; 12];
    f.extend_from_slice(&[0x86, 0xdd]);
    f.extend_from_slice(&[0x60, 0, 0, 0, 0, 8, 17, 64]);
    f.extend_from_slice(&[0u8; 32]);
    f.extend_from_slice(&src_port.to_be_bytes());
    f.extend_from_slice(&dst_port.to_be_bytes());
    f.extend_from_slice(&[0, 8, 0, 0]);
    f
}

#[test]
fn frames_on_a_port() {
    let frame = udp_ipv4_frame(3074, 21126, &[1, 2, 3]);
    match datagram_on_port(&frame, 21126) {
        PortFrame::Datagram(d) => {
            assert_eq!(d.source_ip, [10, 0, 0, 1]);
            assert_eq!(d.destination_ip, [10, 0, 0, 2]);
            assert_eq!((d.source_port, d.destination_port), (3074, 21126));
            assert_eq!(d.payload, vec![1, 2, 3]);
        }
        other => panic!("expected a datagram, got {:?}", other),
    }
    assert!(matches!(datagram_on_port(&frame, 3074), PortFrame::Datagram(_)));
    assert!(matches!(datagram_on_port(&frame, 80), PortFrame::Skipped));
    assert!(matches!(datagram_on_port(&[0, 1, 2], 80), PortFrame::Malformed));
    let mut other = vec![0u8; 12];
    other.extend_from_slice(&[0x88, 0xb5, 1, 2, 3]);
    assert!(matches!(datagram_on_port(&other, 80), PortFrame::Skipped));
    let v6 = udp_ipv6_frame(5, 21126);
    assert!(matches!(datagram_on_port(&v6, 21126), PortFrame::NotIpv4));
    assert!(matches!(datagram_on_port(&v6, 80), PortFrame::Skipped));
}

#[test]
fn datagram_walk() {
    let ctx = Context::splinter_cell_blacklist();
    let mut p = QPacket::new_default();
    p.conn_signature = Some(7);
    p.flags.insert(PacketFlag::HasSize);
    let sized = p.to_bytes(&ctx);
    let mut data = sized.clone();
    data.extend_from_slice(&sized);
    let (packets, error) = walk_datagram(&ctx, &data);
    assert!(error.is_none());
    assert_eq!(packets.len(), 2);
    assert!(packets.iter().all(|d| d.packet.packet_type == PacketType::Syn && d.message.is_none()));
    assert_eq!(packets[1].packet.conn_signature, Some(7));
    // a packet without a size whose header ends the data leaves no room for its checksum
    let syn = [0x3f, 0x31, 0x20, 0x00, 0x00, 0x00, 0x00, 0x00, 0x00, 0x00, 0x00, 0x00, 0x00, 0x00, 0x40];
    data.extend_from_slice(&syn[..14]);
    let (packets, error) = walk_datagram(&ctx, &data);
    assert_eq!(packets.len(), 2);
    assert!(matches!(error, Some(WalkError::NoRoomForChecksum)));
    let (packets, error) = walk_datagram(&ctx, &syn[..5]);
    assert!(packets.is_empty());
    assert!(matches!(error, Some(WalkError::Packet(_))));
    assert!(walk_datagram(&ctx, &[]).0.is_empty());
}

#[test]
fn datagram_walk_messages_and_keys() {
    let ctx = Context::splinter_cell_blacklist();
    let mut p = QPacket::new_default();
    p.packet_type = PacketType::Data;
    p.fragment_id = Some(0);
    p.flags.insert(PacketFlag::HasSize);
    p.source.stream_type = StreamType::RVSec;
    p.payload = vec![1, 2];
    let bytes = p.to_bytes(&ctx);
    let (packets, error) = walk_datagram(&ctx, &bytes);
    assert_eq!(packets.len(), 1);
    assert_eq!(packets[0].packet.payload, vec![1, 2]);
    assert!(packets[0].message.is_none());
    assert!(matches!(error, Some(WalkError::Message(_))));
    let mut keyless = Context::splinter_cell_blacklist();
    keyless.crypto_key = Vec::new();
    let (packets, error) = walk_datagram(&keyless, &bytes);
    assert!(packets.is_empty());
    assert!(matches!(error, Some(WalkError::InvalidCryptoKey)));
}
