use quazal::client::{
    check_connect_ack, check_data_ack, check_disconnect_ack, check_login_response, connect_packet, connect_packet_with,
    disconnect_packet, login_packet, login_result, response_ack_packet, syn_packet, LoginError, QuazalClient,
};
use quazal::config::Context;
use quazal::prudp::packet::{PacketFlag, PacketFlags, PacketType, QPacket};
use quazal::rmc::{Packet, Response, ResponseData, ResponseError};

#[test]
fn handshake_packets() {
    let syn = syn_packet();
    assert_eq!(syn.packet_type, PacketType::Syn);
    assert_eq!(syn.conn_signature, Some(0));
    assert_eq!(syn.flags.bits(), 4);
    assert_eq!(syn.source.port, 15);
    assert_eq!(syn.destination.port, 1);
    let c = connect_packet_with(0x1234);
    assert_eq!(c.packet_type, PacketType::Connect);
    assert_eq!(c.conn_signature, Some(0x1234));
    assert!(connect_packet().conn_signature.is_some());
    let d = disconnect_packet();
    assert_eq!(d.flags.bits(), 0);
    assert_eq!(d.fragment_id, Some(0));
    let a = response_ack_packet();
    assert_eq!(a.flags.bits(), 1);
}

#[test]
fn client_stamps_sequence_numbers() {
    let mut c = QuazalClient::new(0x42);
    let p1 = c.stamp(syn_packet());
    let p2 = c.stamp(syn_packet());
    assert_eq!((p1.sequence, p2.sequence), (0, 1));
    assert_eq!(p1.session_id, 0x42);
    let a = c.stamp_ack(response_ack_packet());
    assert_eq!(a.sequence, 0);
    assert_eq!(c.sequence, 2);
}

#[test]
fn syn_ack_gives_signature() {
    let mut c = QuazalClient::new(1);
    let mut reply = QPacket::new_default();
    reply.packet_type = PacketType::Syn;
    reply.flags = PacketFlags::pair(PacketFlag::Ack, PacketFlag::HasSize);
    assert_eq!(c.accept_syn_ack(&reply), Err(LoginError::MissingConnectionSignature));
    reply.conn_signature = Some(0xdead);
    assert_eq!(c.accept_syn_ack(&reply), Ok(0xdead));
    assert_eq!(c.signature, 0xdead);
    reply.flags = PacketFlags::empty();
    assert_eq!(c.accept_syn_ack(&reply), Err(LoginError::InvalidSynAck));
}

#[test]
fn acks_are_checked() {
    let mut reply = QPacket::new_default();
    reply.packet_type = PacketType::Connect;
    assert_eq!(check_connect_ack(&reply), Err(LoginError::InvalidConnectAck));
    reply.flags = PacketFlags::pair(PacketFlag::Ack, PacketFlag::HasSize);
    assert_eq!(check_connect_ack(&reply), Ok(()));
    assert_eq!(check_data_ack(&reply), Err(LoginError::InvalidDataAck));
    assert_eq!(check_disconnect_ack(&reply), Err(LoginError::InvalidDisconnectAck));
    reply.packet_type = PacketType::Data;
    assert_eq!(check_data_ack(&reply), Ok(()));
    assert_eq!(check_login_response(&reply), Ok(()));
    reply.flags = PacketFlags::pair(PacketFlag::Ack, PacketFlag::Reliable);
    assert_eq!(check_login_response(&reply), Err(LoginError::InvalidResponse));
}

#[test]
fn login_request_is_a_login_ex_call() {
    let p = login_packet("sam", "pw");
    assert_eq!(p.packet_type, PacketType::Data);
    assert_eq!(p.flags.bits(), 6);
    assert_eq!(p.fragment_id, Some(0));
    match Packet::from_bytes(&p.payload).unwrap() {
        Packet::Request(r) => {
            assert_eq!(r.protocol_id, 10);
            assert_eq!(r.call_id, 10);
            assert_eq!(r.method_id, 2);
            // the user name comes first: length 4 (with the NUL), "sam\0"
            assert_eq!(&r.parameters[..6], &[4, 0, b's', b'a', b'm', 0]);
        }
        Packet::Response(_) => panic!("expected a request"),
    }
    let ctx = Context::splinter_cell_blacklist();
    let bytes = p.to_bytes(&ctx);
    assert!(QPacket::from_bytes(&ctx, &bytes).is_ok());
}

#[test]
fn login_result_reads_the_answer() {
    let ok = Response { protocol_id: 10, result: Ok(ResponseData { call_id: 10, method_id: 2, data: vec![] }) };
    assert_eq!(login_result(&ok.to_bytes()), Ok(()));
    let refused = Response { protocol_id: 10, result: Err(ResponseError { error_code: 0x8068_000a, call_id: 10 }) };
    assert_eq!(login_result(&refused.to_bytes()), Err(LoginError::Refused(0x8068_000a)));
    assert_eq!(login_result(&login_packet("a", "b").payload), Err(LoginError::InvalidRmcResponse));
    assert!(matches!(login_result(&[1]), Err(LoginError::Rmc(_))));
}
