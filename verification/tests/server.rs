use quazal::kerberos::KerberosTicketInternal;
use quazal::prudp::packet::{crypt_key, PacketFlag, PacketFlags, PacketType, QPacket, StreamType, VPort};
use quazal::prudp::{
    ack_packet, challenge_response, outgoing, prepare_request, prepare_response, response_fragments, ClientInfo,
    ServerEvent, ServerState, FIRST_CONNECTION_ID,
};
use quazal::rmc::basic::ToStream;
use quazal::ConnectionID;

fn packet(pt: PacketType, signature: u32) -> QPacket {
    let mut p = QPacket::new_default();
    p.source = VPort { port: 15, stream_type: StreamType::RVSec };
    p.destination = VPort { port: 1, stream_type: StreamType::RVSec };
    p.packet_type = pt;
    p.signature = signature;
    p.sequence = 7;
    p
}

fn connect_payload(key: &[u8; 32], valid_until: u64, challenge: u32) -> Vec<u8> {
    let session_key = [6u8; 16];
    let ticket = KerberosTicketInternal { principle_id: 4242, valid_until, session_key }.seal(key);
    let mut request = Vec::new();
    request.extend_from_slice(&4242u32.to_le_bytes());
    request.extend_from_slice(&0u32.to_le_bytes());
    request.extend_from_slice(&challenge.to_le_bytes());
    let request = crypt_key(&session_key, &request);
    let mut payload = ticket.to_bytes();
    payload.extend(request.to_bytes());
    payload
}

#[test]
fn ack_swaps_ports_and_keeps_sequence() {
    let ci: ClientInfo<()> = ClientInfo::with_signature(99, (), 0);
    let mut p = packet(PacketType::Data, 5);
    p.payload = vec![1, 2, 3];
    let ack = ack_packet(&p, &ci, false);
    assert_eq!(ack.source, p.destination);
    assert_eq!(ack.destination, p.source);
    assert_eq!(ack.sequence, 7);
    assert_eq!(ack.flags.bits(), 9);
    assert!(ack.payload.is_empty());
    let kept = ack_packet(&p, &ci, true);
    assert_eq!(kept.payload, vec![1, 2, 3]);
}

#[test]
fn responses_take_consecutive_sequence_numbers() {
    let mut ci: ClientInfo<()> = ClientInfo::with_signature(99, (), 0);
    ci.client_signature = Some(0xabcd);
    ci.server_session = 3;
    let r1 = prepare_response(packet(PacketType::Data, 0), &mut ci);
    let r2 = prepare_response(packet(PacketType::Data, 0), &mut ci);
    assert_eq!((r1.sequence, r2.sequence), (1, 2));
    assert_eq!(ci.server_sequence_id, 3);
    assert_eq!(r1.signature, 0xabcd);
    assert_eq!(r1.session_id, 3);
    assert_eq!(r1.flags.bits(), 8 | 4 | 2);
    let q = prepare_request(packet(PacketType::Data, 0), &mut ci);
    assert_eq!(q.sequence, 1);
    assert_eq!(q.signature, 99);
    assert_eq!(ci.client_sequence_id, 2);
}

#[test]
fn outgoing_data_is_compressed_and_fragmented() {
    let p = outgoing(packet(PacketType::Data, 0));
    assert!(p.use_compression);
    assert_eq!(p.fragment_id, Some(0));
    assert!(p.flags.contains(PacketFlag::HasSize));
    let s = outgoing(packet(PacketType::Ping, 0));
    assert!(!s.use_compression);
    assert_eq!(s.fragment_id, None);
}

#[test]
fn fragments_join_to_the_payload() {
    let req = packet(PacketType::Data, 0);
    let payload: Vec<u8> = (0..2500u32).map(|i| (i % 251) as u8).collect();
    let frags = response_fragments(&req, &payload);
    assert_eq!(frags.len(), 3);
    assert_eq!(frags[0].fragment_id, Some(2));
    assert_eq!(frags[1].fragment_id, Some(1));
    assert_eq!(frags[2].fragment_id, Some(0));
    assert_eq!(frags[0].payload.len(), 1000);
    assert_eq!(frags[2].payload.len(), 500);
    let joined: Vec<u8> = frags.iter().flat_map(|f| f.payload.clone()).collect();
    assert_eq!(joined, payload);
    assert!(response_fragments(&req, &[]).is_empty());
    assert_eq!(response_fragments(&req, &[0u8; 1000]).len(), 1);
}

#[test]
fn cached_fragments_are_reassembled() {
    let mut ci: ClientInfo<()> = ClientInfo::with_signature(1, (), 0);
    assert_eq!(ci.take_payload(Some(2), vec![3, 4]), None);
    assert_eq!(ci.take_payload(Some(1), vec![1, 2]), None);
    assert_eq!(ci.take_payload(Some(0), vec![5]), Some(vec![1, 2, 3, 4, 5]));
    assert!(ci.packet_fragments.is_empty());
    assert_eq!(ci.take_payload(None, vec![9]), Some(vec![9]));
    // a missing fragment drops what was cached
    assert_eq!(ci.take_payload(Some(2), vec![3]), None);
    assert_eq!(ci.take_payload(Some(0), vec![5]), None);
    assert!(ci.packet_fragments.is_empty());
}

#[test]
fn challenge_is_answered_plus_one() {
    let key = [6u8; 16];
    let mut req = Vec::new();
    req.extend_from_slice(&1u32.to_le_bytes());
    req.extend_from_slice(&2u32.to_le_bytes());
    req.extend_from_slice(&41u32.to_le_bytes());
    let enc = crypt_key(&key, &req);
    assert_eq!(challenge_response(&key, &enc).unwrap(), vec![4, 0, 0, 0, 42, 0, 0, 0]);
    let max = crypt_key(&key, &[0, 0, 0, 0, 0, 0, 0, 0, 0xff, 0xff, 0xff, 0xff]);
    assert_eq!(challenge_response(&key, &max).unwrap(), vec![4, 0, 0, 0, 0, 0, 0, 0]);
    assert!(challenge_response(&key, &enc[..11]).is_err());
}

#[test]
fn syn_connect_data_disconnect() {
    let key = [8u8; 32];
    let mut server: ServerState<()> = ServerState::new();
    assert_eq!(server.next_conn_id, FIRST_CONNECTION_ID);

    let syn = packet(PacketType::Syn, 0);
    let ack = match server.handle_packet(syn, &key, 1000) {
        ServerEvent::Reply(a) => a,
        _ => panic!("syn is answered"),
    };
    let sig = ack.conn_signature.unwrap();
    assert!(server.new_clients.contains_key(&sig));

    let mut connect = packet(PacketType::Connect, sig);
    connect.conn_signature = Some(0x5555);
    connect.session_id = 9;
    connect.payload = connect_payload(&key, u64::MAX, 100);
    let ack = match server.handle_packet(connect, &key, 2000) {
        ServerEvent::Reply(a) => a,
        _ => panic!("connect is answered"),
    };
    assert_eq!(ack.conn_signature, Some(0));
    assert_eq!(ack.payload, vec![4, 0, 0, 0, 101, 0, 0, 0]);
    assert_eq!(ack.signature, 0x5555);
    let ci = &server.client_registry.clients[&sig];
    assert_eq!(ci.user_id, Some(4242));
    assert_eq!(ci.connection_id, Some(ConnectionID(FIRST_CONNECTION_ID)));
    assert_eq!(ci.client_session, 9);
    assert!(server.client_registry.client_by_connection_id(ConnectionID(FIRST_CONNECTION_ID)).is_some());
    assert_eq!(server.next_conn_id, FIRST_CONNECTION_ID + 1);

    let mut data = packet(PacketType::Data, sig);
    data.fragment_id = Some(0);
    data.payload = vec![1, 2, 3];
    match server.handle_packet(data, &key, 3000) {
        ServerEvent::Data { ack, payload } => {
            assert!(ack.flags.contains(PacketFlag::Ack));
            assert_eq!(payload, Some(vec![1, 2, 3]));
        }
        _ => panic!("data is taken in"),
    }
    let req = packet(PacketType::Data, sig);
    let out = server.respond(sig, &req, &[0u8; 1500]);
    assert_eq!(out.len(), 2);
    assert_eq!((out[0].sequence, out[1].sequence), (1, 2));
    assert_eq!(out[0].signature, 0x5555);

    let mut ping = packet(PacketType::Ping, sig);
    ping.flags = PacketFlags::empty();
    assert!(matches!(server.handle_packet(ping, &key, 4000), ServerEvent::Reply(_)));

    let mut acked = packet(PacketType::Ping, sig);
    acked.flags = PacketFlags::pair(PacketFlag::Ack, PacketFlag::HasSize);
    assert!(matches!(server.handle_packet(acked, &key, 4000), ServerEvent::Ignored));

    match server.handle_packet(packet(PacketType::Disconnect, sig), &key, 5000) {
        ServerEvent::Disconnected { client, .. } => assert_eq!(client.user_id, Some(4242)),
        _ => panic!("disconnect is answered"),
    }
    assert!(server.client_registry.clients.is_empty());
    assert!(matches!(server.handle_packet(packet(PacketType::Ping, sig), &key, 6000), ServerEvent::Ignored));
}

#[test]
fn expired_ticket_connects_without_login() {
    let key = [8u8; 32];
    let mut server: ServerState<()> = ServerState::new();
    let ci = ClientInfo::with_signature(77, (), 0);
    server.accept_syn(&packet(PacketType::Syn, 0), ci);
    let mut connect = packet(PacketType::Connect, 77);
    connect.conn_signature = Some(1);
    connect.payload = connect_payload(&key, 10, 100);
    let ack = server.accept_connect(&connect, &key, 4, 11);
    assert!(ack.payload.is_empty());
    let ci = &server.client_registry.clients[&77];
    assert_eq!(ci.user_id, None);
    assert_eq!(ci.server_session, 4);
    assert_eq!(server.next_conn_id, FIRST_CONNECTION_ID);
}

#[test]
fn unknown_connect_and_route_are_unhandled() {
    let key = [8u8; 32];
    let mut server: ServerState<()> = ServerState::new();
    let mut connect = packet(PacketType::Connect, 1);
    connect.conn_signature = Some(1);
    assert!(matches!(server.handle_packet(connect, &key, 0), ServerEvent::Unhandled(_)));
    assert!(matches!(server.handle_packet(packet(PacketType::Route, 1), &key, 0), ServerEvent::Unhandled(_)));
    assert!(matches!(server.handle_packet(packet(PacketType::User, 1), &key, 0), ServerEvent::User(_)));
    assert!(matches!(server.handle_packet(packet(PacketType::Data, 1), &key, 0), ServerEvent::Ignored));
}

#[test]
fn silent_clients_expire() {
    let mut server: ServerState<()> = ServerState::new();
    let mut old = ClientInfo::with_signature(1, (), 0);
    old.connection_id = Some(ConnectionID(5));
    server.client_registry.clients.insert(1, old);
    server.client_registry.connection_id_session_ids.insert(5, 1);
    server.client_registry.clients.insert(2, ClientInfo::with_signature(2, (), 50_000));
    let gone = server.clear_clients(70_000, true);
    assert_eq!(gone.len(), 1);
    assert_eq!(gone[0].server_signature, 1);
    assert!(server.client_registry.clients.contains_key(&2));
    assert!(server.client_registry.connection_id_session_ids.is_empty());
    // exactly the timeout is not yet expired
    let gone = server.clear_clients(110_000, false);
    assert!(gone.is_empty());
    let gone = server.clear_clients(110_001, false);
    assert_eq!(gone.len(), 1);
}
