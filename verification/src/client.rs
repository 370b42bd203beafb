//! The client side of a Quazal login test: the packets that a client sends
//! to log in, and the checks of the server's replies.

use crate::prudp::packet::{spec_default_packet, PacketFlag, PacketFlags, PacketType, QPacket, QPacketView, StreamType, VPort};
use crate::rmc::protocols::{
    LoginExRequest, UbiAuthenticationLoginCustomData, TICKET_GRANTING_PROTOCOL_ID,
};
use crate::rmc::types::Any;
use crate::rmc::{spec_packet, spec_request_bytes, Packet, PacketView, Request};
use crate::rmc::basic::ToStream;
use vstd::prelude::*;

verus! {

/// The call id of the login request.
pub const LOGIN_CALL_ID: u32 = 10;

/// The number of the `LoginEx` method.
pub const LOGIN_EX_METHOD_ID: u32 = 2;

/// `rand::random::<u32>()`: a random number. Nothing is stated of it.
#[verifier::external_body]
fn random_signature() -> (r: u32) {
    rand::random::<u32>()
}

/// Why a login test failed.
#[derive(Debug, Clone, Copy, PartialEq, Eq, Structural)]
pub enum LoginError {
    /// The server's Syn reply is no acknowledgement of a Syn.
    InvalidSynAck,
    /// The server's Syn acknowledgement has no connection signature.
    MissingConnectionSignature,
    /// The server's Connect reply is no acknowledgement of a Connect.
    InvalidConnectAck,
    /// The server did not acknowledge the login request.
    InvalidDataAck,
    /// The server's answer to the login is no sized data packet.
    InvalidResponse,
    /// The server did not acknowledge the disconnect.
    InvalidDisconnectAck,
    /// The answer to the login is an RMC request.
    InvalidRmcResponse,
    /// The answer to the login is no RMC message.
    Rmc(crate::rmc::Error),
    /// The login was refused with this error code.
    Refused(u32),
}

/// The secure port that the client talks from.
pub open spec fn client_port() -> VPort {
    VPort { port: 15, stream_type: StreamType::RVSec }
}

/// The secure port that the client talks to.
pub open spec fn server_port() -> VPort {
    VPort { port: 1, stream_type: StreamType::RVSec }
}

/// A packet of type `pt` from the client port to the server port with flag
/// bits `flags`, the rest default.
pub open spec fn client_packet(pt: PacketType, flags: u8) -> QPacketView {
    QPacketView { source: client_port(), destination: server_port(), packet_type: pt, flags, ..spec_default_packet() }
}

/// A packet of type `pt` from the client port to the server port with flag
/// bits `flags`, the rest default.
fn new_client_packet(pt: PacketType, flags: PacketFlags) -> (r: QPacket)
    ensures
        r@ == client_packet(pt, flags@),
{
    let mut p = QPacket::new_default();
    p.source = VPort { port: 15, stream_type: StreamType::RVSec };
    p.destination = VPort { port: 1, stream_type: StreamType::RVSec };
    p.packet_type = pt;
    p.flags = flags;
    p
}

/// The client's half of a connection.
#[derive(Debug, Clone, Copy)]
pub struct QuazalClient {
    pub session_id: u8,
    pub signature: u32,
    pub sequence: u16,
}

impl QuazalClient {
    /// A client with session `session_id`, no signature yet, at sequence 0.
    pub fn new(session_id: u8) -> (r: QuazalClient)
        ensures
            r.session_id == session_id,
            r.signature == 0,
            r.sequence == 0,
    {
        QuazalClient { session_id, signature: 0, sequence: 0 }
    }

    /// Stamps a packet with the client's session, signature and next
    /// sequence number, which then advances (wrapping around).
    pub fn stamp(&mut self, packet: QPacket) -> (r: QPacket)
        ensures
            r@ == (QPacketView {
                session_id: old(self).session_id,
                signature: old(self).signature,
                sequence: old(self).sequence,
                ..packet@
            }),
            final(self).sequence == ((old(self).sequence + 1) % 0x1_0000) as u16,
            final(self).session_id == old(self).session_id,
            final(self).signature == old(self).signature,
    {
        let mut p = packet;
        p.session_id = self.session_id;
        p.signature = self.signature;
        p.sequence = self.sequence;
        self.sequence = self.sequence.wrapping_add(1);
        p
    }

    /// Stamps an acknowledgement: the client's session and signature, and
    /// sequence number 0.
    pub fn stamp_ack(&self, packet: QPacket) -> (r: QPacket)
        ensures
            r@ == (QPacketView { session_id: self.session_id, signature: self.signature, sequence: 0, ..packet@ }),
    {
        let mut p = packet;
        p.session_id = self.session_id;
        p.signature = self.signature;
        p.sequence = 0;
        p
    }

    /// Takes in the server's reply to Syn: it must acknowledge a Syn and
    /// carry a connection signature, which the client then signs with.
    pub fn accept_syn_ack(&mut self, reply: &QPacket) -> (r: Result<u32, LoginError>)
        ensures
            (reply.packet_type != PacketType::Syn || !reply.flags.spec_contains(PacketFlag::Ack)) ==> r == Err::<
                u32,
                LoginError,
            >(LoginError::InvalidSynAck) && *final(self) == *old(self),
            (reply.packet_type == PacketType::Syn && reply.flags.spec_contains(PacketFlag::Ack)) ==> match reply.conn_signature {
                Some(s) => r == Ok::<u32, LoginError>(s) && *final(self) == (QuazalClient { signature: s, ..*old(self) }),
                None => r == Err::<u32, LoginError>(LoginError::MissingConnectionSignature) && *final(self) == *old(self),
            },
    {
        if reply.packet_type != PacketType::Syn || !reply.flags.contains(PacketFlag::Ack) {
            return Err(LoginError::InvalidSynAck);
        }
        match reply.conn_signature {
            Some(s) => {
                self.signature = s;
                Ok(s)
            },
            None => Err(LoginError::MissingConnectionSignature),
        }
    }
}

/// The Syn packet: `NeedAck`, connection signature 0.
pub fn syn_packet() -> (r: QPacket)
    ensures
        r@ == (QPacketView { conn_signature: Some(0), ..client_packet(PacketType::Syn, 4) }),
{
    let mut flags = PacketFlags::empty();
    flags.insert(PacketFlag::NeedAck);
    assert(0u8 | 4u8 == 4u8) by (bit_vector);
    let mut p = new_client_packet(PacketType::Syn, flags);
    p.conn_signature = Some(0);
    p
}

/// The Connect packet with connection signature `s`: `NeedAck`.
pub open spec fn connect_view(s: u32) -> QPacketView {
    QPacketView { conn_signature: Some(s), ..client_packet(PacketType::Connect, 4) }
}

/// The Connect packet with connection signature `conn_signature`:
/// `NeedAck`.
pub fn connect_packet_with(conn_signature: u32) -> (r: QPacket)
    ensures
        r@ == connect_view(conn_signature),
{
    let mut flags = PacketFlags::empty();
    flags.insert(PacketFlag::NeedAck);
    assert(0u8 | 4u8 == 4u8) by (bit_vector);
    let mut p = new_client_packet(PacketType::Connect, flags);
    p.conn_signature = Some(conn_signature);
    p
}

/// The Connect packet, under a random connection signature.
pub fn connect_packet() -> (r: QPacket)
    ensures
        exists|s: u32| r@ == #[trigger] connect_view(s),
{
    connect_packet_with(random_signature())
}

/// Whether a reply acknowledges a packet of type `pt`.
pub open spec fn acknowledges(reply: QPacketView, pt: PacketType) -> bool {
    reply.packet_type == pt && reply.flags & 1 == 1
}

/// Checks the server's reply to Connect.
pub fn check_connect_ack(reply: &QPacket) -> (r: Result<(), LoginError>)
    ensures
        r is Ok <==> acknowledges(reply@, PacketType::Connect),
        r is Err ==> r == Err::<(), LoginError>(LoginError::InvalidConnectAck),
{
    if reply.packet_type != PacketType::Connect || !reply.flags.contains(PacketFlag::Ack) {
        return Err(LoginError::InvalidConnectAck);
    }
    Ok(())
}

/// Checks the server's acknowledgement of the login request.
pub fn check_data_ack(reply: &QPacket) -> (r: Result<(), LoginError>)
    ensures
        r is Ok <==> acknowledges(reply@, PacketType::Data),
        r is Err ==> r == Err::<(), LoginError>(LoginError::InvalidDataAck),
{
    if reply.packet_type != PacketType::Data || !reply.flags.contains(PacketFlag::Ack) {
        return Err(LoginError::InvalidDataAck);
    }
    Ok(())
}

/// Checks that the answer to the login is a data packet with `HasSize`.
pub fn check_login_response(reply: &QPacket) -> (r: Result<(), LoginError>)
    ensures
        r is Ok <==> (reply.packet_type == PacketType::Data && reply@.flags & 8 == 8),
        r is Err ==> r == Err::<(), LoginError>(LoginError::InvalidResponse),
{
    if reply.packet_type != PacketType::Data || !reply.flags.contains(PacketFlag::HasSize) {
        return Err(LoginError::InvalidResponse);
    }
    Ok(())
}

/// Checks the server's acknowledgement of the disconnect.
pub fn check_disconnect_ack(reply: &QPacket) -> (r: Result<(), LoginError>)
    ensures
        r is Ok <==> acknowledges(reply@, PacketType::Disconnect),
        r is Err ==> r == Err::<(), LoginError>(LoginError::InvalidDisconnectAck),
{
    if reply.packet_type != PacketType::Disconnect || !reply.flags.contains(PacketFlag::Ack) {
        return Err(LoginError::InvalidDisconnectAck);
    }
    Ok(())
}

/// The online key that the login test sends.
pub open spec fn test_online_key() -> Seq<char> {
    "AAAA-BBBB-CCCC"@
}

/// The class name of the login's extra data.
pub open spec fn custom_data_class() -> Seq<char> {
    "UbiAuthenticationLoginCustomData"@
}

/// The parameters of the login request: the user name, then the Ubisoft
/// credentials as extra data.
pub open spec fn login_parameters(username: Seq<char>, password: Seq<char>) -> Seq<u8> {
    LoginExRequest::spec_to_stream(
        (
            username,
            (
                custom_data_class(),
                UbiAuthenticationLoginCustomData::spec_to_stream(((username, test_online_key()), password)),
            ),
        ),
    )
}

/// The login request: `LoginEx` of the ticket granting protocol, call 10.
pub open spec fn login_request_bytes(username: Seq<char>, password: Seq<char>) -> Seq<u8> {
    spec_request_bytes(
        (TICKET_GRANTING_PROTOCOL_ID, LOGIN_CALL_ID, LOGIN_EX_METHOD_ID, login_parameters(username, password)),
    )
}

/// The data packet that carries the login request: `NeedAck | Reliable`,
/// fragment 0.
pub fn login_packet(username: &str, password: &str) -> (r: QPacket)
    ensures
        r@ == (QPacketView {
            fragment_id: Some(0),
            payload: login_request_bytes(username@, password@),
            ..client_packet(PacketType::Data, 6)
        }),
{
    let parameters = login_parameters_bytes(username, password);
    let rmc = Packet::Request(
        Request {
            protocol_id: TICKET_GRANTING_PROTOCOL_ID,
            call_id: LOGIN_CALL_ID,
            method_id: LOGIN_EX_METHOD_ID,
            parameters,
        },
    );
    let flags = PacketFlags::pair(PacketFlag::NeedAck, PacketFlag::Reliable);
    assert(4u8 | 2u8 == 6u8) by (bit_vector);
    let mut p = new_client_packet(PacketType::Data, flags);
    p.fragment_id = Some(0);
    p.payload = rmc.to_bytes();
    p
}

/// The parameters of the login request.
fn login_parameters_bytes(username: &str, password: &str) -> (r: Vec<u8>)
    ensures
        r@ == login_parameters(username@, password@),
{
    let custom = UbiAuthenticationLoginCustomData {
        user_name: username.to_string(),
        online_key: String::from_str("AAAA-BBBB-CCCC"),
        password: password.to_string(),
    };
    let custom_bytes = custom.to_bytes();
    let extra = Any::new(String::from_str("UbiAuthenticationLoginCustomData"), custom_bytes);
    let req = LoginExRequest { str_user_name: username.to_string(), o_extra_data: extra };
    proof {
        req.o_extra_data.lemma_deep_view();
    }
    req.to_bytes()
}

/// The acknowledgement of the login answer: a data packet with `Ack`,
/// fragment 0.
pub fn response_ack_packet() -> (r: QPacket)
    ensures
        r@ == (QPacketView { fragment_id: Some(0), ..client_packet(PacketType::Data, 1) }),
{
    let mut flags = PacketFlags::empty();
    flags.insert(PacketFlag::Ack);
    assert(0u8 | 1u8 == 1u8) by (bit_vector);
    let mut p = new_client_packet(PacketType::Data, flags);
    p.fragment_id = Some(0);
    p
}

/// The Disconnect packet: no flags, fragment 0.
pub fn disconnect_packet() -> (r: QPacket)
    ensures
        r@ == (QPacketView { fragment_id: Some(0), ..client_packet(PacketType::Disconnect, 0) }),
{
    let mut p = new_client_packet(PacketType::Disconnect, PacketFlags::empty());
    p.fragment_id = Some(0);
    p
}

/// What the answer to the login says: an unreadable message fails with
/// the reading error, a request is no answer, a refusal gives its code.
pub open spec fn spec_login_result(payload: Seq<u8>) -> Result<(), LoginError> {
    match spec_packet(payload) {
        Err(e) => Err(LoginError::Rmc(e)),
        Ok(PacketView::Request(_)) => Err(LoginError::InvalidRmcResponse),
        Ok(PacketView::Response((_, Err((code, _))))) => Err(LoginError::Refused(code)),
        Ok(PacketView::Response((_, Ok(_)))) => Ok(()),
    }
}

/// Reads the answer to the login.
pub fn login_result(payload: &[u8]) -> (r: Result<(), LoginError>)
    ensures
        r == spec_login_result(payload@),
{
    match Packet::from_bytes(payload) {
        Err(e) => Err(LoginError::Rmc(e)),
        Ok(Packet::Request(_)) => Err(LoginError::InvalidRmcResponse),
        Ok(Packet::Response(resp)) => match resp.result {
            Err(e) => Err(LoginError::Refused(e.error_code)),
            Ok(_) => Ok(()),
        },
    }
}

} // verus!
