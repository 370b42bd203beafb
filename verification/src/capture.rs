//! Captured traffic: the UDP datagram in an Ethernet frame, and the PRUDP
//! packets (with the RMC messages they start) in a datagram.

use crate::config::Context;
use crate::prudp::packet::{
    is_valid_rc4_key, reads_secure_payload, size_underflows, spec_qpacket, valid_rc4_key, Error, PacketFlag,
    PacketType, QPacket, QPacketView,
};
use crate::rmc::{spec_packet, Packet, PacketView};
use etherparse::{NetSlice, TransportSlice};
use vstd::prelude::*;

verus! {

// ---------------------------------------------------------------------------
// Frames
// ---------------------------------------------------------------------------

/// A UDP datagram over IPv4.
#[derive(Debug)]
pub struct Datagram {
    pub source_ip: [u8; 4],
    pub source_port: u16,
    pub destination_ip: [u8; 4],
    pub destination_port: u16,
    pub payload: Vec<u8>,
}

/// The view of a `Datagram`.
pub struct DatagramView {
    pub source_ip: Seq<u8>,
    pub source_port: u16,
    pub destination_ip: Seq<u8>,
    pub destination_port: u16,
    pub payload: Seq<u8>,
}

impl View for Datagram {
    type V = DatagramView;

    open spec fn view(&self) -> DatagramView {
        DatagramView {
            source_ip: self.source_ip@,
            source_port: self.source_port,
            destination_ip: self.destination_ip@,
            destination_port: self.destination_port,
            payload: self.payload@,
        }
    }
}

/// What an Ethernet frame carries, as far as a capture of UDP traffic
/// cares.
#[derive(Debug)]
pub enum FrameContent {
    /// The headers do not read.
    Malformed,
    /// No UDP datagram.
    NotUdp,
    /// A UDP datagram, with these source and destination ports, that does
    /// not travel over IPv4.
    UdpNotIpv4(u16, u16),
    /// A UDP datagram over IPv4.
    Udp(Datagram),
}

/// The view of a `FrameContent`.
pub enum FrameView {
    Malformed,
    NotUdp,
    UdpNotIpv4(u16, u16),
    Udp(DatagramView),
}

/// The view of a `FrameContent`.
pub open spec fn frame_view(f: FrameContent) -> FrameView {
    match f {
        FrameContent::Malformed => FrameView::Malformed,
        FrameContent::NotUdp => FrameView::NotUdp,
        FrameContent::UdpNotIpv4(s, d) => FrameView::UdpNotIpv4(s, d),
        FrameContent::Udp(d) => FrameView::Udp(d@),
    }
}

/// What `etherparse::SlicedPacket::from_ethernet` finds in the bytes of an
/// Ethernet frame: an error, a transport other than UDP, or a UDP
/// datagram, with its IPv4 addresses where it travels over IPv4.
pub uninterp spec fn ethernet_frame(frame: Seq<u8>) -> FrameView;

/// `etherparse::SlicedPacket::from_ethernet`: the frame's content, the
/// named `ethernet_frame` of its bytes.
#[verifier::external_body]
fn read_frame(frame: &[u8]) -> (r: FrameContent)
    ensures
        frame_view(r) == ethernet_frame(frame@),
{
    match etherparse::SlicedPacket::from_ethernet(frame) {
        Err(_) => FrameContent::Malformed,
        Ok(p) => match (p.transport, p.net) {
            (Some(TransportSlice::Udp(u)), Some(NetSlice::Ipv4(ip))) => FrameContent::Udp(Datagram {
                source_ip: ip.header().source(),
                source_port: u.source_port(),
                destination_ip: ip.header().destination(),
                destination_port: u.destination_port(),
                payload: u.payload().to_vec(),
            }),
            (Some(TransportSlice::Udp(u)), _) => FrameContent::UdpNotIpv4(u.source_port(), u.destination_port()),
            _ => FrameContent::NotUdp,
        },
    }
}

/// What a frame gives a capture that follows one port.
#[derive(Debug)]
pub enum PortFrame {
    /// The headers do not read.
    Malformed,
    /// No UDP datagram from or to the port.
    Skipped,
    /// A UDP datagram from or to the port that does not travel over IPv4.
    NotIpv4,
    /// A UDP datagram over IPv4 from or to the port.
    Datagram(Datagram),
}

/// Whether a datagram with these ports is from or to `port`.
pub open spec fn on_port(source: u16, destination: u16, port: u16) -> bool {
    source == port || destination == port
}

/// The UDP datagram that `frame` carries from or to `port`.
pub fn datagram_on_port(frame: &[u8], port: u16) -> (r: PortFrame)
    ensures
        match ethernet_frame(frame@) {
            FrameView::Malformed => r is Malformed,
            FrameView::NotUdp => r is Skipped,
            FrameView::UdpNotIpv4(s, d) => if on_port(s, d, port) {
                r is NotIpv4
            } else {
                r is Skipped
            },
            FrameView::Udp(g) => if on_port(g.source_port, g.destination_port, port) {
                r matches PortFrame::Datagram(x) && x@ == g
            } else {
                r is Skipped
            },
        },
{
    match read_frame(frame) {
        FrameContent::Malformed => PortFrame::Malformed,
        FrameContent::NotUdp => PortFrame::Skipped,
        FrameContent::UdpNotIpv4(s, d) => if s == port || d == port {
            PortFrame::NotIpv4
        } else {
            PortFrame::Skipped
        },
        FrameContent::Udp(g) => if g.source_port == port || g.destination_port == port {
            PortFrame::Datagram(g)
        } else {
            PortFrame::Skipped
        },
    }
}

// ---------------------------------------------------------------------------
// Datagrams
// ---------------------------------------------------------------------------

/// Whether a packet starts an RMC message: a data packet that is not an
/// acknowledgement, with fragment id 0.
pub open spec fn starts_message(p: QPacketView) -> bool {
    &&& p.packet_type == PacketType::Data
    &&& p.flags & PacketFlag::Ack.spec_bit() != PacketFlag::Ack.spec_bit()
    &&& p.fragment_id == Some(0u8)
}

/// Why the walk through a datagram stopped early.
#[derive(Debug)]
pub enum WalkError {
    /// A packet without a size leaves no room for its checksum.
    NoRoomForChecksum,
    /// A secure packet needs a valid RC4 key and the context has none.
    InvalidCryptoKey,
    /// A packet does not read.
    Packet(Error),
    /// The message that the last packet starts does not read.
    Message(crate::rmc::Error),
}

/// The view of a `WalkError`.
pub enum WalkErrorView {
    NoRoomForChecksum,
    InvalidCryptoKey,
    Packet(Error),
    Message(crate::rmc::Error),
}

/// The view of an optional `WalkError`.
pub open spec fn walk_error_view(e: Option<WalkError>) -> Option<WalkErrorView> {
    match e {
        None => None,
        Some(WalkError::NoRoomForChecksum) => Some(WalkErrorView::NoRoomForChecksum),
        Some(WalkError::InvalidCryptoKey) => Some(WalkErrorView::InvalidCryptoKey),
        Some(WalkError::Packet(x)) => Some(WalkErrorView::Packet(x)),
        Some(WalkError::Message(x)) => Some(WalkErrorView::Message(x)),
    }
}

/// A packet of a datagram, with the message it starts when it starts one.
#[derive(Debug)]
pub struct DecodedPacket {
    pub packet: QPacket,
    pub message: Option<Packet>,
}

/// The view of a `DecodedPacket`.
pub open spec fn decoded_view(d: DecodedPacket) -> (QPacketView, Option<PacketView>) {
    (
        d.packet@,
        match d.message {
            Some(m) => Some(m@),
            None => None,
        },
    )
}

/// A packet read from the start of `data` is between one byte and the
/// whole of `data` long.
pub proof fn lemma_packet_len(key: Seq<u8>, data: Seq<u8>)
    ensures
        spec_qpacket(key, data) matches Ok((p, n)) ==> 1 <= n <= data.len(),
{
}

/// The packets of the datagram payload `data`, one after the other, each
/// with the message it starts; and why the walk stopped before the end,
/// if it did. A packet whose message does not read is the last one.
pub open spec fn spec_walk(key: Seq<u8>, data: Seq<u8>) -> (Seq<(QPacketView, Option<PacketView>)>, Option<WalkErrorView>)
    decreases data.len(),
{
    if data.len() == 0 {
        (Seq::empty(), None)
    } else if size_underflows(data) {
        (Seq::empty(), Some(WalkErrorView::NoRoomForChecksum))
    } else if reads_secure_payload(data) && !valid_rc4_key(key) {
        (Seq::empty(), Some(WalkErrorView::InvalidCryptoKey))
    } else {
        match spec_qpacket(key, data) {
            Err(e) => (Seq::empty(), Some(WalkErrorView::Packet(e))),
            Ok((p, n)) => {
                proof {
                    lemma_packet_len(key, data);
                }
                if starts_message(p) {
                    match spec_packet(p.payload) {
                        Err(e) => (seq![(p, None)], Some(WalkErrorView::Message(e))),
                        Ok(m) => {
                            let (rest, err) = spec_walk(key, data.skip(n as int));
                            (seq![(p, Some(m))] + rest, err)
                        },
                    }
                } else {
                    let (rest, err) = spec_walk(key, data.skip(n as int));
                    (seq![(p, None)] + rest, err)
                }
            },
        }
    }
}

/// Reads the PRUDP packets of a datagram payload one after the other,
/// with the RMC message that each starts; stops at the first that does
/// not read.
#[verifier::rlimit(40)]
pub fn walk_datagram(ctx: &Context, data: &[u8]) -> (r: (Vec<DecodedPacket>, Option<WalkError>))
    ensures
        r.0@.map_values(|d: DecodedPacket| decoded_view(d)) == spec_walk(ctx.crypto_key@, data@).0,
        walk_error_view(r.1) == spec_walk(ctx.crypto_key@, data@).1,
{
    let ghost key = ctx.crypto_key@;
    let mut out: Vec<DecodedPacket> = Vec::new();
    let ghost mut views: Seq<(QPacketView, Option<PacketView>)> = Seq::empty();
    let mut offset: usize = 0;
    let len = data.len();
    let valid_key = is_valid_rc4_key(ctx.crypto_key.as_slice());
    assert(data@.skip(0) =~= data@);
    assert(views + spec_walk(key, data@).0 =~= spec_walk(key, data@).0);
    let mut err: Option<WalkError> = None;
    loop
        invariant_except_break
            err is None,
            spec_walk(key, data@).0 == views + spec_walk(key, data@.skip(offset as int)).0,
            spec_walk(key, data@).1 == spec_walk(key, data@.skip(offset as int)).1,
        invariant
            offset <= len,
            len == data@.len(),
            key == ctx.crypto_key@,
            valid_key == valid_rc4_key(key),
            out@.len() == views.len(),
            forall|i: int| 0 <= i < views.len() ==> decoded_view(#[trigger] out@[i]) == views[i],
        ensures
            out@.len() == views.len(),
            forall|i: int| 0 <= i < views.len() ==> decoded_view(#[trigger] out@[i]) == views[i],
            spec_walk(key, data@).0 == views,
            spec_walk(key, data@).1 == walk_error_view(err),
        decreases len - offset,
    {
        let (_, rest) = data.split_at(offset);
        assert(rest@ =~= data@.skip(offset as int));
        if rest.len() == 0 {
            assert(views + Seq::empty() =~= views);
            break;
        }
        if !QPacket::payload_size_defined(rest) {
            assert(views + Seq::empty() =~= views);
            err = Some(WalkError::NoRoomForChecksum);
            break;
        }
        if QPacket::reads_secure_payload(rest) && !valid_key {
            assert(views + Seq::empty() =~= views);
            err = Some(WalkError::InvalidCryptoKey);
            break;
        }
        let (packet, n) = match QPacket::from_bytes(ctx, rest) {
            Ok(x) => x,
            Err(e) => {
                assert(views + Seq::empty() =~= views);
                err = Some(WalkError::Packet(e));
            break;
            },
        };
        proof {
            lemma_packet_len(key, rest@);
        }
        let n = n as usize;
        let starts = packet.packet_type == PacketType::Data && !packet.flags.contains(PacketFlag::Ack)
            && packet.fragment_id == Some(0u8);
        assert(starts == starts_message(packet@));
        let ghost pv = packet@;
        if starts {
            match Packet::from_bytes(packet.payload.as_slice()) {
                Err(e) => {
                    out.push(DecodedPacket { packet, message: None });
                    proof {
                        assert(views.push((pv, None)) =~= views + seq![(pv, None::<PacketView>)]);
                        views = views.push((pv, None));
                    }
                    err = Some(WalkError::Message(e));
            break;
                },
                Ok(m) => {
                    let ghost mv = m@;
                    out.push(DecodedPacket { packet, message: Some(m) });
                    proof {
                        let next = spec_walk(key, data@.skip(offset + n)).0;
                        assert(views + (seq![(pv, Some(mv))] + next) =~= views.push((pv, Some(mv))) + next);
                        views = views.push((pv, Some(mv)));
                    }
                },
            }
        } else {
            out.push(DecodedPacket { packet, message: None });
            proof {
                let next = spec_walk(key, data@.skip(offset + n)).0;
                assert(views + (seq![(pv, None::<PacketView>)] + next) =~= views.push((pv, None)) + next);
                views = views.push((pv, None));
            }
        }
        assert(rest@.skip(n as int) =~= data@.skip(offset + n));
        offset = offset + n;
    }
    assert(out@.map_values(|d: DecodedPacket| decoded_view(d)) =~= views);
    (out, err)
}

/// The Ack flag is the lowest bit of the flags: a packet without that
/// bit is not an acknowledgement, whatever its other flags.
proof fn lemma_ack_bit(flags: u8)
    ensures
        (flags & PacketFlag::Ack.spec_bit() != PacketFlag::Ack.spec_bit()) == (flags & 1u8 == 0u8),
{
    assert(PacketFlag::Ack.spec_bit() == 1u8);
    assert((flags & 1u8 != 1u8) == (flags & 1u8 == 0u8)) by (bit_vector);
}

/// In the walk through a datagram, a packet comes with a message exactly
/// when it is a Data packet without the Ack flag (the lowest flag bit),
/// whatever its other flags, with fragment id 0, unless it is the last
/// packet and its message does not read; the message is what its payload
/// reads as. A walk stopped by a message that does not read stopped at
/// such a packet.
pub proof fn lemma_walk_messages(key: Seq<u8>, data: Seq<u8>)
    ensures
        ({
            let (ps, err) = spec_walk(key, data);
            &&& forall|i: int|
                0 <= i < ps.len() ==> {
                    &&& ((#[trigger] ps[i]).1 is Some <==> {
                        &&& ps[i].0.packet_type == PacketType::Data
                        &&& ps[i].0.flags & 1u8 == 0u8
                        &&& ps[i].0.fragment_id == Some(0u8)
                        &&& !(i == ps.len() - 1 && err matches Some(WalkErrorView::Message(_)))
                    })
                    &&& ps[i].1 matches Some(m) ==> spec_packet(ps[i].0.payload) == Ok::<PacketView, crate::rmc::Error>(m)
                }
            &&& err matches Some(WalkErrorView::Message(e)) ==> {
                &&& ps.len() > 0
                &&& ps.last().0.packet_type == PacketType::Data
                &&& ps.last().0.flags & 1u8 == 0u8
                &&& ps.last().0.fragment_id == Some(0u8)
                &&& spec_packet(ps.last().0.payload) == Err::<PacketView, crate::rmc::Error>(e)
            }
        }),
    decreases data.len(),
{
    if data.len() == 0 || size_underflows(data) || (reads_secure_payload(data) && !valid_rc4_key(key)) {
    } else {
        match spec_qpacket(key, data) {
            Err(_) => {},
            Ok((p, n)) => {
                lemma_packet_len(key, data);
                lemma_ack_bit(p.flags);
                if starts_message(p) {
                    match spec_packet(p.payload) {
                        Err(e) => {},
                        Ok(m) => {
                            lemma_walk_messages(key, data.skip(n as int));
                            let (rest, err) = spec_walk(key, data.skip(n as int));
                            let ps = seq![(p, Some(m))] + rest;
                            assert forall|i: int| 1 <= i < ps.len() implies ps[i] == rest[i - 1] by {}
                        },
                    }
                } else {
                    lemma_walk_messages(key, data.skip(n as int));
                    let (rest, err) = spec_walk(key, data.skip(n as int));
                    let ps = seq![(p, None::<PacketView>)] + rest;
                    assert forall|i: int| 1 <= i < ps.len() implies ps[i] == rest[i - 1] by {}
                }
            },
        }
    }
}

} // verus!
