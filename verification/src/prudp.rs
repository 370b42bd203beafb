//! The PRUDP transport: packets, and the per-connection bookkeeping that
//! decides how packets are answered.

pub mod packet;

use crate::config::{bytes_vec, Context};
use crate::kerberos::{opt_bytes, spec_open_internal, InternalView, KerberosTicketInternal};
use crate::prudp::packet::{
    crypt_key, fields_present, spec_crypt, spec_default_packet, spec_packet_bytes, key_serves, PacketFlag, PacketFlags, PacketType,
    QPacket, QPacketView, StreamType, VPort,
};
use crate::rmc::basic::{
    eof, le_u32, lemma_u32_roundtrip, u32_bytes, FromStream, FromStreamError, ReadStream, ToStream,
};
use crate::ConnectionID;
use std::collections::HashMap;
use vstd::prelude::*;

verus! {


/// The largest payload that one data packet carries.
pub const MAX_PAYLOAD_SIZE: usize = 1000;

/// How long a client may stay silent before its session expires, in
/// milliseconds.
pub const SESSION_TIMEOUT_MS: u64 = 60000;

/// The connection identifier that a new server hands out first.
pub const FIRST_CONNECTION_ID: u32 = 0x3AAA_AAAA;

/// `rand::random::<u32>()`: a random number. Nothing is stated of it.
#[verifier::external_body]
fn random_u32() -> (r: u32) {
    rand::random::<u32>()
}

/// `rand::random::<u8>()`: a random number. Nothing is stated of it.
#[verifier::external_body]
fn random_u8() -> (r: u8) {
    rand::random::<u8>()
}

// ---------------------------------------------------------------------------
// Clients
// ---------------------------------------------------------------------------

/// What the server knows of one client connection.
#[derive(Debug)]
pub struct ClientInfo<T> {
    /// The sequence number of the next packet that the server sends.
    pub server_sequence_id: u16,
    /// The sequence number of the next request that the server makes.
    pub client_sequence_id: u16,
    /// The signature that the client chose, once it connected.
    pub client_signature: Option<u32>,
    /// The signature that the server chose for the client.
    pub server_signature: u32,
    /// The client's session ID.
    pub client_session: u8,
    /// The server's session ID.
    pub server_session: u8,
    /// Payload fragments received so far, by fragment id.
    pub packet_fragments: HashMap<u8, Vec<u8>>,
    /// When the client was last heard from, in milliseconds.
    pub last_seen: u64,
    /// The client's connection ID, once it logged in.
    pub connection_id: Option<ConnectionID>,
    /// The client's user ID, once it logged in.
    pub user_id: Option<u32>,
    /// Data of the server's own.
    pub additional: T,
}

impl<T> ClientInfo<T> {
    /// A client that the server gave `server_signature`, seen at `now`.
    pub fn with_signature(server_signature: u32, additional: T, now: u64) -> (r: ClientInfo<T>)
        ensures
            r.server_sequence_id == 1,
            r.client_sequence_id == 1,
            r.client_signature is None,
            r.server_signature == server_signature,
            r.client_session == 0,
            r.server_session == 0,
            r.packet_fragments@ == Map::<u8, Vec<u8>>::empty(),
            r.last_seen == now,
            r.connection_id is None,
            r.user_id is None,
            r.additional == additional,
    {
        ClientInfo {
            server_sequence_id: 1,
            client_sequence_id: 1,
            client_signature: None,
            server_signature,
            client_session: 0,
            server_session: 0,
            packet_fragments: HashMap::new(),
            last_seen: now,
            connection_id: None,
            user_id: None,
            additional,
        }
    }

    /// A new client seen at `now`, under a random server signature.
    pub fn new(additional: T, now: u64) -> (r: ClientInfo<T>)
        ensures
            r.server_sequence_id == 1,
            r.client_sequence_id == 1,
            r.client_signature is None,
            r.client_session == 0,
            r.server_session == 0,
            r.packet_fragments@ == Map::<u8, Vec<u8>>::empty(),
            r.last_seen == now,
            r.connection_id is None,
            r.user_id is None,
            r.additional == additional,
    {
        ClientInfo::with_signature(random_u32(), additional, now)
    }

    /// Marks the client as heard from at `now`.
    pub fn seen(&mut self, now: u64)
        ensures
            *final(self) == (ClientInfo { last_seen: now, ..*old(self) }),
    {
        self.last_seen = now;
    }
}

// ---------------------------------------------------------------------------
// Outgoing packets
// ---------------------------------------------------------------------------

/// `v`, or 0 when there is none.
pub open spec fn or_zero(v: Option<u32>) -> u32 {
    match v {
        Some(x) => x,
        None => 0,
    }
}

/// The acknowledgement of `p`: the ports swapped, flags `Ack | HasSize`,
/// the client's signature and the server's session, the same sequence
/// number, and the payload only when it is kept.
pub open spec fn ack_view(p: QPacketView, client_signature: Option<u32>, server_session: u8, keep_payload: bool) -> QPacketView {
    QPacketView {
        source: p.destination,
        destination: p.source,
        flags: 9,
        signature: or_zero(client_signature),
        session_id: server_session,
        payload: if keep_payload {
            p.payload
        } else {
            Seq::empty()
        },
        ..p
    }
}

/// A packet as it goes out: data packets are compressed and carry a
/// fragment id (0 when they had none), and every packet has `HasSize`.
pub open spec fn outgoing_view(p: QPacketView) -> QPacketView {
    if p.packet_type == PacketType::Data {
        QPacketView {
            use_compression: true,
            fragment_id: if p.fragment_id is None {
                Some(0u8)
            } else {
                p.fragment_id
            },
            flags: p.flags | 8,
            ..p
        }
    } else {
        QPacketView { flags: p.flags | 8, ..p }
    }
}

/// A response to a client: the server's next sequence number, flags
/// `HasSize | NeedAck | Reliable` added, the client's signature and the
/// server's session.
pub open spec fn response_view(p: QPacketView, server_sequence_id: u16, client_signature: Option<u32>, server_session: u8) -> QPacketView {
    QPacketView {
        sequence: server_sequence_id,
        flags: p.flags | 8 | 4 | 2,
        signature: or_zero(client_signature),
        session_id: server_session,
        ..p
    }
}

/// A request to a client: the next client-side sequence number, flags
/// `HasSize | NeedAck | Reliable` added, the server's signature and the
/// client's session.
pub open spec fn request_view(p: QPacketView, client_sequence_id: u16, server_signature: u32, client_session: u8) -> QPacketView {
    QPacketView {
        sequence: client_sequence_id,
        flags: p.flags | 8 | 4 | 2,
        signature: server_signature,
        session_id: client_session,
        ..p
    }
}

/// The next sequence number after `s`; it wraps around.
pub open spec fn next_seq(s: u16) -> u16 {
    ((s + 1) % 0x1_0000) as u16
}

/// A copy of a packet.
pub fn copy_packet(p: &QPacket) -> (r: QPacket)
    ensures
        r@ == p@,
{
    QPacket {
        source: p.source,
        destination: p.destination,
        packet_type: p.packet_type,
        flags: p.flags,
        session_id: p.session_id,
        signature: p.signature,
        fragment_id: p.fragment_id,
        conn_signature: p.conn_signature,
        sequence: p.sequence,
        payload: bytes_vec(p.payload.as_slice()),
        checksum: p.checksum,
        use_compression: p.use_compression,
    }
}

/// The acknowledgement that answers `packet` for client `ci`.
pub fn ack_packet<T>(packet: &QPacket, ci: &ClientInfo<T>, keep_payload: bool) -> (r: QPacket)
    ensures
        r@ == ack_view(packet@, ci.client_signature, ci.server_session, keep_payload),
{
    let mut resp = copy_packet(packet);
    resp.source = packet.destination;
    resp.destination = packet.source;
    resp.flags = PacketFlags::pair(PacketFlag::Ack, PacketFlag::HasSize);
    resp.signature = match ci.client_signature {
        Some(s) => s,
        None => 0,
    };
    resp.session_id = ci.server_session;
    if !keep_payload {
        resp.payload = Vec::new();
    }
    resp.sequence = packet.sequence;
    assert(1u8 | 8u8 == 9u8) by (bit_vector);
    resp
}

/// Prepares a packet for sending.
pub fn outgoing(resp: QPacket) -> (r: QPacket)
    ensures
        r@ == outgoing_view(resp@),
{
    let mut resp = resp;
    if resp.packet_type == PacketType::Data {
        resp.use_compression = true;
        if resp.fragment_id.is_none() {
            resp.fragment_id = Some(0);
        }
    }
    resp.flags.insert(PacketFlag::HasSize);
    resp
}

/// The bytes that go out for a packet.
pub fn send_packet_bytes(ctx: &Context, resp: QPacket) -> (r: Vec<u8>)
    requires
        key_serves(ctx.crypto_key@, outgoing_view(resp@)),
        fields_present(outgoing_view(resp@)),
    ensures
        r@ == spec_packet_bytes(
            ctx.crypto_key@,
            ctx.spec_key(resp.destination.stream_type),
            outgoing_view(resp@),
        ),
{
    let p = outgoing(resp);
    p.to_bytes(ctx)
}

/// Stamps a response with the client's next server-side sequence number,
/// which then advances.
pub fn prepare_response<T>(resp: QPacket, ci: &mut ClientInfo<T>) -> (r: QPacket)
    ensures
        r@ == response_view(resp@, old(ci).server_sequence_id, old(ci).client_signature, old(ci).server_session),
        *final(ci) == (ClientInfo { server_sequence_id: next_seq(old(ci).server_sequence_id), ..*old(ci) }),
{
    let mut resp = resp;
    resp.sequence = ci.server_sequence_id;
    ci.server_sequence_id = ci.server_sequence_id.wrapping_add(1);
    resp.flags.insert(PacketFlag::HasSize);
    resp.flags.insert(PacketFlag::NeedAck);
    resp.flags.insert(PacketFlag::Reliable);
    resp.signature = match ci.client_signature {
        Some(s) => s,
        None => 0,
    };
    resp.session_id = ci.server_session;
    resp
}

/// Stamps a request with the client's next client-side sequence number,
/// which then advances.
pub fn prepare_request<T>(req: QPacket, ci: &mut ClientInfo<T>) -> (r: QPacket)
    ensures
        r@ == request_view(req@, old(ci).client_sequence_id, old(ci).server_signature, old(ci).client_session),
        *final(ci) == (ClientInfo { client_sequence_id: next_seq(old(ci).client_sequence_id), ..*old(ci) }),
{
    let mut req = req;
    req.sequence = ci.client_sequence_id;
    ci.client_sequence_id = ci.client_sequence_id.wrapping_add(1);
    req.flags.insert(PacketFlag::HasSize);
    req.flags.insert(PacketFlag::NeedAck);
    req.flags.insert(PacketFlag::Reliable);
    req.signature = ci.server_signature;
    req.session_id = ci.client_session;
    req
}

// ---------------------------------------------------------------------------
// Fragments
// ---------------------------------------------------------------------------

/// Fragments 1 to `n` of `m`, joined in order.
pub open spec fn joined_fragments(m: Map<u8, Vec<u8>>, n: nat) -> Seq<u8>
    decreases n,
{
    if n == 0 {
        Seq::empty()
    } else {
        joined_fragments(m, (n - 1) as nat) + m[n as u8]@
    }
}

/// Whether fragments 1 to `n` are all there.
pub open spec fn fragments_present(m: Map<u8, Vec<u8>>, n: nat) -> bool {
    forall|k: nat| 1 <= k <= n ==> #[trigger] m.contains_key(k as u8)
}

/// How many fragments the last one completes: the count of cached
/// fragments, taken modulo 256.
pub open spec fn fragment_count(m: Map<u8, Vec<u8>>) -> nat {
    m.len() % 256
}

/// What taking in a payload does to the fragment cache `m`, and the
/// payload that is then complete, if any.
pub open spec fn payload_step(m: Map<u8, Vec<u8>>, fragment_id: Option<u8>, payload: Vec<u8>) -> (Map<u8, Vec<u8>>, Option<Seq<u8>>) {
    match fragment_id {
        None => (m, Some(payload@)),
        Some(f) => if f != 0 {
            (m.insert(f, payload), None)
        } else {
            let n = fragment_count(m);
            (
                Map::empty(),
                if fragments_present(m, n) {
                    Some(joined_fragments(m, n) + payload@)
                } else {
                    None
                },
            )
        },
    }
}

/// Two records of the same session: they differ at most in the fragment
/// cache and the time last seen.
pub open spec fn same_session<T>(a: ClientInfo<T>, b: ClientInfo<T>) -> bool {
    &&& a.server_sequence_id == b.server_sequence_id
    &&& a.client_sequence_id == b.client_sequence_id
    &&& a.client_signature == b.client_signature
    &&& a.server_signature == b.server_signature
    &&& a.client_session == b.client_session
    &&& a.server_session == b.server_session
    &&& a.connection_id == b.connection_id
    &&& a.user_id == b.user_id
    &&& a.additional == b.additional
}

impl<T> ClientInfo<T> {
    /// Takes in the payload of a data packet. A fragment with a nonzero id
    /// is cached and nothing is complete yet. Fragment 0 completes the
    /// payload: the cached fragments 1, 2, ... in order, then its own
    /// payload; when one of them is missing, the cache is dropped and
    /// nothing is complete. A packet without fragment id is complete on
    /// its own.
    pub fn take_payload(&mut self, fragment_id: Option<u8>, payload: Vec<u8>) -> (r: Option<Vec<u8>>)
        ensures
            final(self).packet_fragments@ == payload_step(old(self).packet_fragments@, fragment_id, payload).0,
            opt_bytes(r) == payload_step(old(self).packet_fragments@, fragment_id, payload).1,
            same_session(*final(self), *old(self)),
            final(self).last_seen == old(self).last_seen,
    {
        broadcast use vstd::std_specs::hash::group_hash_axioms;

        let fid = match fragment_id {
            None => return Some(payload),
            Some(f) => f,
        };
        if fid != 0 {
            self.packet_fragments.insert(fid, payload);
            return None;
        }
        let ghost m = self.packet_fragments@;
        let ghost s0 = *self;
        let mut out: Vec<u8> = Vec::new();
        if !self.packet_fragments.is_empty() {
            let n: u16 = (self.packet_fragments.len() % 256) as u16;
            assert(n == fragment_count(m));
            let mut k: u16 = 1;
            while k <= n
                invariant
                    1 <= k <= n + 1,
                    n == fragment_count(m),
                    n <= 255,
                    self.packet_fragments@ == m,
                    *self == s0,
                    s0 == *old(self),
                    m == old(self).packet_fragments@,
                    fragment_id == Some(0u8),
                    fragments_present(m, (k - 1) as nat),
                    out@ == joined_fragments(m, (k - 1) as nat),
                decreases n + 1 - k,
            {
                let key: u8 = k as u8;
                match self.packet_fragments.get(&key) {
                    None => {
                        self.packet_fragments.clear();
                        proof {
                            let kk: nat = k as nat;
                            assert(!m.contains_key(kk as u8));
                            assert(!fragments_present(m, n as nat));
                        }
                        return None;
                    },
                    Some(f) => {
                        let mut i: usize = 0;
                        let ghost before = out@;
                        while i < f.len()
                            invariant
                                i <= f@.len(),
                                out@ =~= before + f@.subrange(0, i as int),
                            decreases f@.len() - i,
                        {
                            out.push(f[i]);
                            i = i + 1;
                        }
                        assert(f@.subrange(0, f@.len() as int) =~= f@);
                        assert(m[k as nat as u8] == *f);
                    },
                }
                proof {
                    assert forall|j: nat| 1 <= j <= k implies #[trigger] m.contains_key(j as u8) by {
                        if j < k {
                            assert(fragments_present(m, (k - 1) as nat));
                        }
                    }
                }
                k = k + 1;
            }
            self.packet_fragments.clear();
        } else {
            assert(m.len() == 0);
        }
        let mut i: usize = 0;
        let ghost before = out@;
        while i < payload.len()
            invariant
                i <= payload@.len(),
                out@ =~= before + payload@.subrange(0, i as int),
            decreases payload@.len() - i,
        {
            out.push(payload[i]);
            i = i + 1;
        }
        assert(payload@.subrange(0, payload@.len() as int) =~= payload@);
        Some(out)
    }
}

// ---------------------------------------------------------------------------
// Responses
// ---------------------------------------------------------------------------

/// How many packets a payload of `n` bytes takes: one per started
/// `MAX_PAYLOAD_SIZE` bytes.
pub open spec fn chunk_count(n: nat) -> nat {
    ((n + 999) / 1000) as nat
}

/// Chunk `i` of payload `p`: bytes `1000 * i` up to the next thousand or
/// the end.
pub open spec fn chunk_of(p: Seq<u8>, i: int) -> Seq<u8> {
    p.subrange(i * 1000, if (i + 1) * 1000 < p.len() { (i + 1) * 1000 } else { p.len() as int })
}

/// The data packet that carries one chunk of the answer to `req`: back to
/// its source, from its destination, under fragment id `fid`.
pub open spec fn fragment_view(req: QPacketView, chunk: Seq<u8>, fid: u8) -> QPacketView {
    QPacketView {
        source: req.destination,
        destination: req.source,
        packet_type: PacketType::Data,
        payload: chunk,
        fragment_id: Some(fid),
        ..spec_default_packet()
    }
}

/// The fragment id of chunk `i` out of `n`: they count down to 0.
pub open spec fn fragment_id_of(n: nat, i: int) -> u8 {
    ((n - 1 - i) % 256) as u8
}

/// The payloads of a run of packets, joined.
pub open spec fn joined_payloads(ps: Seq<QPacketView>) -> Seq<u8>
    decreases ps.len(),
{
    if ps.len() == 0 {
        Seq::empty()
    } else {
        joined_payloads(ps.drop_last()) + ps.last().payload
    }
}

/// The views of a run of packets.
pub open spec fn packet_views(ps: Seq<QPacket>) -> Seq<QPacketView> {
    ps.map_values(|p: QPacket| p@)
}

/// The data packets that carry `payload` back to the sender of `req`: one
/// per chunk of `MAX_PAYLOAD_SIZE` bytes, with fragment ids counting down
/// to 0 on the last one. Joined, their payloads are `payload`; an empty
/// payload takes no packet.
pub fn response_fragments(req: &QPacket, payload: &[u8]) -> (r: Vec<QPacket>)
    ensures
        r@.len() == chunk_count(payload@.len()),
        forall|i: int|
            0 <= i < r@.len() ==> (#[trigger] r@[i])@ == fragment_view(
                req@,
                chunk_of(payload@, i),
                fragment_id_of(r@.len(), i),
            ),
        joined_payloads(packet_views(r@)) == payload@,
{
    let len = payload.len();
    let n: usize = len / 1000 + if len % 1000 != 0 { 1 } else { 0 };
    assert(n == chunk_count(len as nat)) by (nonlinear_arith)
        requires
            n == len / 1000 + if len % 1000 != 0 { 1int } else { 0int },
    ;
    let mut r: Vec<QPacket> = Vec::new();
    let mut i: usize = 0;
    while i < n
        invariant
            i <= n,
            len == payload@.len(),
            n == chunk_count(len as nat),
            r@.len() == i,
            forall|j: int|
                0 <= j < i ==> (#[trigger] r@[j])@ == fragment_view(req@, chunk_of(payload@, j), fragment_id_of(n as nat, j)),
            joined_payloads(packet_views(r@)) == payload@.subrange(
                0,
                if i * 1000 < len { i * 1000 } else { len as int },
            ),
        decreases n - i,
    {
        assert(i * 1000 < len) by (nonlinear_arith)
            requires
                i < n,
                n == (len + 999) / 1000,
        ;
        let start: usize = i * 1000;
        let end: usize = if len - start > 1000 { start + 1000 } else { len };
        let chunk = crate::rmc::basic::slice_vec(payload, start, end);
        let mut p = QPacket::new_default();
        p.source = req.destination;
        p.destination = req.source;
        p.packet_type = PacketType::Data;
        p.payload = chunk;
        p.fragment_id = Some(((n - 1 - i) % 256) as u8);
        let ghost old_r = r@;
        r.push(p);
        proof {
            assert(packet_views(r@).drop_last() =~= packet_views(old_r));
            assert(packet_views(r@).last() == r@[i as int]@);
            assert(end == if (i + 1) * 1000 < len { (i + 1) * 1000 } else { len as int });
            assert(payload@.subrange(0, start as int) + payload@.subrange(start as int, end as int) =~= payload@.subrange(
                0,
                end as int,
            ));
        }
        i = i + 1;
    }
    assert(n * 1000 >= len) by (nonlinear_arith)
        requires
            n == (len + 999) / 1000,
    ;
    assert(payload@.subrange(0, len as int) =~= payload@);
    r
}

/// `s` advanced by `k`; it wraps around.
pub open spec fn seq_add(s: u16, k: int) -> u16 {
    ((s + k) % 0x1_0000) as u16
}

impl<T> ClientInfo<T> {
    /// The packets that answer `req` with `payload`, stamped as responses
    /// with consecutive sequence numbers.
    pub fn response_packets(&mut self, req: &QPacket, payload: &[u8]) -> (r: Vec<QPacket>)
        ensures
            r@.len() == chunk_count(payload@.len()),
            forall|i: int|
                0 <= i < r@.len() ==> (#[trigger] r@[i])@ == response_view(
                    fragment_view(req@, chunk_of(payload@, i), fragment_id_of(r@.len(), i)),
                    seq_add(old(self).server_sequence_id, i),
                    old(self).client_signature,
                    old(self).server_session,
                ),
            *final(self) == (ClientInfo {
                server_sequence_id: seq_add(old(self).server_sequence_id, r@.len() as int),
                ..*old(self)
            }),
    {
        let mut frags = response_fragments(req, payload);
        let ghost fv = frags@;
        assert(fv.len() == frags.len());
        let ghost s0 = *self;
        let mut out: Vec<QPacket> = Vec::new();
        let mut i: usize = 0;
        while frags.len() > 0
            invariant
                i <= fv.len(),
                fv.len() <= usize::MAX,
                frags@ == fv.skip(i as int),
                out@.len() == i,
                forall|j: int|
                    0 <= j < i ==> (#[trigger] out@[j])@ == response_view(
                        fv[j]@,
                        seq_add(s0.server_sequence_id, j),
                        s0.client_signature,
                        s0.server_session,
                    ),
                *self == (ClientInfo { server_sequence_id: seq_add(s0.server_sequence_id, i as int), ..s0 }),
            decreases frags@.len(),
        {
            let ghost before = frags@;
            let p = frags.remove(0);
            assert(p == fv[i as int]);
            assert(frags@ =~= fv.skip(i + 1));
            let q = prepare_response(p, self);
            proof {
                let s = s0.server_sequence_id;
                assert(next_seq(seq_add(s, i as int)) == seq_add(s, i + 1)) by (nonlinear_arith)
                    requires
                        0 <= s < 0x1_0000,
                        0 <= i,
                ;
            }
            out.push(q);
            i = i + 1;
        }
        out
    }
}

// ---------------------------------------------------------------------------
// Connecting
// ---------------------------------------------------------------------------

/// The ticket and the request data of a connect payload (two
/// length-prefixed byte lists), the ticket opened with `key`.
pub open spec fn spec_connect_request(data: Seq<u8>, key: Seq<u8>) -> Result<(InternalView, Seq<u8>), FromStreamError> {
    match <Vec<u8> as FromStream>::spec_from_stream(data) {
        Err(e) => Err(e),
        Ok((ticket, n)) => match <Vec<u8> as FromStream>::spec_from_stream(data.skip(n as int)) {
            Err(e) => Err(e),
            Ok((req, _)) => match spec_open_internal(ticket, key) {
                Err(e) => Err(e),
                Ok(t) => Ok((t, req)),
            },
        },
    }
}

/// The answer to a connect challenge: the request data decrypted with the
/// session key holds the user's PID, the connection ID and the challenge;
/// the answer is the challenge plus one (wrapping), as a length-prefixed
/// byte list.
pub open spec fn spec_challenge_response(session_key: Seq<u8>, request: Seq<u8>) -> Result<Seq<u8>, FromStreamError> {
    let d = spec_crypt(session_key, request);
    if d.len() < 12 {
        Err(eof())
    } else {
        Ok(u32_bytes(4) + u32_bytes(((le_u32(d.skip(8)) + 1) % 0x1_0000_0000) as u32))
    }
}

/// Reads the ticket and the request data of a connect payload and opens
/// the ticket.
pub fn read_connect_request(data: &[u8], key: &[u8; 32]) -> (r: Result<(KerberosTicketInternal, Vec<u8>), FromStreamError>)
    ensures
        match spec_connect_request(data@, key@) {
            Ok((t, req)) => r matches Ok((x, v)) && x.deep_view() == t && v@ == req,
            Err(e) => r == Err::<(KerberosTicketInternal, Vec<u8>), FromStreamError>(e),
        },
{
    let mut s = ReadStream::from_bytes(data);
    let ticket = match <Vec<u8> as FromStream>::from_stream(&mut s) {
        Ok(t) => t,
        Err(e) => return Err(e),
    };
    assert(ticket.deep_view() =~= ticket@);
    let request_data = match <Vec<u8> as FromStream>::from_stream(&mut s) {
        Ok(t) => t,
        Err(e) => return Err(e),
    };
    assert(request_data.deep_view() =~= request_data@);
    match KerberosTicketInternal::open(ticket.as_slice(), key) {
        Ok(ti) => Ok((ti, request_data)),
        Err(e) => Err(e),
    }
}

/// Answers a connect challenge.
#[verifier::spinoff_prover]
pub fn challenge_response(session_key: &[u8; 16], request: &[u8]) -> (r: Result<Vec<u8>, FromStreamError>)
    ensures
        match spec_challenge_response(session_key@, request@) {
            Ok(b) => r matches Ok(v) && v@ == b,
            Err(e) => r == Err::<Vec<u8>, FromStreamError>(e),
        },
{
    let data = crypt_key(session_key.as_slice(), request);
    let mut s = ReadStream::from_reader(data);
    let ghost d = s@;
    let _user_pid = match s.u32() {
        Ok(v) => v,
        Err(e) => return Err(e),
    };
    let _connection_id = match s.u32() {
        Ok(v) => v,
        Err(e) => return Err(e),
    };
    assert(s@ =~= d.skip(8));
    let challenge = match s.u32() {
        Ok(v) => v,
        Err(e) => return Err(e),
    };
    let resp = challenge.wrapping_add(1);
    let inner = resp.to_bytes();
    let out = inner.to_bytes();
    assert(inner.deep_view() =~= inner@);
    proof {
        lemma_u32_list(resp);
    }
    Ok(out)
}

/// A list of bytes encodes as the bytes themselves.
proof fn lemma_byte_items(s: Seq<u8>)
    ensures
        crate::rmc::basic::spec_items_bytes::<u8>(s) == s,
    decreases s.len(),
{
    if s.len() > 0 {
        lemma_byte_items(s.drop_last());
        assert(s.drop_last() + seq![s.last()] =~= s);
    }
}

/// The four bytes of a `u32` as a byte list: the count 4, then the bytes.
proof fn lemma_u32_list(v: u32)
    ensures
        <Vec<u8> as ToStream>::spec_to_stream(u32_bytes(v)) == u32_bytes(4) + u32_bytes(v),
{
    lemma_u32_roundtrip(v);
    lemma_byte_items(u32_bytes(v));
}

// ---------------------------------------------------------------------------
// The server's clients
// ---------------------------------------------------------------------------

/// The clients that completed the handshake, by the signature the server
/// gave them, and the connection IDs handed out, with the signature of the
/// client each went to.
#[derive(Debug)]
pub struct ClientRegistry<T> {
    pub clients: HashMap<u32, ClientInfo<T>>,
    pub connection_id_session_ids: HashMap<u32, u32>,
}

impl<T> ClientRegistry<T> {
    /// No clients.
    pub fn new() -> (r: ClientRegistry<T>)
        ensures
            r.clients@ == Map::<u32, ClientInfo<T>>::empty(),
            r.connection_id_session_ids@ == Map::<u32, u32>::empty(),
    {
        ClientRegistry { clients: HashMap::new(), connection_id_session_ids: HashMap::new() }
    }

    /// The client that connection ID `conn_id` was handed to, if it is
    /// still there.
    pub fn client_by_connection_id(&self, conn_id: ConnectionID) -> (r: Option<&ClientInfo<T>>)
        ensures
            match self.connection_id_session_ids@.get(conn_id.0) {
                Some(sig) => match self.clients@.get(sig) {
                    Some(c) => r matches Some(x) && *x == c,
                    None => r is None,
                },
                None => r is None,
            },
    {
        broadcast use vstd::std_specs::hash::group_hash_axioms;

        match self.connection_id_session_ids.get(&conn_id.0) {
            Some(sig) => self.clients.get(sig),
            None => None,
        }
    }
}

/// A freshly greeted client, seen at `now`.
pub open spec fn fresh_client<T>(ci: ClientInfo<T>, now: u64) -> bool {
    &&& ci.server_sequence_id == 1
    &&& ci.client_sequence_id == 1
    &&& ci.client_signature is None
    &&& ci.client_session == 0
    &&& ci.server_session == 0
    &&& ci.packet_fragments@ == Map::<u8, Vec<u8>>::empty()
    &&& ci.last_seen == now
    &&& ci.connection_id is None
    &&& ci.user_id is None
}

/// The ticket that a connect payload logs in with, and the request data:
/// the payload is not empty, it reads, and the ticket has not expired at
/// `now` (seconds since the Unix epoch).
pub open spec fn accepted_ticket(payload: Seq<u8>, key: Seq<u8>, now: u64) -> Option<(InternalView, Seq<u8>)> {
    if payload.len() == 0 {
        None
    } else {
        match spec_connect_request(payload, key) {
            Ok((t, req)) => if t.1 < now {
                None
            } else {
                Some((t, req))
            },
            Err(_) => None,
        }
    }
}

/// The payload of the answer to a connect: the answer to its challenge
/// when the ticket is accepted and the challenge reads, else nothing.
pub open spec fn connect_reply(payload: Seq<u8>, key: Seq<u8>, now: u64) -> Seq<u8> {
    match accepted_ticket(payload, key, now) {
        Some((t, req)) => match spec_challenge_response(t.2, req) {
            Ok(b) => b,
            Err(_) => Seq::empty(),
        },
        None => Seq::empty(),
    }
}

/// A client once it connected: the client's signature and session, the
/// server's session, and the user and connection IDs when its ticket was
/// accepted.
pub open spec fn connected_client<T>(
    ci: ClientInfo<T>,
    packet: QPacketView,
    server_session: u8,
    ticket: Option<(InternalView, Seq<u8>)>,
    conn_id: u32,
) -> ClientInfo<T> {
    let c = ClientInfo {
        client_signature: packet.conn_signature,
        server_session,
        client_session: packet.session_id,
        ..ci
    };
    match ticket {
        Some((t, _)) => ClientInfo { user_id: Some(t.0), connection_id: Some(ConnectionID(conn_id)), ..c },
        None => c,
    }
}

/// The acknowledgement of a Syn packet from client `ci`: it carries the
/// client's server signature.
pub open spec fn syn_ack_view<T>(p: QPacketView, ci: ClientInfo<T>) -> QPacketView {
    ack_view(QPacketView { conn_signature: Some(ci.server_signature), ..p }, ci.client_signature, ci.server_session, false)
}

/// The next connection ID after `id`; it wraps around.
pub open spec fn next_conn_id(id: u32) -> u32 {
    ((id + 1) % 0x1_0000_0000) as u32
}

/// A connect: the client leaves the new clients and joins the registry
/// as `connected_client` says; an accepted ticket takes the next
/// connection ID; the acknowledgement has connection signature 0 and keeps
/// the reply as its payload when there is one.
pub open spec fn connect_step<T>(
    old: ServerState<T>,
    new: ServerState<T>,
    packet: QPacketView,
    key: Seq<u8>,
    server_session: u8,
    now: u64,
    r: QPacketView,
) -> bool {
    let acc = accepted_ticket(packet.payload, key, now);
    let reply = connect_reply(packet.payload, key, now);
    let ci = connected_client(old.new_clients@[packet.signature], packet, server_session, acc, old.next_conn_id);
    &&& new.new_clients@ == old.new_clients@.remove(packet.signature)
    &&& new.client_registry.clients@ == old.client_registry.clients@.insert(packet.signature, ci)
    &&& if acc is Some {
        &&& new.client_registry.connection_id_session_ids@ == old.client_registry.connection_id_session_ids@.insert(
            old.next_conn_id,
            packet.signature,
        )
        &&& new.next_conn_id == next_conn_id(old.next_conn_id)
    } else {
        &&& new.client_registry.connection_id_session_ids@ == old.client_registry.connection_id_session_ids@
        &&& new.next_conn_id == old.next_conn_id
    }
    &&& r == ack_view(
        QPacketView { conn_signature: Some(0), payload: reply, ..packet },
        packet.conn_signature,
        server_session,
        reply.len() > 0,
    )
}

/// A Syn: a fresh client seen at `now` joins the new clients under its
/// server signature, and the acknowledgement carries that signature;
/// nothing else changes.
pub open spec fn syn_step<T>(old: ServerState<T>, new: ServerState<T>, packet: QPacketView, now: u64, r: QPacketView) -> bool {
    &&& exists|ci: ClientInfo<T>|
        {
            &&& fresh_client(ci, now)
            &&& new.new_clients@ =~= old.new_clients@.insert(ci.server_signature, ci)
            &&& r == #[trigger] syn_ack_view(packet, ci)
        }
    &&& new.client_registry == old.client_registry
    &&& new.next_conn_id == old.next_conn_id
}

/// A data packet at `now`: a connected client is seen, its fragment cache
/// steps as `payload_step` says, and the packet is acknowledged with the
/// payload once complete; for an unknown client nothing happens.
pub open spec fn data_step<T>(
    old: ServerState<T>,
    new: ServerState<T>,
    packet: QPacket,
    now: u64,
    r: Option<(QPacket, Option<Vec<u8>>)>,
) -> bool {
    &&& new.new_clients == old.new_clients
    &&& new.next_conn_id == old.next_conn_id
    &&& new.client_registry.connection_id_session_ids == old.client_registry.connection_id_session_ids
    &&& match old.client_registry.clients@.get(packet.signature) {
        None => r is None && new.client_registry.clients@ =~= old.client_registry.clients@,
        Some(ci) => r matches Some((ack, payload)) && {
            let c = new.client_registry.clients@[packet.signature];
            &&& ack@ == ack_view(packet@, ci.client_signature, ci.server_session, false)
            &&& opt_bytes(payload) == payload_step(ci.packet_fragments@, packet.fragment_id, packet.payload).1
            &&& new.client_registry.clients@ =~= old.client_registry.clients@.insert(packet.signature, c)
            &&& after_data(c, ci, packet@, packet.payload, now)
        },
    }
}

/// A disconnect: the client's record leaves the registry and comes back
/// with the acknowledgement; for an unknown client nothing is answered.
pub open spec fn disconnect_step<T>(
    old: ServerState<T>,
    new: ServerState<T>,
    packet: QPacketView,
    r: Option<(QPacket, ClientInfo<T>)>,
) -> bool {
    &&& new.new_clients == old.new_clients
    &&& new.next_conn_id == old.next_conn_id
    &&& new.client_registry.connection_id_session_ids == old.client_registry.connection_id_session_ids
    &&& new.client_registry.clients@ =~= old.client_registry.clients@.remove(packet.signature)
    &&& match old.client_registry.clients@.get(packet.signature) {
        None => r is None,
        Some(ci) => r matches Some((ack, c)) && c == ci && ack@ == ack_view(
            packet,
            ci.client_signature,
            ci.server_session,
            false,
        ),
    }
}

/// A ping at `now`: a connected client is marked seen and acknowledged;
/// for an unknown client nothing happens.
pub open spec fn ping_step<T>(old: ServerState<T>, new: ServerState<T>, packet: QPacketView, now: u64, r: Option<QPacket>) -> bool {
    &&& new.new_clients == old.new_clients
    &&& new.next_conn_id == old.next_conn_id
    &&& new.client_registry.connection_id_session_ids == old.client_registry.connection_id_session_ids
    &&& match old.client_registry.clients@.get(packet.signature) {
        None => r is None && new.client_registry.clients@ =~= old.client_registry.clients@,
        Some(ci) => r matches Some(ack) && ack@ == ack_view(packet, ci.client_signature, ci.server_session, false)
            && new.client_registry.clients@ =~= old.client_registry.clients@.insert(
            packet.signature,
            ClientInfo { last_seen: now, ..ci },
        ),
    }
}

/// What the server keeps between packets.
#[derive(Debug)]
pub struct ServerState<T> {
    /// Clients that sent Syn and not yet Connect, by the server's signature.
    pub new_clients: HashMap<u32, ClientInfo<T>>,
    /// Connected clients.
    pub client_registry: ClientRegistry<T>,
    /// The connection ID that the next login gets.
    pub next_conn_id: u32,
}

impl<T> ServerState<T> {
    /// No clients; connection IDs start at `FIRST_CONNECTION_ID`.
    pub fn new() -> (r: ServerState<T>)
        ensures
            r.new_clients@ == Map::<u32, ClientInfo<T>>::empty(),
            r.client_registry.clients@ == Map::<u32, ClientInfo<T>>::empty(),
            r.client_registry.connection_id_session_ids@ == Map::<u32, u32>::empty(),
            r.next_conn_id == FIRST_CONNECTION_ID,
    {
        ServerState { new_clients: HashMap::new(), client_registry: ClientRegistry::new(), next_conn_id: FIRST_CONNECTION_ID }
    }

    /// Greets a client that sent Syn: the client is kept among the new
    /// ones under its server signature, and the acknowledgement carries
    /// that signature.
    pub fn accept_syn(&mut self, packet: &QPacket, ci: ClientInfo<T>) -> (r: QPacket)
        ensures
            final(self).new_clients@ == old(self).new_clients@.insert(ci.server_signature, ci),
            final(self).client_registry == old(self).client_registry,
            final(self).next_conn_id == old(self).next_conn_id,
            r@ == syn_ack_view(packet@, ci),
    {
        broadcast use vstd::std_specs::hash::group_hash_axioms;

        let sig = ci.server_signature;
        let mut p = copy_packet(packet);
        p.conn_signature = Some(sig);
        let ack = ack_packet(&p, &ci, false);
        self.new_clients.insert(sig, ci);
        ack
    }

    /// Greets a client that sent Syn, under a random server signature.
    pub fn handle_syn(&mut self, packet: &QPacket, now: u64) -> (r: QPacket)
        where
            T: Default,
        ensures
            syn_step(*old(self), *final(self), packet@, now, r@),
    {
        let ci = ClientInfo::new(T::default(), now);
        self.accept_syn(packet, ci)
    }

    /// Connects a client that sent Syn. A payload, if there is one, holds
    /// a ticket and a challenge: when the ticket is accepted at `now`
    /// (seconds since the Unix epoch), the client gets the ticket's user
    /// and the next connection ID, and the acknowledgement answers the
    /// challenge.
    pub fn accept_connect(&mut self, packet: &QPacket, key: &[u8; 32], server_session: u8, now: u64) -> (r: QPacket)
        requires
            packet.conn_signature is Some,
            old(self).new_clients@.contains_key(packet.signature),
        ensures
            connect_step(*old(self), *final(self), packet@, key@, server_session, now, r@),
    {
        broadcast use vstd::std_specs::hash::group_hash_axioms;

        let ghost acc = accepted_ticket(packet@.payload, key@, now);
        let ghost old_id = self.next_conn_id;
        let mut ci = match self.new_clients.remove(&packet.signature) {
            Some(c) => c,
            None => {
                return copy_packet(packet);
            },
        };
        ci.client_signature = packet.conn_signature;
        ci.server_session = server_session;
        ci.client_session = packet.session_id;
        let mut reply: Vec<u8> = Vec::new();
        if packet.payload.len() > 0 {
            match read_connect_request(packet.payload.as_slice(), key) {
                Ok((ti, request_data)) => {
                    if ti.valid_until >= now {
                        let id = self.next_conn_id;
                        self.next_conn_id = self.next_conn_id.wrapping_add(1);
                        ci.user_id = Some(ti.principle_id);
                        ci.connection_id = Some(ConnectionID(id));
                        self.client_registry.connection_id_session_ids.insert(id, packet.signature);
                        match challenge_response(&ti.session_key, request_data.as_slice()) {
                            Ok(b) => {
                                reply = b;
                            },
                            Err(_) => {},
                        }
                    }
                },
                Err(_) => {},
            }
        }
        assert(reply@ == connect_reply(packet@.payload, key@, now));
        let mut p = copy_packet(packet);
        p.conn_signature = Some(0);
        p.payload = reply;
        let keep = p.payload.len() > 0;
        let ack = ack_packet(&p, &ci, keep);
        self.client_registry.clients.insert(packet.signature, ci);
        ack
    }
}

/// A client record after a data packet: the same session, seen at `now`,
/// with the fragment cache as `payload_step` leaves it.
pub open spec fn after_data<T>(new: ClientInfo<T>, old: ClientInfo<T>, packet: QPacketView, payload: Vec<u8>, now: u64) -> bool {
    &&& same_session(new, old)
    &&& new.last_seen == now
    &&& new.packet_fragments@ == payload_step(old.packet_fragments@, packet.fragment_id, payload).0
}

/// What the server does with a packet.
pub enum ServerEvent<T> {
    /// Nothing is answered.
    Ignored,
    /// This packet is answered.
    Reply(QPacket),
    /// A data packet is acknowledged; its payload, once complete, goes to
    /// the stream handler of its destination port.
    Data { ack: QPacket, payload: Option<Vec<u8>> },
    /// A client left; its record goes to the disconnect handler.
    Disconnected { ack: QPacket, client: ClientInfo<T> },
    /// A user packet, for the user handler.
    User(QPacket),
    /// A packet that this server does not handle: a Connect without a
    /// connection signature or from a client that never sent Syn, or a
    /// Route or Raw packet.
    Unhandled(QPacket),
}

impl<T> ServerState<T> {
    /// Takes in a data packet from a connected client seen at `now`: the
    /// acknowledgement, and the payload once it is complete. `None` for an
    /// unknown client.
    pub fn handle_data(&mut self, packet: QPacket, now: u64) -> (r: Option<(QPacket, Option<Vec<u8>>)>)
        ensures
            data_step(*old(self), *final(self), packet, now, r),
    {
        broadcast use vstd::std_specs::hash::group_hash_axioms;

        let sig = packet.signature;
        let mut ci = match self.client_registry.clients.remove(&sig) {
            Some(c) => c,
            None => return None,
        };
        ci.seen(now);
        let ack = ack_packet(&packet, &ci, false);
        let fid = packet.fragment_id;
        let payload = ci.take_payload(fid, packet.payload);
        self.client_registry.clients.insert(sig, ci);
        Some((ack, payload))
    }

    /// The packets that answer `req` from the connected client `signature`
    /// with `payload`, stamped with the client's next sequence numbers.
    pub fn respond(&mut self, signature: u32, req: &QPacket, payload: &[u8]) -> (r: Vec<QPacket>)
        requires
            old(self).client_registry.clients@.contains_key(signature),
        ensures
            final(self).new_clients == old(self).new_clients,
            final(self).next_conn_id == old(self).next_conn_id,
            final(self).client_registry.connection_id_session_ids == old(self).client_registry.connection_id_session_ids,
            ({
                let ci = old(self).client_registry.clients@[signature];
                &&& r@.len() == chunk_count(payload@.len())
                &&& forall|i: int|
                    0 <= i < r@.len() ==> (#[trigger] r@[i])@ == response_view(
                        fragment_view(req@, chunk_of(payload@, i), fragment_id_of(r@.len(), i)),
                        seq_add(ci.server_sequence_id, i),
                        ci.client_signature,
                        ci.server_session,
                    )
                &&& final(self).client_registry.clients@ == old(self).client_registry.clients@.insert(
                    signature,
                    ClientInfo { server_sequence_id: seq_add(ci.server_sequence_id, r@.len() as int), ..ci },
                )
            }),
    {
        broadcast use vstd::std_specs::hash::group_hash_axioms;

        let mut ci = match self.client_registry.clients.remove(&signature) {
            Some(c) => c,
            None => return Vec::new(),
        };
        let r = ci.response_packets(req, payload);
        self.client_registry.clients.insert(signature, ci);
        r
    }

    /// A client leaves: its record is dropped and returned with the
    /// acknowledgement. `None` for an unknown client.
    pub fn handle_disconnect(&mut self, packet: &QPacket) -> (r: Option<(QPacket, ClientInfo<T>)>)
        ensures
            disconnect_step(*old(self), *final(self), packet@, r),
    {
        broadcast use vstd::std_specs::hash::group_hash_axioms;

        match self.client_registry.clients.remove(&packet.signature) {
            Some(ci) => {
                let ack = ack_packet(packet, &ci, false);
                Some((ack, ci))
            },
            None => None,
        }
    }

    /// A client pings at `now`: it is marked seen and acknowledged. `None`
    /// for an unknown client.
    pub fn handle_ping(&mut self, packet: &QPacket, now: u64) -> (r: Option<QPacket>)
        ensures
            ping_step(*old(self), *final(self), packet@, now, r),
    {
        broadcast use vstd::std_specs::hash::group_hash_axioms;

        match self.client_registry.clients.remove(&packet.signature) {
            Some(ci) => {
                let mut ci = ci;
                ci.seen(now);
                let ack = ack_packet(packet, &ci, false);
                self.client_registry.clients.insert(packet.signature, ci);
                Some(ack)
            },
            None => None,
        }
    }

    /// Decides what to do with a packet that arrived at `now`
    /// (milliseconds since the Unix epoch): acknowledgements are ignored,
    /// and each packet type goes to its handler. A connect is accepted
    /// under a random server session, its ticket checked at `now` in whole
    /// seconds.
    pub fn handle_packet(&mut self, packet: QPacket, key: &[u8; 32], now: u64) -> (r: ServerEvent<T>)
        where
            T: Default,
        ensures
            packet.flags.spec_contains(PacketFlag::Ack) ==> r is Ignored && *final(self) == *old(self),
            !packet.flags.spec_contains(PacketFlag::Ack) ==> match packet.packet_type {
                PacketType::Syn => r matches ServerEvent::Reply(p) && syn_step(*old(self), *final(self), packet@, now, p@),
                PacketType::Connect => if packet.conn_signature is Some && old(self).new_clients@.contains_key(
                    packet.signature,
                ) {
                    r matches ServerEvent::Reply(p) && exists|session: u8|
                        #[trigger] connect_step(*old(self), *final(self), packet@, key@, session, now / 1000, p@)
                } else {
                    r == ServerEvent::<T>::Unhandled(packet) && *final(self) == *old(self)
                },
                PacketType::Data => match r {
                    ServerEvent::Data { ack, payload } => data_step(*old(self), *final(self), packet, now, Some((ack, payload))),
                    ServerEvent::Ignored => data_step(*old(self), *final(self), packet, now, None),
                    _ => false,
                },
                PacketType::Disconnect => match r {
                    ServerEvent::Disconnected { ack, client } => disconnect_step(*old(self), *final(self), packet@, Some((ack, client))),
                    ServerEvent::Ignored => disconnect_step(*old(self), *final(self), packet@, None),
                    _ => false,
                },
                PacketType::Ping => match r {
                    ServerEvent::Reply(ack) => ping_step(*old(self), *final(self), packet@, now, Some(ack)),
                    ServerEvent::Ignored => ping_step(*old(self), *final(self), packet@, now, None),
                    _ => false,
                },
                PacketType::User => r == ServerEvent::<T>::User(packet) && *final(self) == *old(self),
                _ => r == ServerEvent::<T>::Unhandled(packet) && *final(self) == *old(self),
            },
    {
        broadcast use vstd::std_specs::hash::group_hash_axioms;

        if packet.flags.contains(PacketFlag::Ack) {
            return ServerEvent::Ignored;
        }
        match packet.packet_type {
            PacketType::Syn => ServerEvent::Reply(self.handle_syn(&packet, now)),
            PacketType::Connect => {
                if packet.conn_signature.is_some() && self.new_clients.contains_key(&packet.signature) {
                    let session = random_u8();
                    let p = self.accept_connect(&packet, key, session, now / 1000);
                    ServerEvent::Reply(p)
                } else {
                    ServerEvent::Unhandled(packet)
                }
            },
            PacketType::Data => match self.handle_data(packet, now) {
                Some((ack, payload)) => ServerEvent::Data { ack, payload },
                None => ServerEvent::Ignored,
            },
            PacketType::Disconnect => match self.handle_disconnect(&packet) {
                Some((ack, client)) => ServerEvent::Disconnected { ack, client },
                None => ServerEvent::Ignored,
            },
            PacketType::Ping => match self.handle_ping(&packet, now) {
                Some(ack) => ServerEvent::Reply(ack),
                None => ServerEvent::Ignored,
            },
            PacketType::User => ServerEvent::User(packet),
            _ => ServerEvent::Unhandled(packet),
        }
    }
}

/// The signatures of the clients in `m`, each once.
fn client_keys<T>(m: &HashMap<u32, ClientInfo<T>>) -> (r: Vec<u32>)
    ensures
        r@.to_set() == m@.dom(),
        r@.no_duplicates(),
{
    broadcast use vstd::std_specs::hash::group_hash_axioms;

    let mut keys: Vec<u32> = Vec::new();
    for k in it: m.keys()
        invariant
            keys@ == it.seq().take(it.index()).unref(),
    {
        let ghost before = keys@;
        keys.push(*k);
        assert(it.seq().take(it.index() + 1).unref() =~= before.push(*k));
    }
    assert(keys@ =~= vstd::std_specs::iter::IteratorSpec::remaining(&vstd::std_specs::hash::spec_keys_iter(m)).unref());
    keys
}

/// Whether a client has been silent for longer than `SESSION_TIMEOUT_MS`
/// at `now` (milliseconds).
pub open spec fn expired<T>(ci: ClientInfo<T>, now: u64) -> bool {
    now - ci.last_seen > SESSION_TIMEOUT_MS
}

/// The expired clients' signatures.
pub open spec fn expired_keys<T>(m: Map<u32, ClientInfo<T>>, now: u64) -> Set<u32> {
    m.dom().filter(|k: u32| expired(m[k], now))
}

/// Whether `c` is the client under one of `keys`.
pub open spec fn held_by_one_of<T>(m: Map<u32, ClientInfo<T>>, keys: Set<u32>, c: ClientInfo<T>) -> bool {
    exists|k: u32| keys.contains(k) && m[k] == c
}

/// The connection IDs of the clients under `keys`.
pub open spec fn connection_ids_of<T>(m: Map<u32, ClientInfo<T>>, keys: Set<u32>) -> Set<u32> {
    Set::new(|c: u32| exists|k: u32| keys.contains(k) && #[trigger] m[k].connection_id == Some(ConnectionID(c)))
}

impl<T> ServerState<T> {
    /// Drops the clients that have expired at `now` (milliseconds) and
    /// returns them. When `forget_connections`, the connection IDs that
    /// they held are forgotten too.
    pub fn clear_clients(&mut self, now: u64, forget_connections: bool) -> (r: Vec<ClientInfo<T>>)
        ensures
            ({
                let m = old(self).client_registry.clients@;
                let gone = expired_keys(m, now);
                &&& final(self).client_registry.clients@ == m.remove_keys(gone)
                &&& forall|i: int| 0 <= i < r@.len() ==> #[trigger] held_by_one_of(m, gone, r@[i])
                &&& forall|k: u32| gone.contains(k) ==> exists|i: int| 0 <= i < r@.len() && #[trigger] r@[i] == m[k]
                &&& r@.len() == gone.len()
                &&& if forget_connections {
                    final(self).client_registry.connection_id_session_ids@
                        == old(self).client_registry.connection_id_session_ids@.remove_keys(
                        connection_ids_of(m, gone),
                    )
                } else {
                    final(self).client_registry.connection_id_session_ids@
                        == old(self).client_registry.connection_id_session_ids@
                }
            }),
            final(self).new_clients == old(self).new_clients,
            final(self).next_conn_id == old(self).next_conn_id,
    {
        broadcast use vstd::std_specs::hash::group_hash_axioms;

        let ghost m = self.client_registry.clients@;
        let ghost c0 = self.client_registry.connection_id_session_ids@;
        let keys = client_keys(&self.client_registry.clients);
        let ghost ks = keys@;
        let mut out: Vec<ClientInfo<T>> = Vec::new();
        let ghost mut gone: Seq<u32> = Seq::empty();
        let mut i: usize = 0;
        while i < keys.len()
            invariant
                i <= ks.len(),
                keys@ == ks,
                ks.to_set() == m.dom(),
                ks.no_duplicates(),
                gone.no_duplicates(),
                gone.to_set() == ks.take(i as int).to_set().filter(|k: u32| expired(m[k], now)),
                out@.len() == gone.len(),
                forall|j: int| 0 <= j < gone.len() ==> #[trigger] out@[j] == m[gone[j]],
                self.client_registry.clients@ == m.remove_keys(gone.to_set()),
                forget_connections ==> self.client_registry.connection_id_session_ids@ == c0.remove_keys(
                    connection_ids_of(m, gone.to_set()),
                ),
                !forget_connections ==> self.client_registry.connection_id_session_ids@ == c0,
                self.new_clients == old(self).new_clients,
                self.next_conn_id == old(self).next_conn_id,
                m == old(self).client_registry.clients@,
                c0 == old(self).client_registry.connection_id_session_ids@,
            decreases ks.len() - i,
        {
            let k = keys[i];
            let ghost before = gone;
            proof {
                assert(ks.to_set().contains(k));
                assert(!gone.to_set().contains(k)) by {
                    if gone.to_set().contains(k) {
                        assert(ks.take(i as int).to_set().contains(k));
                        let j = choose|j: int| 0 <= j < i && ks.take(i as int)[j] == k;
                        assert(ks[j] == ks[i as int]);
                    }
                }
            }
            assert(self.client_registry.clients@.contains_key(k));
            assert(self.client_registry.clients@[k] == m[k]);
            assert(ks.take(i + 1) =~= ks.take(i as int).push(k));
            proof {
                ks.take(i as int).lemma_push_to_set_commute(k);
                gone.lemma_push_to_set_commute(k);
            }
            assert(ks.take(i + 1).to_set() =~= ks.take(i as int).to_set().insert(k));
            let is_expired = match self.client_registry.clients.get(&k) {
                Some(ci) => now.saturating_sub(ci.last_seen) > SESSION_TIMEOUT_MS,
                None => false,
            };
            assert(is_expired == expired(m[k], now));
            if is_expired {
                let ghost cl = self.client_registry.clients@;
                let ghost cc = self.client_registry.connection_id_session_ids@;
                match self.client_registry.clients.remove(&k) {
                    Some(ci) => {
                        assert(ci == m[k]);
                        proof {
                            let g1 = gone.push(k).to_set();
                            assert(g1 =~= gone.to_set().insert(k));
                            assert(m.remove_keys(g1) =~= cl.remove(k));
                            assert(g1 =~= ks.take(i + 1).to_set().filter(|x: u32| expired(m[x], now)));
                        }
                        if forget_connections {
                            match ci.connection_id {
                                Some(c) => {
                                    self.client_registry.connection_id_session_ids.remove(&c.0);
                                    proof {
                                        let g0 = gone.to_set();
                                        let g1 = gone.push(k).to_set();
                                        assert(connection_ids_of(m, g1) =~= connection_ids_of(m, g0).insert(c.0));
                                        assert(c0.remove_keys(connection_ids_of(m, g1)) =~= cc.remove(c.0));
                                    }
                                },
                                None => {
                                    proof {
                                        let g0 = gone.to_set();
                                        let g1 = gone.push(k).to_set();
                                        assert(connection_ids_of(m, g1) =~= connection_ids_of(m, g0));
                                    }
                                },
                            }
                        }
                        out.push(ci);
                        proof {
                            gone = gone.push(k);
                        }
                    },
                    None => {},
                }
            } else {
                assert(ks.take(i + 1).to_set().filter(|x: u32| expired(m[x], now)) =~= ks.take(
                    i as int,
                ).to_set().filter(|x: u32| expired(m[x], now)));
            }
            i = i + 1;
        }
        assert(ks.take(ks.len() as int) =~= ks);
        proof {
            let gs = expired_keys(m, now);
            assert(gone.to_set() =~= gs);
            gone.unique_seq_to_set();
            assert forall|j: int| 0 <= j < out@.len() implies #[trigger] held_by_one_of(m, gs, out@[j]) by {
                assert(gone.to_set().contains(gone[j]));
                assert(gs.contains(gone[j]) && out@[j] == m[gone[j]]);
            }
            assert forall|k: u32| gs.contains(k) implies exists|j: int| 0 <= j < out@.len() && #[trigger] out@[j] == m[k] by {
                assert(gone.to_set().contains(k));
                let j = choose|j: int| 0 <= j < gone.len() && gone[j] == k;
                assert(out@[j] == m[k]);
            }
        }
        out
    }
}

// ---------------------------------------------------------------------------
// Laws of the session state
// ---------------------------------------------------------------------------

/// The fragment cache after fragments 1 to `n` of `ps` arrived, one after
/// the other, into an empty cache.
pub open spec fn cached_in_order(ps: Seq<Vec<u8>>, n: nat) -> Map<u8, Vec<u8>>
    decreases n,
{
    if n == 0 {
        Map::empty()
    } else {
        payload_step(cached_in_order(ps, (n - 1) as nat), Some(n as u8), ps[n - 1]).0
    }
}

/// The payloads of `ps`, joined.
pub open spec fn joined_vecs(ps: Seq<Vec<u8>>) -> Seq<u8>
    decreases ps.len(),
{
    if ps.len() == 0 {
        Seq::empty()
    } else {
        joined_vecs(ps.drop_last()) + ps.last()@
    }
}

proof fn lemma_cached_in_order(ps: Seq<Vec<u8>>, n: nat)
    requires
        n <= ps.len(),
        ps.len() < 256,
    ensures
        cached_in_order(ps, n).dom() == Set::new(|k: u8| 1 <= k <= n),
        forall|k: u8| 1 <= k <= n ==> #[trigger] cached_in_order(ps, n)[k] == ps[k - 1],
        joined_fragments(cached_in_order(ps, n), n) == joined_vecs(ps.take(n as int)),
    decreases n,
{
    if n > 0 {
        let m0 = cached_in_order(ps, (n - 1) as nat);
        lemma_cached_in_order(ps, (n - 1) as nat);
        let m1 = cached_in_order(ps, n);
        assert(m1 == m0.insert(n as u8, ps[n - 1]));
        assert(m1.dom() =~= Set::new(|k: u8| 1 <= k <= n));
        lemma_joined_insert(m0, (n - 1) as nat, n as u8, ps[n - 1]);
        assert(ps.take(n as int).drop_last() =~= ps.take(n - 1));
    } else {
        assert(cached_in_order(ps, 0).dom() =~= Set::new(|k: u8| 1 <= k <= 0));
    }
}

proof fn lemma_joined_insert(m: Map<u8, Vec<u8>>, n: nat, j: u8, v: Vec<u8>)
    requires
        n < j,
    ensures
        joined_fragments(m.insert(j, v), n) == joined_fragments(m, n),
    decreases n,
{
    if n > 0 {
        lemma_joined_insert(m, (n - 1) as nat, j, v);
        assert((n as u8) != j);
        assert(m.insert(j, v)[n as u8] == m[n as u8]);
    }
}

/// Fragments 1 to `n` that arrive one after the other, followed by
/// fragment 0, give back their payloads joined in order, then the last
/// one's, and leave the cache empty.
pub proof fn lemma_fragments_reassemble(ps: Seq<Vec<u8>>, last: Vec<u8>)
    requires
        ps.len() < 256,
    ensures
        payload_step(cached_in_order(ps, ps.len()), Some(0u8), last) == (
            Map::<u8, Vec<u8>>::empty(),
            Some(joined_vecs(ps) + last@),
        ),
{
    let n = ps.len();
    lemma_cached_in_order(ps, n);
    let m = cached_in_order(ps, n);
    assert(m.dom().len() == n) by {
        lemma_range_len(n);
    }
    assert(fragment_count(m) == n);
    assert(fragments_present(m, n));
    assert(ps.take(n as int) =~= ps);
}

/// A client that connects with an accepted ticket can be found by the
/// connection ID it was given, and carries the ticket's user.
pub proof fn lemma_connect_registers<T>(
    old: ServerState<T>,
    new: ServerState<T>,
    packet: QPacketView,
    key: Seq<u8>,
    server_session: u8,
    now: u64,
    r: QPacketView,
)
    requires
        connect_step(old, new, packet, key, server_session, now, r),
        accepted_ticket(packet.payload, key, now) is Some,
    ensures
        new.client_registry.connection_id_session_ids@[old.next_conn_id] == packet.signature,
        new.client_registry.clients@.contains_key(packet.signature),
        new.client_registry.clients@[packet.signature].connection_id == Some(ConnectionID(old.next_conn_id)),
        new.client_registry.clients@[packet.signature].user_id == Some(
            accepted_ticket(packet.payload, key, now)->Some_0.0.0,
        ),
{
}

proof fn lemma_range_len(n: nat)
    requires
        n < 256,
    ensures
        Set::new(|k: u8| 1 <= k <= n).len() == n,
        Set::new(|k: u8| 1 <= k <= n).finite(),
    decreases n,
{
    let s = Set::new(|k: u8| 1 <= k <= n);
    if n == 0 {
        assert(s =~= Set::empty());
    } else {
        lemma_range_len((n - 1) as nat);
        let s0 = Set::new(|k: u8| 1 <= k <= n - 1);
        assert(s =~= s0.insert(n as u8));
    }
}

} // verus!
