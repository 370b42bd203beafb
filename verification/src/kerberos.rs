//! Kerberos tickets: the internal ticket that the service seals with its
//! secret-box key, and the outer ticket that is obfuscated for one peer.

use crate::config::bytes_vec;
use crate::prudp::packet::{crypt_key, spec_crypt};
use crate::rmc::basic::{
    eof, le_u32, le_u64, lemma_u32_roundtrip, lemma_u64_roundtrip, u32_bytes, u64_bytes, FromStream,
    FromStreamError, IoErrorKind, ReadStream, ToStream, WriteStream,
};
use hmac::Mac;
use md5::Digest;
use vstd::prelude::*;

verus! {

/// The size of a session key in bytes.
pub const SESSION_KEY_SIZE: usize = 16;

/// The size of a secret-box nonce in bytes.
pub const NONCE_SIZE: usize = 24;

/// The number of bytes by which a sealed box is longer than its message.
pub const MAC_SIZE: usize = 16;

/// The size of an MD5 digest in bytes.
pub const DIGEST_SIZE: usize = 16;

// ---------------------------------------------------------------------------
// Outside primitives
// ---------------------------------------------------------------------------

/// The ciphertext that XSalsa20-Poly1305 makes of message `m` with nonce
/// `n` and key `k`.
pub uninterp spec fn secretbox_seal(m: Seq<u8>, n: Seq<u8>, k: Seq<u8>) -> Seq<u8>;

/// The message that XSalsa20-Poly1305 recovers from ciphertext `c` with
/// nonce `n` and key `k`, or `None` when the ciphertext does not verify.
pub uninterp spec fn secretbox_open(c: Seq<u8>, n: Seq<u8>, k: Seq<u8>) -> Option<Seq<u8>>;

/// The MD5 digest of `data`.
pub uninterp spec fn md5(data: Seq<u8>) -> Seq<u8>;

/// The HMAC-MD5 tag of `data` under `key`.
pub uninterp spec fn hmac_md5(key: Seq<u8>, data: Seq<u8>) -> Seq<u8>;

/// The bytes of an optional vector.
pub open spec fn opt_bytes(v: Option<Vec<u8>>) -> Option<Seq<u8>> {
    match v {
        Some(x) => Some(x@),
        None => None,
    }
}

/// `sodiumoxide::crypto::secretbox::gen_nonce`: the bytes of a random
/// nonce. Nothing is stated of them.
#[verifier::external_body]
fn gen_nonce() -> (r: [u8; 24]) {
    sodiumoxide::crypto::secretbox::gen_nonce().0
}

/// `sodiumoxide::crypto::secretbox::seal`: the ciphertext is the named
/// `secretbox_seal` of message, nonce and key, and is `MAC_SIZE` bytes
/// longer than the message: the authentication tag comes first, then the
/// encrypted message.
#[verifier::external_body]
fn seal_box(m: &[u8], n: &[u8; 24], k: &[u8; 32]) -> (r: Vec<u8>)
    ensures
        r@ == secretbox_seal(m@, n@, k@),
        r@.len() == m@.len() + 16,
{
    sodiumoxide::crypto::secretbox::seal(
        m,
        &sodiumoxide::crypto::secretbox::Nonce(*n),
        &sodiumoxide::crypto::secretbox::Key(*k),
    )
}

/// `sodiumoxide::crypto::secretbox::open`: the named `secretbox_open` of
/// ciphertext, nonce and key. A ciphertext shorter than the tag does not
/// open; an opened message is the tag's length shorter than the
/// ciphertext; a ciphertext sealed from `m` with the same nonce and key
/// opens to `m`, which is what authenticated encryption is for.
#[verifier::external_body]
fn open_box(c: &[u8], n: &[u8; 24], k: &[u8; 32]) -> (r: Option<Vec<u8>>)
    ensures
        opt_bytes(r) == secretbox_open(c@, n@, k@),
        c@.len() < 16 ==> r is None,
        r is Some ==> r->0@.len() + 16 == c@.len(),
        forall|m: Seq<u8>| #[trigger] secretbox_seal(m, n@, k@) == c@ ==> opt_bytes(r) == Some(m),
{
    sodiumoxide::crypto::secretbox::open(
        c,
        &sodiumoxide::crypto::secretbox::Nonce(*n),
        &sodiumoxide::crypto::secretbox::Key(*k),
    ).ok()
}

/// `md5::Md5::digest` (crate `md-5`): the named `md5` of `data`, 16 bytes.
#[verifier::external_body]
pub(crate) fn md5_digest(data: &[u8]) -> (r: Vec<u8>)
    ensures
        r@ == md5(data@),
        r@.len() == 16,
{
    md5::Md5::digest(data).to_vec()
}

/// `hmac::Hmac<md5::Md5>`, keyed with `key` (which HMAC accepts at any
/// length), fed `data` and finalised: the named `hmac_md5`, 16 bytes.
#[verifier::external_body]
pub(crate) fn hmac_md5_tag(key: &[u8], data: &[u8]) -> (r: Vec<u8>)
    ensures
        r@ == hmac_md5(key@, data@),
        r@.len() == 16,
{
    let mut mac = <hmac::Hmac<md5::Md5> as Mac>::new_from_slice(key).unwrap();
    mac.update(data);
    mac.finalize().into_bytes().to_vec()
}

// ---------------------------------------------------------------------------
// The internal ticket
// ---------------------------------------------------------------------------

/// Principal, expiry time and session key.
pub type InternalView = (u32, u64, Seq<u8>);

/// The internal representation of a Kerberos ticket.
#[derive(Debug, Clone, Copy)]
pub struct KerberosTicketInternal {
    /// The principal ID.
    pub principle_id: u32,
    /// The expiration time of the ticket, in seconds since the Unix epoch.
    pub valid_until: u64,
    /// The session key.
    pub session_key: [u8; 16],
}

impl DeepView for KerberosTicketInternal {
    type V = InternalView;

    open spec fn deep_view(&self) -> InternalView {
        (self.principle_id, self.valid_until, self.session_key@)
    }
}

/// The encoding of an internal ticket: the principal and the expiry little
/// endian, then the session key.
pub open spec fn internal_bytes(t: InternalView) -> Seq<u8> {
    u32_bytes(t.0) + u64_bytes(t.1) + t.2
}

/// The internal ticket at the start of `data`: it takes 28 bytes.
pub open spec fn spec_internal(data: Seq<u8>) -> Result<(InternalView, nat), FromStreamError> {
    if data.len() >= 28 {
        Ok(((le_u32(data), le_u64(data.skip(4)), data.subrange(12, 28)), 28))
    } else {
        Err(eof())
    }
}

/// What opening `data` with `key` gives: a 24-byte nonce, then the box;
/// `UnexpectedEof` when the nonce is incomplete, `InvalidData` when the box
/// does not open, and otherwise the ticket read from the message.
pub open spec fn spec_open_internal(data: Seq<u8>, key: Seq<u8>) -> Result<InternalView, FromStreamError> {
    if data.len() < 24 {
        Err(eof())
    } else {
        match secretbox_open(data.skip(24), data.take(24), key) {
            None => Err(FromStreamError::IO(IoErrorKind::InvalidData)),
            Some(m) => match spec_internal(m) {
                Ok((t, _)) => Ok(t),
                Err(e) => Err(e),
            },
        }
    }
}

/// A sealed ticket: the nonce, then the box of the ticket's encoding.
pub open spec fn spec_sealed(t: InternalView, nonce: Seq<u8>, key: Seq<u8>) -> Seq<u8> {
    nonce + secretbox_seal(internal_bytes(t), nonce, key)
}

/// Reading back the encoding of an internal ticket gives the ticket.
pub proof fn lemma_internal_roundtrip(t: InternalView, rest: Seq<u8>)
    requires
        t.2.len() == 16,
    ensures
        spec_internal(internal_bytes(t) + rest) == Ok::<(InternalView, nat), FromStreamError>((t, 28)),
{
    let b = internal_bytes(t) + rest;
    lemma_u32_roundtrip(t.0);
    lemma_u64_roundtrip(t.1);
    assert(b.subrange(0, 4) =~= u32_bytes(t.0));
    assert(b.skip(4).subrange(0, 8) =~= u64_bytes(t.1));
    assert(b.subrange(12, 28) =~= t.2);
    assert(le_u32(b) == le_u32(u32_bytes(t.0)));
    assert(le_u64(b.skip(4)) == le_u64(u64_bytes(t.1))) by {
        assert(b.skip(4).skip(4).subrange(0, 4) =~= u64_bytes(t.1).skip(4).subrange(0, 4));
        assert(b.skip(4).subrange(0, 4) =~= u64_bytes(t.1).subrange(0, 4));
    }
}

impl FromStream for KerberosTicketInternal {
    open spec fn spec_from_stream(data: Seq<u8>) -> Result<(InternalView, nat), FromStreamError> {
        spec_internal(data)
    }

    fn from_stream(stream: &mut ReadStream) -> (r: Result<KerberosTicketInternal, FromStreamError>) {
        let ghost d = stream@;
        let principle_id = match stream.u32() {
            Ok(v) => v,
            Err(e) => return Err(e),
        };
        let valid_until = match stream.u64() {
            Ok(v) => v,
            Err(e) => return Err(e),
        };
        assert(stream@ == d.skip(12));
        let session_key = match <[u8; 16] as FromStream>::from_stream(stream) {
            Ok(v) => v,
            Err(e) => return Err(e),
        };
        assert(d.skip(12).subrange(0, 16) =~= d.subrange(12, 28));
        assert(session_key.deep_view() =~= session_key@);
        assert(stream@ =~= d.skip(28));
        Ok(KerberosTicketInternal { principle_id, valid_until, session_key })
    }
}

impl ToStream for KerberosTicketInternal {
    open spec fn spec_to_stream(v: InternalView) -> Seq<u8> {
        internal_bytes(v)
    }

    fn to_stream(&self, stream: &mut WriteStream) -> (n: usize) {
        stream.u32(self.principle_id);
        stream.u64(self.valid_until);
        stream.write_n_bytes(self.session_key.as_slice());
        assert(stream@ =~= old(stream)@ + internal_bytes(self.deep_view()));
        28
    }
}

impl KerberosTicketInternal {
    /// Seals the ticket with the given nonce: the nonce, then the secret box
    /// of the ticket's encoding.
    pub fn seal_with_nonce(&self, nonce: &[u8; 24], key: &[u8; 32]) -> (r: Vec<u8>)
        ensures
            r@ == spec_sealed(self.deep_view(), nonce@, key@),
            r@.len() == 24 + 28 + 16,
    {
        let bytes = self.to_bytes();
        let c = seal_box(bytes.as_slice(), nonce, key);
        let mut res = bytes_vec(nonce.as_slice());
        let mut i: usize = 0;
        while i < c.len()
            invariant
                i <= c@.len(),
                res@ =~= nonce@ + c@.subrange(0, i as int),
            decreases c@.len() - i,
        {
            res.push(c[i]);
            i = i + 1;
        }
        assert(c@.subrange(0, c@.len() as int) =~= c@);
        res
    }

    /// Seals the ticket under a fresh random nonce.
    pub fn seal(&self, key: &[u8; 32]) -> (r: Vec<u8>)
        ensures
            r@.len() == 24 + 28 + 16,
            r@ == spec_sealed(self.deep_view(), r@.take(24), key@),
    {
        let nonce = gen_nonce();
        let r = self.seal_with_nonce(&nonce, key);
        assert(r@.take(24) =~= nonce@);
        r
    }

    /// Opens a sealed ticket. A ticket sealed with `key` opens with `key` to
    /// the same ticket.
    pub fn open(data: &[u8], key: &[u8; 32]) -> (r: Result<KerberosTicketInternal, FromStreamError>)
        ensures
            match spec_open_internal(data@, key@) {
                Ok(t) => r matches Ok(x) && x.deep_view() == t,
                Err(e) => r == Err::<KerberosTicketInternal, FromStreamError>(e),
            },
            forall|t: InternalView, nonce: Seq<u8>|
                t.2.len() == 16 && nonce.len() == 24 && #[trigger] spec_sealed(t, nonce, key@) == data@ ==> (r matches Ok(
                    x,
                ) && x.deep_view() == t),
    {
        if data.len() < 24 {
            return Err(FromStreamError::IO(IoErrorKind::UnexpectedEof));
        }
        let mut nonce = [0u8; 24];
        let mut i: usize = 0;
        while i < 24
            invariant
                i <= 24,
                data@.len() >= 24,
                nonce@.len() == 24,
                forall|k: int| 0 <= k < i ==> nonce@[k] == data@[k],
            decreases 24 - i,
        {
            nonce[i] = data[i];
            i = i + 1;
        }
        assert(nonce@ =~= data@.take(24));
        let body = crate::rmc::basic::slice_vec(data, 24, data.len());
        assert(body@ =~= data@.skip(24));
        let m = match open_box(body.as_slice(), &nonce, key) {
            Some(m) => m,
            None => {
                proof {
                    assert forall|t: InternalView, n: Seq<u8>|
                        t.2.len() == 16 && n.len() == 24 && #[trigger] spec_sealed(t, n, key@) == data@ implies false by {
                        assert(data@.take(24) =~= n);
                        assert(data@.skip(24) =~= secretbox_seal(internal_bytes(t), n, key@));
                    }
                }
                return Err(FromStreamError::IO(IoErrorKind::InvalidData));
            },
        };
        proof {
            assert forall|t: InternalView, n: Seq<u8>|
                t.2.len() == 16 && n.len() == 24 && #[trigger] spec_sealed(t, n, key@) == data@ implies m@
                == internal_bytes(t) && spec_internal(m@) == Ok::<(InternalView, nat), FromStreamError>((t, 28)) by {
                assert(data@.take(24) =~= n);
                assert(data@.skip(24) =~= secretbox_seal(internal_bytes(t), n, key@));
                lemma_internal_roundtrip(t, Seq::empty());
                assert(internal_bytes(t) + Seq::<u8>::empty() =~= internal_bytes(t));
            }
        }
        KerberosTicketInternal::from_bytes(m.as_slice())
    }
}

// ---------------------------------------------------------------------------
// The outer ticket
// ---------------------------------------------------------------------------

/// The password of a peer that has none, `UbiDummyPwd`.
pub open spec fn dummy_password() -> Seq<u8> {
    seq![0x55u8, 0x62, 0x69, 0x44, 0x75, 0x6d, 0x6d, 0x79, 0x50, 0x77, 0x64]
}

/// The bytes that the key of a peer is derived from: its password in
/// UTF-8, or the dummy password.
pub open spec fn password_bytes(password: Option<&str>) -> Seq<u8> {
    match password {
        Some(p) => vstd::utf8::encode_utf8(p@),
        None => dummy_password(),
    }
}

/// `n` rounds of MD5 over `k`.
pub open spec fn md5_rounds(k: Seq<u8>, n: nat) -> Seq<u8>
    decreases n,
{
    if n == 0 {
        k
    } else {
        md5(md5_rounds(k, (n - 1) as nat))
    }
}

/// The number of MD5 rounds for a peer: 65000 plus its PID modulo 1024.
pub open spec fn key_rounds(peer_pid: u32) -> nat {
    (65000 + peer_pid % 1024) as nat
}

/// A peer's key is its password after a number of MD5 rounds that counts
/// up by one with its PID and starts over every 1024 PIDs, from 65000 at
/// PID 0: PIDs 512 apart within a block of 1024 get 512 rounds apart.
pub proof fn lemma_key_rounds(pid: u32, password: Option<&str>)
    ensures
        spec_derive_key(pid, password) == md5_rounds(password_bytes(password), key_rounds(pid)),
        key_rounds(0) == 65000,
        65000 <= key_rounds(pid) < 66024,
        pid < u32::MAX && pid % 1024 != 1023 ==> key_rounds((pid + 1) as u32) == key_rounds(pid) + 1,
        pid < u32::MAX && pid % 1024 == 1023 ==> key_rounds((pid + 1) as u32) == 65000,
        pid + 1024 <= u32::MAX ==> key_rounds((pid + 1024) as u32) == key_rounds(pid),
        pid % 1024 < 512 && pid + 512 <= u32::MAX ==> key_rounds((pid + 512) as u32) == key_rounds(pid) + 512,
{
}

/// The key derived for a peer from its PID and password.
pub open spec fn spec_derive_key(peer_pid: u32, password: Option<&str>) -> Seq<u8> {
    md5_rounds(password_bytes(password), key_rounds(peer_pid))
}

/// Outer session key, PID and internal ticket.
pub type TicketView = (Seq<u8>, u32, InternalView);

/// A Kerberos ticket.
#[derive(Debug, Clone, Copy)]
pub struct KerberosTicket {
    /// The session key.
    pub session_key: [u8; 16],
    /// The principal ID.
    pub pid: u32,
    /// The internal ticket.
    pub internal: KerberosTicketInternal,
}

impl DeepView for KerberosTicket {
    type V = TicketView;

    open spec fn deep_view(&self) -> TicketView {
        (self.session_key@, self.pid, self.internal.deep_view())
    }
}

/// What reading a ticket from `buf` gives: the last 16 bytes (the MAC) are
/// set aside, the rest is decrypted with the derived key, and holds the
/// session key, the PID and then the sealed internal ticket.
pub open spec fn spec_ticket_from_bytes(buf: Seq<u8>, peer_pid: u32, password: Option<&str>, key: Seq<u8>) -> Result<
    TicketView,
    FromStreamError,
> {
    let plain = spec_crypt(spec_derive_key(peer_pid, password), buf.take(buf.len() - 16));
    if plain.len() < 20 {
        Err(eof())
    } else {
        match spec_open_internal(plain.skip(20), key) {
            Ok(t) => Ok((plain.take(16), le_u32(plain.skip(16)), t)),
            Err(e) => Err(e),
        }
    }
}

/// The bytes of a ticket: session key, PID and the length-prefixed sealed
/// internal ticket, encrypted with the derived key, then the HMAC-MD5 of
/// the encrypted bytes under that key.
pub open spec fn spec_ticket_bytes(t: TicketView, nonce: Seq<u8>, peer_pid: u32, password: Option<&str>, key: Seq<u8>) -> Seq<
    u8,
> {
    let sealed = spec_sealed(t.2, nonce, key);
    let plain = t.0 + u32_bytes(t.1) + <Vec<u8> as ToStream>::spec_to_stream(sealed);
    let k = spec_derive_key(peer_pid, password);
    let enc = spec_crypt(k, plain);
    enc + hmac_md5(k, enc)
}

impl KerberosTicket {
    /// Derives the key of a peer: `65000 + peer_pid % 1024` rounds of MD5
    /// over its password, or over `UbiDummyPwd` when it has none.
    pub fn derive_key(peer_pid: u32, password: Option<&str>) -> (r: Vec<u8>)
        ensures
            r@ == spec_derive_key(peer_pid, password),
            r@.len() == 16,
    {
        let count: u32 = 65000 + peer_pid % 1024;
        let mut key: Vec<u8> = match password {
            Some(p) => bytes_vec(p.as_bytes()),
            None => {
                let mut v: Vec<u8> = Vec::new();
                v.push(0x55);
                v.push(0x62);
                v.push(0x69);
                v.push(0x44);
                v.push(0x75);
                v.push(0x6d);
                v.push(0x6d);
                v.push(0x79);
                v.push(0x50);
                v.push(0x77);
                v.push(0x64);
                assert(v@ =~= dummy_password());
                v
            },
        };
        let ghost start = key@;
        assert(start == password_bytes(password));
        let mut i: u32 = 0;
        while i < count
            invariant
                i <= count,
                count == key_rounds(peer_pid),
                key@ == md5_rounds(start, i as nat),
                start == password_bytes(password),
                i > 0 ==> key@.len() == 16,
            decreases count - i,
        {
            key = md5_digest(key.as_slice());
            i = i + 1;
        }
        key
    }

    /// Reads a ticket that was obfuscated for `peer_pid`. The trailing MAC
    /// is not checked.
    pub fn from_bytes(buf: &[u8], peer_pid: u32, password: Option<&str>, key: &[u8; 32]) -> (r: Result<
        KerberosTicket,
        FromStreamError,
    >)
        requires
            buf@.len() >= 16,
        ensures
            match spec_ticket_from_bytes(buf@, peer_pid, password, key@) {
                Ok(t) => r matches Ok(x) && x.deep_view() == t,
                Err(e) => r == Err::<KerberosTicket, FromStreamError>(e),
            },
    {
        let off = buf.len() - 16;
        let body = crate::rmc::basic::slice_vec(buf, 0, off);
        assert(body@ =~= buf@.take(buf@.len() - 16));
        let obf_key = KerberosTicket::derive_key(peer_pid, password);
        let plain = crypt_key(obf_key.as_slice(), body.as_slice());
        proof {
            crate::prudp::packet::lemma_crypt_involution(obf_key@, body@);
        }
        let ghost p = plain@;
        let mut rdr = ReadStream::from_reader(plain);
        let session_key = match <[u8; 16] as FromStream>::from_stream(&mut rdr) {
            Ok(v) => v,
            Err(e) => return Err(e),
        };
        let pid = match rdr.u32() {
            Ok(v) => v,
            Err(e) => {
                return Err(e);
            },
        };
        assert(rdr@ =~= p.skip(20));
        let internal = match rdr.read_all() {
            Ok(v) => v,
            Err(e) => return Err(e),
        };
        let internal = match KerberosTicketInternal::open(internal.as_slice(), key) {
            Ok(t) => t,
            Err(e) => return Err(e),
        };
        assert(session_key@ =~= p.take(16));
        assert(p.skip(16).subrange(0, 4) =~= p.subrange(16, 20));
        Ok(KerberosTicket { session_key, pid, internal })
    }

    /// The ticket's bytes with the internal ticket sealed under `nonce`.
    pub fn as_bytes_with_nonce(&self, nonce: &[u8; 24], peer_pid: u32, password: Option<&str>, key: &[u8; 32]) -> (r: Vec<
        u8,
    >)
        ensures
            r@ == spec_ticket_bytes(self.deep_view(), nonce@, peer_pid, password, key@),
    {
        let sealed = self.internal.seal_with_nonce(nonce, key);
        let mut w = WriteStream::new();
        w.write_n_bytes(self.session_key.as_slice());
        w.u32(self.pid);
        sealed.to_stream(&mut w);
        assert(sealed.deep_view() =~= sealed@);
        let plain = w.into_inner();
        let k = KerberosTicket::derive_key(peer_pid, password);
        let mut buf = crypt_key(k.as_slice(), plain.as_slice());
        let mac = hmac_md5_tag(k.as_slice(), buf.as_slice());
        let ghost enc = buf@;
        let mut i: usize = 0;
        while i < mac.len()
            invariant
                i <= mac@.len(),
                buf@ =~= enc + mac@.subrange(0, i as int),
            decreases mac@.len() - i,
        {
            buf.push(mac[i]);
            i = i + 1;
        }
        assert(mac@.subrange(0, mac@.len() as int) =~= mac@);
        buf
    }

    /// The ticket's bytes, with the internal ticket sealed under a fresh
    /// random nonce.
    pub fn as_bytes(&self, peer_pid: u32, password: Option<&str>, key: &[u8; 32]) -> (r: Vec<u8>)
        ensures
            exists|nonce: Seq<u8>|
                nonce.len() == 24 && r@ == #[trigger] spec_ticket_bytes(self.deep_view(), nonce, peer_pid, password, key@),
    {
        let nonce = gen_nonce();
        self.as_bytes_with_nonce(&nonce, peer_pid, password, key)
    }
}

} // verus!
