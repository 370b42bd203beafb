//! PRUDP packets: virtual ports, packet types and flags, the RC4 payload
//! cipher, checksums, and the packet encoding itself.

use crate::config::Context;
use crate::kerberos::{hmac_md5, hmac_md5_tag, md5, md5_digest};
use crate::rmc::basic::{
    le_u16, le_u32, lemma_u16_roundtrip, lemma_u32_roundtrip, slice_vec, tail_vec, u16_at, u16_bytes, u32_at, u32_bytes, u32_to_le, IoErrorKind,
    ReadStream, WriteStream,
};
use vstd::prelude::*;

verus! {

// ---------------------------------------------------------------------------
// RC4
// ---------------------------------------------------------------------------

/// The identity permutation of the 256 byte values.
pub open spec fn rc4_identity() -> Seq<u8> {
    Seq::new(256, |k: int| k as u8)
}

/// `s` with the entries at `a` and `b` exchanged.
pub open spec fn swap(s: Seq<u8>, a: int, b: int) -> Seq<u8> {
    s.update(a, s[b]).update(b, s[a])
}

/// The RC4 key schedule after its first `i` steps: the permutation and `j`.
pub open spec fn rc4_ksa(key: Seq<u8>, i: nat) -> (Seq<u8>, u8)
    decreases i,
{
    if i == 0 {
        (rc4_identity(), 0)
    } else {
        let (s, j) = rc4_ksa(key, (i - 1) as nat);
        let j2 = ((j + s[i - 1] + key[(i - 1) % (key.len() as int)]) % 256) as u8;
        (swap(s, i - 1, j2 as int), j2)
    }
}

/// An RC4 generator state: `i`, `j` and the permutation.
pub type Rc4View = (u8, u8, Seq<u8>);

/// The generator state that follows `st`, and the keystream byte it yields.
pub open spec fn rc4_step(st: Rc4View) -> (Rc4View, u8) {
    let i = ((st.0 + 1) % 256) as u8;
    let j = ((st.1 + st.2[i as int]) % 256) as u8;
    let s = swap(st.2, i as int, j as int);
    ((i, j, s), s[((s[i as int] + s[j as int]) % 256) as int])
}

/// The state after `n` keystream bytes, and those bytes.
pub open spec fn rc4_stream(st: Rc4View, n: nat) -> (Rc4View, Seq<u8>)
    decreases n,
{
    if n == 0 {
        (st, Seq::empty())
    } else {
        let (st1, ks) = rc4_stream(st, (n - 1) as nat);
        let (st2, k) = rc4_step(st1);
        (st2, ks.push(k))
    }
}

/// The initial generator state for `key`.
pub open spec fn rc4_init(key: Seq<u8>) -> Rc4View {
    (0, 0, rc4_ksa(key, 256).0)
}

/// The first `n` keystream bytes for `key`.
pub open spec fn rc4_keystream(key: Seq<u8>, n: nat) -> Seq<u8> {
    rc4_stream(rc4_init(key), n).1
}

/// `data` XOR the keystream of `key`: both encryption and decryption.
pub open spec fn spec_crypt(key: Seq<u8>, data: Seq<u8>) -> Seq<u8> {
    let ks = rc4_keystream(key, data.len());
    Seq::new(data.len(), |k: int| data[k] ^ ks[k])
}

/// A valid RC4 key has between 1 and 256 bytes.
pub open spec fn valid_rc4_key(key: Seq<u8>) -> bool {
    1 <= key.len() <= 256
}

/// Whether `key` is a valid RC4 key.
pub fn is_valid_rc4_key(key: &[u8]) -> (r: bool)
    ensures
        r == valid_rc4_key(key@),
{
    key.len() >= 1 && key.len() <= 256
}

proof fn lemma_ksa_len(key: Seq<u8>, i: nat)
    requires
        valid_rc4_key(key),
        i <= 256,
    ensures
        rc4_ksa(key, i).0.len() == 256,
    decreases i,
{
    if i > 0 {
        lemma_ksa_len(key, (i - 1) as nat);
    }
}

proof fn lemma_stream_len(st: Rc4View, n: nat)
    requires
        st.2.len() == 256,
    ensures
        rc4_stream(st, n).0.2.len() == 256,
        rc4_stream(st, n).1.len() == n,
    decreases n,
{
    if n > 0 {
        lemma_stream_len(st, (n - 1) as nat);
    }
}

/// An RC4 keystream generator.
pub struct Rc4 {
    i: u8,
    j: u8,
    state: Vec<u8>,
}

impl View for Rc4 {
    type V = Rc4View;

    closed spec fn view(&self) -> Rc4View {
        (self.i, self.j, self.state@)
    }
}

impl Rc4 {
    /// The permutation has its 256 entries.
    pub closed spec fn wf(&self) -> bool {
        self.state@.len() == 256
    }

    /// The generator for `key`, which must hold 1 to 256 bytes.
    pub fn new(key: &[u8]) -> (r: Rc4)
        requires
            valid_rc4_key(key@),
        ensures
            r@ == rc4_init(key@),
            r.wf(),
    {
        let mut state: Vec<u8> = Vec::new();
        let mut k: usize = 0;
        while k < 256
            invariant
                k <= 256,
                state@ =~= rc4_identity().subrange(0, k as int),
            decreases 256 - k,
        {
            state.push(k as u8);
            k = k + 1;
        }
        assert(state@ =~= rc4_identity());
        let mut j: u8 = 0;
        let mut i: usize = 0;
        while i < 256
            invariant
                i <= 256,
                valid_rc4_key(key@),
                (state@, j) == rc4_ksa(key@, i as nat),
                state@.len() == 256,
            decreases 256 - i,
        {
            proof {
                lemma_ksa_len(key@, (i + 1) as nat);
            }
            j = ((j as u16 + state[i] as u16 + key[i % key.len()] as u16) % 256) as u8;
            let a = state[i];
            let b = state[j as usize];
            state.set(i, b);
            state.set(j as usize, a);
            i = i + 1;
            assert(state@ =~= rc4_ksa(key@, i as nat).0);
        }
        Rc4 { i: 0, j: 0, state }
    }

    /// The next keystream byte.
    pub fn next(&mut self) -> (k: u8)
        requires
            old(self).wf(),
        ensures
            (final(self)@, k) == rc4_step(old(self)@),
            final(self).wf(),
    {
        let i = ((self.i as u16 + 1) % 256) as u8;
        let j = ((self.j as u16 + self.state[i as usize] as u16) % 256) as u8;
        let a = self.state[i as usize];
        let b = self.state[j as usize];
        self.state.set(i as usize, b);
        self.state.set(j as usize, a);
        self.i = i;
        self.j = j;
        let t = ((self.state[i as usize] as u16 + self.state[j as usize] as u16) % 256) as usize;
        let k = self.state[t];
        assert(self.state@ =~= swap(old(self)@.2, i as int, j as int));
        k
    }
}

/// `data` XOR the RC4 keystream of `key`; applying it twice gives `data`
/// back.
pub fn crypt_key(key: &[u8], data: &[u8]) -> (r: Vec<u8>)
    requires
        valid_rc4_key(key@),
    ensures
        r@ == spec_crypt(key@, data@),
{
    let mut rc4 = Rc4::new(key);
    let mut out: Vec<u8> = Vec::new();
    let mut n: usize = 0;
    let ghost ks = rc4_keystream(key@, data@.len());
    proof {
        lemma_ksa_len(key@, 256);
        lemma_stream_len(rc4_init(key@), data@.len());
        assert forall|m: nat| m <= data@.len() implies #[trigger] rc4_stream(rc4_init(key@), m).1
            =~= ks.subrange(0, m as int) by {
            lemma_stream_prefix(rc4_init(key@), m, data@.len());
        }
    }
    while n < data.len()
        invariant
            n <= data@.len(),
            rc4@ == rc4_stream(rc4_init(key@), n as nat).0,
            rc4.wf(),
            ks == rc4_keystream(key@, data@.len()),
            ks.len() == data@.len(),
            rc4_init(key@).2.len() == 256,
            forall|m: nat| m <= data@.len() ==> #[trigger] rc4_stream(rc4_init(key@), m).1 =~= ks.subrange(0, m as int),
            out@ =~= Seq::new(n as nat, |k: int| data@[k] ^ ks[k]),
        decreases data@.len() - n,
    {
        let k = rc4.next();
        proof {
            assert(rc4_stream(rc4_init(key@), (n + 1) as nat).1 =~= ks.subrange(0, n + 1));
        }
        out.push(data[n] ^ k);
        n = n + 1;
    }
    out
}

proof fn lemma_keystream_len(st: Rc4View, n: nat)
    ensures
        rc4_stream(st, n).1.len() == n,
    decreases n,
{
    if n > 0 {
        lemma_keystream_len(st, (n - 1) as nat);
    }
}

/// The keystream prefixes of one generator state agree.
proof fn lemma_stream_prefix(st: Rc4View, m: nat, n: nat)
    requires
        m <= n,
    ensures
        rc4_stream(st, m).1 =~= rc4_stream(st, n).1.subrange(0, m as int),
    decreases n,
{
    lemma_keystream_len(st, n);
    if m < n {
        lemma_stream_prefix(st, m, (n - 1) as nat);
        lemma_keystream_len(st, (n - 1) as nat);
    }
}

/// Applying the cipher twice with one key gives the data back.
pub proof fn lemma_crypt_involution(key: Seq<u8>, data: Seq<u8>)
    ensures
        spec_crypt(key, spec_crypt(key, data)) =~= data,
        spec_crypt(key, data).len() == data.len(),
{
    let ks = rc4_keystream(key, data.len());
    assert forall|k: int| 0 <= k < data.len() implies (data[k] ^ ks[k]) ^ ks[k] == data[k] by {
        let a = data[k];
        let b = ks[k];
        assert((a ^ b) ^ b == a) by (bit_vector);
    }
}

// ---------------------------------------------------------------------------
// Checksums
// ---------------------------------------------------------------------------

/// The wrapping sum of the first `n` little-endian words of `data`.
pub open spec fn sum_words(data: Seq<u8>, n: nat) -> u32
    decreases n,
{
    if n == 0 {
        0
    } else {
        ((sum_words(data, (n - 1) as nat) + le_u32(data.skip(4 * (n - 1)))) % 0x1_0000_0000) as u32
    }
}

/// The wrapping sum of the bytes of `s`, as a byte.
pub open spec fn sum_bytes(s: Seq<u8>) -> u8
    decreases s.len(),
{
    if s.len() == 0 {
        0
    } else {
        ((sum_bytes(s.drop_last()) + s.last()) % 256) as u8
    }
}

/// The wrapping sum of the bytes of `s`, as a `u32`.
pub open spec fn sum_bytes_u32(s: Seq<u8>) -> u32
    decreases s.len(),
{
    if s.len() == 0 {
        0
    } else {
        ((sum_bytes_u32(s.drop_last()) + s.last()) % 0x1_0000_0000) as u32
    }
}

/// The packet checksum of `data` under `key`: the bytes of the wrapping sum
/// of its whole little-endian words, plus the low byte of the key, plus
/// the bytes that do not fill a word, all summed as a byte.
pub open spec fn spec_checksum(key: u32, data: Seq<u8>) -> u8 {
    let l = data.len() - data.len() % 4;
    let t = sum_words(data, (l / 4) as nat);
    ((sum_bytes(u32_bytes(t)) + key % 256 + sum_bytes(data.skip(l))) % 256) as u8
}

/// The packet checksum of `data` under `key`.
pub fn calc_checksum_from_data(key: u32, data: &[u8]) -> (r: u8)
    ensures
        r == spec_checksum(key, data@),
{
    let len = data.len();
    let l = len - len % 4;
    let mut t: u32 = 0;
    let mut w: usize = 0;
    while w < l / 4
        invariant
            l == data@.len() - data@.len() % 4,
            l <= data@.len(),
            w <= l / 4,
            t == sum_words(data@, w as nat),
        decreases l / 4 - w,
    {
        let x = u32_at(data, 4 * w);
        t = ((t as u64 + x as u64) % 0x1_0000_0000) as u32;
        w = w + 1;
    }
    let tb = u32_to_le(t);
    let mut s: u8 = 0;
    let mut k: usize = 0;
    while k < 4
        invariant
            k <= 4,
            tb@.len() == 4,
            s == sum_bytes(tb@.subrange(0, k as int)),
        decreases 4 - k,
    {
        assert(tb@.subrange(0, k + 1).drop_last() =~= tb@.subrange(0, k as int));
        s = ((s as u16 + tb[k] as u16) % 256) as u8;
        k = k + 1;
    }
    assert(tb@.subrange(0, 4) =~= tb@);
    let mut trailer: u8 = 0;
    let mut m: usize = l;
    while m < len
        invariant
            l <= m <= len,
            len == data@.len(),
            trailer == sum_bytes(data@.subrange(l as int, m as int)),
        decreases len - m,
    {
        assert(data@.subrange(l as int, m + 1).drop_last() =~= data@.subrange(l as int, m as int));
        trailer = ((trailer as u16 + data[m] as u16) % 256) as u8;
        m = m + 1;
    }
    assert(data@.subrange(l as int, len as int) =~= data@.skip(l as int));
    ((s as u32 + key % 256 + trailer as u32) % 256) as u8
}

// ---------------------------------------------------------------------------
// Compression
// ---------------------------------------------------------------------------

/// What zlib decompression of the given bytes yields, or `None` when they
/// are not a valid zlib stream.
pub uninterp spec fn zlib_inflate(input: Seq<u8>) -> Option<Seq<u8>>;

/// The zlib stream that compressing the given bytes at the given level
/// yields.
pub uninterp spec fn zlib_deflate(input: Seq<u8>, level: u8) -> Seq<u8>;

#[verifier::external_type_specification]
#[verifier::external_body]
pub struct ExDecompressError(miniz_oxide::inflate::DecompressError);

/// `miniz_oxide::inflate::decompress_to_vec_zlib`: decompresses a zlib
/// stream. The contract names the result; it says only that success and
/// the output are those of zlib decompression of the input.
#[verifier::external_body]
fn decompress_to_vec_zlib(input: &[u8]) -> (r: Result<Vec<u8>, miniz_oxide::inflate::DecompressError>)
    ensures
        r is Ok <==> zlib_inflate(input@) is Some,
        r matches Ok(v) ==> zlib_inflate(input@) == Some(v@),
{
    miniz_oxide::inflate::decompress_to_vec_zlib(input)
}

/// `miniz_oxide::deflate::compress_to_vec_zlib`: compresses the input into a
/// zlib stream. The contract names the result, states that it is not empty
/// (a zlib stream starts with a two-byte header) and that decompressing it
/// gives the input back (the compression is lossless).
#[verifier::external_body]
fn compress_to_vec_zlib(input: &[u8], level: u8) -> (r: Vec<u8>)
    requires
        level <= 10,
    ensures
        r@ == zlib_deflate(input@, level),
        r@.len() > 0,
        zlib_inflate(r@) == Some(input@),
{
    miniz_oxide::deflate::compress_to_vec_zlib(input, level)
}

// ---------------------------------------------------------------------------
// Stream types, packet types, flags and virtual ports
// ---------------------------------------------------------------------------

/// The kind of service behind a virtual port.
#[derive(Debug, Clone, Copy, PartialEq, Eq, Hash, Structural)]
pub enum StreamType {
    DO,
    RV,
    RVSec,
    SBMGMT,
    NAT,
    SessionDiscovery,
    NATEcho,
    Routing,
}

impl StreamType {
    /// The wire number of the stream type.
    pub open spec fn spec_number(self) -> u8 {
        match self {
            StreamType::DO => 1,
            StreamType::RV => 2,
            StreamType::RVSec => 3,
            StreamType::SBMGMT => 4,
            StreamType::NAT => 5,
            StreamType::SessionDiscovery => 6,
            StreamType::NATEcho => 7,
            StreamType::Routing => 8,
        }
    }

    /// The stream type with the given number, if any.
    pub open spec fn spec_from_number(v: u8) -> Option<StreamType> {
        if v == 1 {
            Some(StreamType::DO)
        } else if v == 2 {
            Some(StreamType::RV)
        } else if v == 3 {
            Some(StreamType::RVSec)
        } else if v == 4 {
            Some(StreamType::SBMGMT)
        } else if v == 5 {
            Some(StreamType::NAT)
        } else if v == 6 {
            Some(StreamType::SessionDiscovery)
        } else if v == 7 {
            Some(StreamType::NATEcho)
        } else if v == 8 {
            Some(StreamType::Routing)
        } else {
            None
        }
    }

    pub fn to_u8(self) -> (r: u8)
        ensures
            r == self.spec_number(),
    {
        match self {
            StreamType::DO => 1,
            StreamType::RV => 2,
            StreamType::RVSec => 3,
            StreamType::SBMGMT => 4,
            StreamType::NAT => 5,
            StreamType::SessionDiscovery => 6,
            StreamType::NATEcho => 7,
            StreamType::Routing => 8,
        }
    }

    /// The stream type with the given number, or the number back.
    pub fn try_from_u8(v: u8) -> (r: Result<StreamType, u8>)
        ensures
            match StreamType::spec_from_number(v) {
                Some(t) => r == Ok::<StreamType, u8>(t),
                None => r == Err::<StreamType, u8>(v),
            },
    {
        match v {
            1 => Ok(StreamType::DO),
            2 => Ok(StreamType::RV),
            3 => Ok(StreamType::RVSec),
            4 => Ok(StreamType::SBMGMT),
            5 => Ok(StreamType::NAT),
            6 => Ok(StreamType::SessionDiscovery),
            7 => Ok(StreamType::NATEcho),
            8 => Ok(StreamType::Routing),
            _ => Err(v),
        }
    }

    /// `DO`, the default stream type.
    pub fn default_type() -> (r: StreamType)
        ensures
            r == StreamType::DO,
    {
        StreamType::DO
    }
}

/// The number of a stream type names it back.
pub proof fn lemma_stream_type_roundtrip(t: StreamType)
    ensures
        StreamType::spec_from_number(t.spec_number()) == Some(t),
{
}

/// The kind of a packet.
#[derive(Debug, Clone, Copy, PartialEq, Eq, Structural)]
pub enum PacketType {
    Syn,
    Connect,
    Data,
    Disconnect,
    Ping,
    User,
    Route,
    Raw,
}

impl PacketType {
    /// The wire number of the packet type.
    pub open spec fn spec_number(self) -> u8 {
        match self {
            PacketType::Syn => 0,
            PacketType::Connect => 1,
            PacketType::Data => 2,
            PacketType::Disconnect => 3,
            PacketType::Ping => 4,
            PacketType::User => 5,
            PacketType::Route => 6,
            PacketType::Raw => 7,
        }
    }

    /// The packet type with the given number, if any.
    pub open spec fn spec_from_number(v: u8) -> Option<PacketType> {
        if v == 0 {
            Some(PacketType::Syn)
        } else if v == 1 {
            Some(PacketType::Connect)
        } else if v == 2 {
            Some(PacketType::Data)
        } else if v == 3 {
            Some(PacketType::Disconnect)
        } else if v == 4 {
            Some(PacketType::Ping)
        } else if v == 5 {
            Some(PacketType::User)
        } else if v == 6 {
            Some(PacketType::Route)
        } else if v == 7 {
            Some(PacketType::Raw)
        } else {
            None
        }
    }

    pub fn to_u8(self) -> (r: u8)
        ensures
            r == self.spec_number(),
    {
        match self {
            PacketType::Syn => 0,
            PacketType::Connect => 1,
            PacketType::Data => 2,
            PacketType::Disconnect => 3,
            PacketType::Ping => 4,
            PacketType::User => 5,
            PacketType::Route => 6,
            PacketType::Raw => 7,
        }
    }

    /// The packet type with the given number, or the number back.
    pub fn try_from_u8(v: u8) -> (r: Result<PacketType, u8>)
        ensures
            match PacketType::spec_from_number(v) {
                Some(t) => r == Ok::<PacketType, u8>(t),
                None => r == Err::<PacketType, u8>(v),
            },
    {
        match v {
            0 => Ok(PacketType::Syn),
            1 => Ok(PacketType::Connect),
            2 => Ok(PacketType::Data),
            3 => Ok(PacketType::Disconnect),
            4 => Ok(PacketType::Ping),
            5 => Ok(PacketType::User),
            6 => Ok(PacketType::Route),
            7 => Ok(PacketType::Raw),
            _ => Err(v),
        }
    }
}

/// The number of a packet type names it back.
pub proof fn lemma_packet_type_roundtrip(t: PacketType)
    ensures
        PacketType::spec_from_number(t.spec_number()) == Some(t),
{
}

/// A packet flag.
#[derive(Debug, Clone, Copy, PartialEq, Eq, Structural)]
pub enum PacketFlag {
    Ack,
    Reliable,
    NeedAck,
    HasSize,
}

impl PacketFlag {
    /// The bit of the flag.
    pub open spec fn spec_bit(self) -> u8 {
        match self {
            PacketFlag::Ack => 1,
            PacketFlag::Reliable => 2,
            PacketFlag::NeedAck => 4,
            PacketFlag::HasSize => 8,
        }
    }

    pub fn bit(self) -> (r: u8)
        ensures
            r == self.spec_bit(),
    {
        match self {
            PacketFlag::Ack => 1,
            PacketFlag::Reliable => 2,
            PacketFlag::NeedAck => 4,
            PacketFlag::HasSize => 8,
        }
    }
}

/// A set of packet flags, held as their bits.
#[derive(Debug, Clone, Copy, PartialEq, Eq, Structural)]
pub struct PacketFlags {
    bits: u8,
}

impl View for PacketFlags {
    type V = u8;

    closed spec fn view(&self) -> u8 {
        self.bits
    }
}

proof fn lemma_flag_bits(b: u8, f: u8)
    requires
        b < 16,
        f == 1 || f == 2 || f == 4 || f == 8,
    ensures
        b | f < 16,
        (b | f) & f == f,
{
    assert(b < 16 && (f == 1 || f == 2 || f == 4 || f == 8) ==> (b | f) < 16 && (b | f) & f == f)
        by (bit_vector);
}

impl PacketFlags {
    #[verifier::type_invariant]
    spec fn inv(&self) -> bool {
        self.bits < 16
    }

    /// Whether the set holds `f`.
    pub open spec fn spec_contains(self, f: PacketFlag) -> bool {
        self@ & f.spec_bit() == f.spec_bit()
    }

    /// The empty set.
    pub fn empty() -> (r: PacketFlags)
        ensures
            r@ == 0,
    {
        PacketFlags { bits: 0 }
    }

    /// The set with the given bits, or the bits that name no flag.
    pub fn from_bits(bits: u8) -> (r: Result<PacketFlags, u8>)
        ensures
            bits < 16 ==> (r matches Ok(f) && f@ == bits),
            bits >= 16 ==> r == Err::<PacketFlags, u8>((bits / 16 * 16) as u8),
    {
        if bits < 16 {
            Ok(PacketFlags { bits })
        } else {
            Err(bits / 16 * 16)
        }
    }

    pub fn bits(&self) -> (r: u8)
        ensures
            r == self@,
            r < 16,
    {
        proof {
            use_type_invariant(self);
        }
        self.bits
    }

    pub fn contains(&self, f: PacketFlag) -> (r: bool)
        ensures
            r == self.spec_contains(f),
    {
        self.bits & f.bit() == f.bit()
    }

    /// Adds `f` to the set.
    pub fn insert(&mut self, f: PacketFlag)
        ensures
            final(self)@ == old(self)@ | f.spec_bit(),
            final(self).spec_contains(f),
    {
        proof {
            use_type_invariant(&*self);
            lemma_flag_bits(self.bits, f.spec_bit());
        }
        let b = self.bits | f.bit();
        self.bits = b;
    }

    /// The set of two flags.
    pub fn pair(a: PacketFlag, b: PacketFlag) -> (r: PacketFlags)
        ensures
            r@ == a.spec_bit() | b.spec_bit(),
    {
        proof {
            lemma_flag_bits(a.spec_bit(), b.spec_bit());
        }
        PacketFlags { bits: a.bit() | b.bit() }
    }
}

/// A virtual port: a port number in the low four bits, and a stream type.
#[derive(Debug, Clone, Copy, PartialEq, Eq, Hash, Structural)]
pub struct VPort {
    pub port: u8,
    pub stream_type: StreamType,
}

/// The virtual port that a byte names, or the stream type number that names
/// none.
pub open spec fn spec_vport(b: u8) -> Result<VPort, Error> {
    match StreamType::spec_from_number(b / 16) {
        Some(t) => Ok(VPort { port: b % 16, stream_type: t }),
        None => Err(Error::InvalidStreamType(b / 16)),
    }
}

/// The byte of a virtual port.
pub open spec fn spec_vport_byte(v: VPort) -> u8 {
    v.port | (v.stream_type.spec_number() * 16) as u8
}

impl VPort {
    /// The port read from one byte of the stream.
    pub fn from_reader(rdr: &mut ReadStream) -> (r: Result<Self, Error>)
        ensures
            old(rdr)@.len() == 0 ==> r == Err::<VPort, Error>(Error::IO(IoErrorKind::UnexpectedEof)),
            old(rdr)@.len() > 0 ==> r == spec_vport(old(rdr)@[0]) && final(rdr)@ == old(rdr)@.skip(1),
    {
        let val = match rdr.u8() {
            Ok(v) => v,
            Err(_) => return Err(Error::IO(IoErrorKind::UnexpectedEof)),
        };
        VPort::from_byte(val)
    }

    /// The port that a byte names.
    pub fn from_byte(val: u8) -> (r: Result<Self, Error>)
        ensures
            r == spec_vport(val),
    {
        match StreamType::try_from_u8(val / 16) {
            Ok(t) => Ok(VPort { port: val % 16, stream_type: t }),
            Err(n) => Err(Error::InvalidStreamType(n)),
        }
    }

    /// The port as its one byte.
    pub fn to_byte(&self) -> (r: u8)
        ensures
            r == spec_vport_byte(*self),
    {
        let st = self.stream_type.to_u8();
        self.port | (st * 16)
    }

    /// The port as a one-byte vector.
    pub fn to_bytes(&self) -> (r: Vec<u8>)
        ensures
            r@ == seq![spec_vport_byte(*self)],
    {
        let mut v: Vec<u8> = Vec::new();
        v.push(self.to_byte());
        assert(v@ =~= seq![spec_vport_byte(*self)]);
        v
    }
}

/// Reading the byte of a port whose number is below 16 gives the port.
pub proof fn lemma_vport_roundtrip(v: VPort)
    requires
        v.port < 16,
    ensures
        spec_vport(spec_vport_byte(v)) == Ok::<VPort, Error>(v),
{
    let p = v.port;
    let s = v.stream_type.spec_number();
    assert(p < 16 && 1 <= s <= 8 ==> (p | (s * 16) as u8) % 16 == p && (p | (s * 16) as u8) / 16 == s)
        by (bit_vector);
}

// ---------------------------------------------------------------------------
// Errors
// ---------------------------------------------------------------------------

/// Why a packet could not be read or handled.
#[derive(Debug, Clone, Copy, PartialEq, Eq, Structural)]
pub enum Error {
    /// Flag bits that name no flag.
    InvalidFlag(u8),
    InvalidChecksum,
    DecompressFailed,
    InvalidPacketType(u8),
    InvalidStreamType(u8),
    IO(IoErrorKind),
    /// The handler of a stream failed.
    StreamHandler(crate::rmc::Error),
    Unimplemented,
}

// ---------------------------------------------------------------------------
// Packets
// ---------------------------------------------------------------------------

/// The abstract content of a packet.
#[verifier::ext_equal]
pub struct QPacketView {
    pub source: VPort,
    pub destination: VPort,
    pub packet_type: PacketType,
    pub flags: u8,
    pub session_id: u8,
    pub signature: u32,
    pub fragment_id: Option<u8>,
    pub conn_signature: Option<u32>,
    pub sequence: u16,
    pub payload: Seq<u8>,
    pub checksum: u8,
    pub use_compression: bool,
}

/// Syn and Connect packets carry a connection signature.
pub open spec fn has_conn_signature(pt: PacketType) -> bool {
    pt == PacketType::Syn || pt == PacketType::Connect
}

/// Data packets carry a fragment id.
pub open spec fn has_fragment_id(pt: PacketType) -> bool {
    pt == PacketType::Data
}

/// The payload of every packet but Syn packets is encrypted (and may be
/// compressed) when it comes from a secure stream.
pub open spec fn is_encrypted(pt: PacketType, source: VPort) -> bool {
    pt != PacketType::Syn && source.stream_type == StreamType::RVSec
}

/// Whether the flag bits hold `HasSize`.
pub open spec fn has_size(bits: u8) -> bool {
    bits & 8u8 == 8u8
}

/// The length of the fixed header of a packet type.
pub open spec fn header_len(pt: PacketType) -> int {
    10 + (if has_conn_signature(pt) { 4int } else { 0 }) + (if has_fragment_id(pt) { 1int } else { 0 })
}

/// A decrypted payload: its first byte says whether the rest is
/// compressed.
pub open spec fn spec_unwrap_payload(dec: Seq<u8>) -> Result<(Seq<u8>, bool), Error> {
    if dec.len() > 0 && dec[0] != 0 {
        match zlib_inflate(dec.skip(1)) {
            Some(p) => Ok((p, true)),
            None => Err(Error::DecompressFailed),
        }
    } else if dec.len() > 0 {
        Ok((dec.skip(1), false))
    } else {
        Ok((dec, false))
    }
}

/// The payload part of a packet whose header has `h` bytes: the payload,
/// whether it was compressed, the checksum byte and the packet's length.
pub open spec fn spec_payload_part(key: Seq<u8>, data: Seq<u8>, h: int, sized: bool, encrypted: bool) -> Result<
    (Seq<u8>, bool, u8, nat),
    Error,
> {
    if sized && data.len() < h + 2 {
        Err(Error::IO(IoErrorKind::UnexpectedEof))
    } else {
        let size: int = if sized { le_u16(data.skip(h)) as int } else { data.len() - h - 1 };
        let start: int = if sized { h + 2 } else { h };
        if data.len() < start + size {
            Err(Error::IO(IoErrorKind::UnexpectedEof))
        } else {
            let raw = data.subrange(start, start + size);
            let unwrapped = if encrypted {
                spec_unwrap_payload(spec_crypt(key, raw))
            } else {
                Ok((raw, false))
            };
            match unwrapped {
                Err(e) => Err(e),
                Ok((payload, comp)) => if data.len() < start + size + 1 {
                    Err(Error::IO(IoErrorKind::UnexpectedEof))
                } else {
                    Ok((payload, comp, data[start + size], (start + size + 1) as nat))
                },
            }
        }
    }
}

/// The header of a packet: ports, type, flags and the fixed fields, or why
/// it cannot be read.
pub open spec fn spec_header(data: Seq<u8>) -> Result<(VPort, VPort, PacketType, u8), Error> {
    if data.len() < 1 {
        Err(Error::IO(IoErrorKind::UnexpectedEof))
    } else {
        match spec_vport(data[0]) {
            Err(e) => Err(e),
            Ok(src) => if data.len() < 2 {
                Err(Error::IO(IoErrorKind::UnexpectedEof))
            } else {
                match spec_vport(data[1]) {
                    Err(e) => Err(e),
                    Ok(dst) => if data.len() < 3 {
                        Err(Error::IO(IoErrorKind::UnexpectedEof))
                    } else {
                        let tf = data[2];
                        let bits = tf / 8;
                        if bits >= 16 {
                            Err(Error::InvalidFlag((bits / 16 * 16) as u8))
                        } else {
                            let pt = PacketType::spec_from_number(tf % 8)->Some_0;
                            if data.len() < header_len(pt) {
                                Err(Error::IO(IoErrorKind::UnexpectedEof))
                            } else {
                                Ok((src, dst, pt, bits))
                            }
                        }
                    },
                }
            },
        }
    }
}

/// A packet without a size field whose header ends the data: reading it
/// takes the payload size as the remaining length minus one, which
/// underflows.
pub open spec fn size_underflows(data: Seq<u8>) -> bool {
    spec_header(data) matches Ok((src, dst, pt, bits)) && !has_size(bits) && data.len() == header_len(pt)
}

/// Whether reading the packet at the start of `data` decrypts a payload:
/// the header reads, the packet is a secure one other than Syn, and its
/// payload bytes are all there. Only then is the RC4 key used.
pub open spec fn reads_secure_payload(data: Seq<u8>) -> bool {
    spec_header(data) matches Ok((src, dst, pt, bits)) && is_encrypted(pt, src) && {
        let h = header_len(pt);
        let sized = has_size(bits);
        !(sized && data.len() < h + 2) && {
            let size: int = if sized { le_u16(data.skip(h)) as int } else { data.len() - h - 1 };
            let start: int = if sized { h + 2 } else { h };
            data.len() >= start + size
        }
    }
}

/// Whether `key` can encrypt the payload of `p`: a secure packet other
/// than Syn needs a valid RC4 key; any other packet does not use it.
pub open spec fn key_serves(key: Seq<u8>, p: QPacketView) -> bool {
    is_encrypted(p.packet_type, p.source) ==> valid_rc4_key(key)
}

/// The packet at the start of `data` and its length, or why it cannot be
/// read; `key` is the RC4 key of secure payloads.
pub open spec fn spec_qpacket(key: Seq<u8>, data: Seq<u8>) -> Result<(QPacketView, nat), Error> {
    match spec_header(data) {
        Err(e) => Err(e),
        Ok((src, dst, pt, bits)) => match spec_payload_part(
            key,
            data,
            header_len(pt),
            has_size(bits),
            is_encrypted(pt, src),
        ) {
            Err(e) => Err(e),
            Ok((payload, comp, checksum, n)) => Ok(
                (
                    QPacketView {
                        source: src,
                        destination: dst,
                        packet_type: pt,
                        flags: bits,
                        session_id: data[3],
                        signature: le_u32(data.skip(4)),
                        fragment_id: if has_fragment_id(pt) { Some(data[10]) } else { None },
                        conn_signature: if has_conn_signature(pt) { Some(le_u32(data.skip(10))) } else { None },
                        sequence: le_u16(data.skip(8)),
                        payload: payload,
                        checksum: checksum,
                        use_compression: comp,
                    },
                    n,
                ),
            ),
        },
    }
}

/// The byte that holds the packet type (low three bits) and the flags.
pub open spec fn spec_type_flag(pt: PacketType, bits: u8) -> u8 {
    (pt.spec_number() + bits * 8) as u8
}

/// The fixed header of a packet.
pub open spec fn spec_header_bytes(p: QPacketView) -> Seq<u8> {
    seq![
        spec_vport_byte(p.source),
        spec_vport_byte(p.destination),
        spec_type_flag(p.packet_type, p.flags),
        p.session_id,
    ] + u32_bytes(p.signature) + u16_bytes(p.sequence) + if has_conn_signature(p.packet_type) {
        u32_bytes(p.conn_signature->Some_0)
    } else if has_fragment_id(p.packet_type) {
        seq![p.fragment_id->Some_0]
    } else {
        Seq::empty()
    }
}

/// The ratio byte in front of a compressed payload.
pub open spec fn spec_ratio(plen: nat, clen: nat) -> u8 {
    (((plen / clen) % 256 + 1) % 256) as u8
}

/// The payload before encryption: nothing for an empty payload, else a
/// byte (0, or the compression ratio) and the payload or its zlib stream.
pub open spec fn spec_payload_plain(p: QPacketView) -> Seq<u8> {
    if p.payload.len() == 0 {
        Seq::empty()
    } else if p.use_compression {
        let c = zlib_deflate(p.payload, 6);
        seq![spec_ratio(p.payload.len(), c.len())] + c
    } else {
        seq![0u8] + p.payload
    }
}

/// The payload as it is sent.
pub open spec fn spec_payload_wire(key: Seq<u8>, p: QPacketView) -> Seq<u8> {
    if is_encrypted(p.packet_type, p.source) {
        spec_crypt(key, spec_payload_plain(p))
    } else {
        spec_payload_plain(p)
    }
}

/// A packet without its checksum byte.
pub open spec fn spec_data_bytes(key: Seq<u8>, p: QPacketView) -> Seq<u8> {
    let w = spec_payload_wire(key, p);
    spec_header_bytes(p) + (if has_size(p.flags) {
        u16_bytes((w.len() % 0x1_0000) as u16)
    } else {
        Seq::empty()
    }) + w
}

/// A packet as it is sent: its bytes, then their checksum under
/// `checksum_key`.
pub open spec fn spec_packet_bytes(key: Seq<u8>, checksum_key: u32, p: QPacketView) -> Seq<u8> {
    spec_data_bytes(key, p) + seq![spec_checksum(checksum_key, spec_data_bytes(key, p))]
}

/// The optional fields that the packet type calls for are there.
pub open spec fn fields_present(p: QPacketView) -> bool {
    &&& has_conn_signature(p.packet_type) ==> p.conn_signature is Some
    &&& has_fragment_id(p.packet_type) ==> p.fragment_id is Some
}

/// A PRUDP packet.
#[derive(Debug)]
pub struct QPacket {
    pub source: VPort,
    pub destination: VPort,
    pub packet_type: PacketType,
    pub flags: PacketFlags,
    pub session_id: u8,
    pub signature: u32,
    pub fragment_id: Option<u8>,
    pub conn_signature: Option<u32>,
    pub sequence: u16,
    pub payload: Vec<u8>,
    pub checksum: u8,
    pub use_compression: bool,
}

impl View for QPacket {
    type V = QPacketView;

    open spec fn view(&self) -> QPacketView {
        QPacketView {
            source: self.source,
            destination: self.destination,
            packet_type: self.packet_type,
            flags: self.flags@,
            session_id: self.session_id,
            signature: self.signature,
            fragment_id: self.fragment_id,
            conn_signature: self.conn_signature,
            sequence: self.sequence,
            payload: self.payload@,
            checksum: self.checksum,
            use_compression: self.use_compression,
        }
    }
}

impl Default for QPacket {
    /// A Syn packet between two default ports, with no flags, no fields and
    /// an empty payload.
    fn default() -> (r: QPacket)
        ensures
            r@ == spec_default_packet(),
    {
        QPacket::new_default()
    }
}

/// The default packet.
pub open spec fn spec_default_packet() -> QPacketView {
    QPacketView {
        source: VPort { port: 0, stream_type: StreamType::DO },
        destination: VPort { port: 0, stream_type: StreamType::DO },
        packet_type: PacketType::Syn,
        flags: 0,
        session_id: 0,
        signature: 0,
        fragment_id: None,
        conn_signature: None,
        sequence: 0,
        payload: Seq::empty(),
        checksum: 0,
        use_compression: false,
    }
}

impl QPacket {
    /// The default packet.
    pub fn new_default() -> (r: QPacket)
        ensures
            r@ == spec_default_packet(),
    {
        QPacket {
            source: VPort { port: 0, stream_type: StreamType::DO },
            destination: VPort { port: 0, stream_type: StreamType::DO },
            packet_type: PacketType::Syn,
            flags: PacketFlags::empty(),
            session_id: 0,
            signature: 0,
            fragment_id: None,
            conn_signature: None,
            sequence: 0,
            payload: Vec::new(),
            checksum: 0,
            use_compression: false,
        }
    }

    /// Whether the packet has the fields that its type writes: a
    /// connection signature for Syn and Connect, a fragment id for Data.
    pub fn has_type_fields(&self) -> (r: bool)
        ensures
            r == fields_present(self@),
    {
        match self.packet_type {
            PacketType::Syn | PacketType::Connect => self.conn_signature.is_some(),
            PacketType::Data => self.fragment_id.is_some(),
            _ => true,
        }
    }

    /// Whether the payload size of the packet at the start of `data` can be
    /// worked out: false only for a packet without a size field whose
    /// header ends the data.
    pub fn payload_size_defined(data: &[u8]) -> (r: bool)
        ensures
            r == !size_underflows(data@),
    {
        match Self::header(data) {
            Ok((_, _, pt, bits)) => {
                let h = if pt.to_u8() == 0 || pt.to_u8() == 1 {
                    14usize
                } else if pt.to_u8() == 2 {
                    11usize
                } else {
                    10usize
                };
                !(bits & 8 != 8 && data.len() == h)
            },
            Err(_) => true,
        }
    }

    /// Whether reading the packet at the start of `data` decrypts a payload
    /// with the RC4 key of the context.
    pub fn reads_secure_payload(data: &[u8]) -> (r: bool)
        ensures
            r == reads_secure_payload(data@),
    {
        match Self::header(data) {
            Ok((src, _, pt, bits)) => {
                if pt.to_u8() == 0 || src.stream_type.to_u8() != 3 {
                    return false;
                }
                let len = data.len();
                let h: usize = if pt.to_u8() == 1 {
                    14
                } else if pt.to_u8() == 2 {
                    11
                } else {
                    10
                };
                if bits & 8 == 8 {
                    if len < h + 2 {
                        false
                    } else {
                        let size = u16_at(data, h) as usize;
                        len - (h + 2) >= size
                    }
                } else {
                    true
                }
            },
            Err(_) => false,
        }
    }

    /// Whether the packet is encrypted with the RC4 key of the context: a
    /// secure packet other than Syn.
    pub fn uses_crypto_key(&self) -> (r: bool)
        ensures
            r == is_encrypted(self.packet_type, self.source),
    {
        self.packet_type.to_u8() != 0 && self.source.stream_type.to_u8() == 3
    }

    fn header(data: &[u8]) -> (r: Result<(VPort, VPort, PacketType, u8), Error>)
        ensures
            r == spec_header(data@),
    {
        let len = data.len();
        if len < 1 {
            return Err(Error::IO(IoErrorKind::UnexpectedEof));
        }
        let src = match VPort::from_byte(data[0]) {
            Ok(v) => v,
            Err(e) => return Err(e),
        };
        if len < 2 {
            return Err(Error::IO(IoErrorKind::UnexpectedEof));
        }
        let dst = match VPort::from_byte(data[1]) {
            Ok(v) => v,
            Err(e) => return Err(e),
        };
        if len < 3 {
            return Err(Error::IO(IoErrorKind::UnexpectedEof));
        }
        let tf = data[2];
        let bits = tf / 8;
        if bits >= 16 {
            return Err(Error::InvalidFlag(bits / 16 * 16));
        }
        let pt = match PacketType::try_from_u8(tf % 8) {
            Ok(t) => t,
            Err(n) => return Err(Error::InvalidPacketType(n)),
        };
        let h: usize = if pt.to_u8() == 0 || pt.to_u8() == 1 {
            14
        } else if pt.to_u8() == 2 {
            11
        } else {
            10
        };
        if len < h {
            return Err(Error::IO(IoErrorKind::UnexpectedEof));
        }
        Ok((src, dst, pt, bits))
    }

    /// Reads a packet from the start of `data`; returns it and its length.
    pub fn decode(ctx: &Context, data: &[u8]) -> (r: Result<(QPacket, usize), Error>)
        requires
            reads_secure_payload(data@) ==> valid_rc4_key(ctx.crypto_key@),
            !size_underflows(data@),
        ensures
            match spec_qpacket(ctx.crypto_key@, data@) {
                Ok((v, n)) => r matches Ok((p, m)) && p@ == v && m == n,
                Err(e) => r == Err::<(QPacket, usize), Error>(e),
            },
    {
        let (source, destination, packet_type, bits) = match Self::header(data) {
            Ok(h) => h,
            Err(e) => return Err(e),
        };
        let flags = match PacketFlags::from_bits(bits) {
            Ok(f) => f,
            Err(b) => return Err(Error::InvalidFlag(b)),
        };
        let len = data.len();
        let session_id = data[3];
        let signature = u32_at(data, 4);
        let sequence = u16_at(data, 8);
        let pn = packet_type.to_u8();
        let (conn_signature, fragment_id, h) = if pn == 0 || pn == 1 {
            (Some(u32_at(data, 10)), None, 14usize)
        } else if pn == 2 {
            (None, Some(data[10]), 11usize)
        } else {
            (None, None, 10usize)
        };
        let sized = bits & 8 == 8;
        let (size, start) = if sized {
            if len < h + 2 {
                return Err(Error::IO(IoErrorKind::UnexpectedEof));
            }
            (u16_at(data, h) as usize, h + 2)
        } else {
            (len - h - 1, h)
        };
        if len - start < size {
            return Err(Error::IO(IoErrorKind::UnexpectedEof));
        }
        let raw = slice_vec(data, start, start + size);
        let encrypted = pn != 0 && source.stream_type.to_u8() == 3;
        let (payload, use_compression) = if encrypted {
            let dec = crypt_key(ctx.crypto_key.as_slice(), raw.as_slice());
            if dec.len() > 0 && dec[0] != 0 {
                let body = tail_vec(dec.as_slice(), 1);
                match decompress_to_vec_zlib(body.as_slice()) {
                    Ok(p) => (p, true),
                    Err(_) => return Err(Error::DecompressFailed),
                }
            } else if dec.len() > 0 {
                (tail_vec(dec.as_slice(), 1), false)
            } else {
                (dec, false)
            }
        } else {
            (raw, false)
        };
        if len - start - size < 1 {
            return Err(Error::IO(IoErrorKind::UnexpectedEof));
        }
        let checksum = data[start + size];
        let p = QPacket {
            source,
            destination,
            packet_type,
            flags,
            session_id,
            signature,
            fragment_id,
            conn_signature,
            sequence,
            payload,
            checksum,
            use_compression,
        };
        Ok((p, start + size + 1))
    }

    /// Reads a packet from the start of `data`; returns it and its length.
    pub fn from_bytes(ctx: &Context, data: &[u8]) -> (r: Result<(QPacket, u64), Error>)
        requires
            reads_secure_payload(data@) ==> valid_rc4_key(ctx.crypto_key@),
            !size_underflows(data@),
        ensures
            match spec_qpacket(ctx.crypto_key@, data@) {
                Ok((v, n)) => r matches Ok((p, m)) && p@ == v && m == n,
                Err(e) => r == Err::<(QPacket, u64), Error>(e),
            },
    {
        match Self::decode(ctx, data) {
            Ok((p, n)) => Ok((p, n as u64)),
            Err(e) => Err(e),
        }
    }

    /// Reads a packet from the stream, leaving the stream after it.
    pub fn from_reader(ctx: &Context, rdr: &mut ReadStream) -> (r: Result<QPacket, Error>)
        requires
            reads_secure_payload(old(rdr)@) ==> valid_rc4_key(ctx.crypto_key@),
            !size_underflows(old(rdr)@),
        ensures
            match spec_qpacket(ctx.crypto_key@, old(rdr)@) {
                Ok((v, n)) => r matches Ok(p) && p@ == v && final(rdr)@ == old(rdr)@.skip(n as int),
                Err(e) => r == Err::<QPacket, Error>(e),
            },
    {
        let rest = rdr.peek_all();
        match Self::decode(ctx, rest.as_slice()) {
            Ok((p, n)) => {
                match rdr.read_n_bytes(n) {
                    Ok(_) => {},
                    Err(_) => return Err(Error::IO(IoErrorKind::UnexpectedEof)),
                }
                Ok(p)
            },
            Err(e) => Err(e),
        }
    }

    /// The payload as it is sent: encoded, then encrypted on secure
    /// streams.
    fn payload_wire(&self, ctx: &Context) -> (r: Vec<u8>)
        requires
            key_serves(ctx.crypto_key@, self@),
        ensures
            r@ == spec_payload_wire(ctx.crypto_key@, self@),
    {
        let plain: Vec<u8> = if self.payload.len() == 0 {
            Vec::new()
        } else if self.use_compression {
            let c = compress_to_vec_zlib(self.payload.as_slice(), 6);
            let ratio = (((self.payload.len() / c.len()) % 256 + 1) % 256) as u8;
            let mut w = WriteStream::new();
            w.u8(ratio);
            w.write_n_bytes(c.as_slice());
            w.into_inner()
        } else {
            let mut w = WriteStream::new();
            w.u8(0);
            w.write_n_bytes(self.payload.as_slice());
            w.into_inner()
        };
        assert(plain@ =~= spec_payload_plain(self@));
        if self.packet_type.to_u8() != 0 && self.source.stream_type.to_u8() == 3 {
            crypt_key(ctx.crypto_key.as_slice(), plain.as_slice())
        } else {
            plain
        }
    }

    /// The packet's bytes without the checksum.
    pub fn to_data_bytes(&self, ctx: &Context) -> (r: Vec<u8>)
        requires
            key_serves(ctx.crypto_key@, self@),
            fields_present(self@),
        ensures
            r@ == spec_data_bytes(ctx.crypto_key@, self@),
    {
        let mut w = WriteStream::new();
        w.u8(self.source.to_byte());
        w.u8(self.destination.to_byte());
        let bits = self.flags.bits();
        w.u8(self.packet_type.to_u8() + bits * 8);
        w.u8(self.session_id);
        w.u32(self.signature);
        w.u16(self.sequence);
        let pn = self.packet_type.to_u8();
        if pn == 0 || pn == 1 {
            match self.conn_signature {
                Some(c) => {
                    w.u32(c);
                },
                None => {},
            }
        } else if pn == 2 {
            match self.fragment_id {
                Some(f) => {
                    w.u8(f);
                },
                None => {},
            }
        }
        let ghost head = w@;
        assert(head =~= spec_header_bytes(self@));
        let payload = self.payload_wire(ctx);
        if self.flags.contains(PacketFlag::HasSize) {
            w.u16((payload.len() % 0x1_0000) as u16);
        }
        w.write_n_bytes(payload.as_slice());
        assert(w@ =~= spec_data_bytes(ctx.crypto_key@, self@));
        w.into_inner()
    }

    /// The checksum that the packet should carry.
    pub fn calc_checksum(&self, ctx: &Context) -> (r: u8)
        requires
            key_serves(ctx.crypto_key@, self@),
            fields_present(self@),
        ensures
            r == spec_checksum(ctx.spec_key(self.destination.stream_type), spec_data_bytes(ctx.crypto_key@, self@)),
    {
        let data = self.to_data_bytes(ctx);
        calc_checksum_from_data(ctx.key(self.destination.stream_type), data.as_slice())
    }

    /// The signature of a data packet carrying `payload`: a fixed value for
    /// an empty payload, else the first four bytes, little endian, of the
    /// HMAC-MD5 of the payload keyed with the MD5 of the access key. Only
    /// data packets are signed this way.
    pub fn calc_signature(&self, ctx: &Context, payload: &[u8]) -> (r: u32)
        requires
            self.packet_type == PacketType::Data,
        ensures
            payload@.len() == 0 ==> r == 0x1234_5678,
            payload@.len() > 0 ==> r == le_u32(hmac_md5(md5(ctx.access_key@), payload@)),
    {
        if payload.len() == 0 {
            0x1234_5678
        } else {
            let key = md5_digest(ctx.access_key.as_slice());
            let tag = hmac_md5_tag(key.as_slice(), payload);
            let r = u32_at(tag.as_slice(), 0);
            assert(tag@.skip(0) =~= tag@);
            r
        }
    }

    /// The packet as it is sent: its bytes and their checksum.
    pub fn to_bytes(&self, ctx: &Context) -> (r: Vec<u8>)
        requires
            key_serves(ctx.crypto_key@, self@),
            fields_present(self@),
        ensures
            r@ == spec_packet_bytes(ctx.crypto_key@, ctx.spec_key(self.destination.stream_type), self@),
    {
        let mut data = self.to_data_bytes(ctx);
        let c = calc_checksum_from_data(ctx.key(self.destination.stream_type), data.as_slice());
        data.push(c);
        data
    }

    /// Checks the packet's checksum against the bytes it was read from
    /// (the checksum byte being the last of them).
    pub fn validate(&self, ctx: &Context, data: &[u8]) -> (r: Result<(), Error>)
        requires
            data@.len() >= 1,
        ensures
            r is Ok <==> self.checksum == spec_checksum(ctx.spec_key(self.destination.stream_type), data@.drop_last()),
            r is Err ==> r == Err::<(), Error>(Error::InvalidChecksum),
    {
        let body = slice_vec(data, 0, data.len() - 1);
        assert(body@ =~= data@.drop_last());
        if self.checksum != calc_checksum_from_data(ctx.key(self.destination.stream_type), body.as_slice()) {
            return Err(Error::InvalidChecksum);
        }
        Ok(())
    }
}

/// Reads a packet from the stream and checks its checksum.
pub fn parse(ctx: &Context, rdr: &mut ReadStream) -> (r: Result<QPacket, Error>)
    requires
        reads_secure_payload(old(rdr)@) ==> valid_rc4_key(ctx.crypto_key@),
        !size_underflows(old(rdr)@),
    ensures
        match spec_qpacket(ctx.crypto_key@, old(rdr)@) {
            Ok((v, n)) => final(rdr)@ == old(rdr)@.skip(n as int) && if v.checksum == spec_checksum(
                ctx.spec_key(v.destination.stream_type),
                old(rdr)@.subrange(0, n - 1),
            ) {
                r matches Ok(p) && p@ == v
            } else {
                r == Err::<QPacket, Error>(Error::InvalidChecksum)
            },
            Err(e) => r == Err::<QPacket, Error>(e),
        },
{
    let rest = rdr.peek_all();
    let p = match QPacket::from_reader(ctx, rdr) {
        Ok(p) => p,
        Err(e) => return Err(e),
    };
    let ghost n = spec_qpacket(ctx.crypto_key@, rest@)->Ok_0.1;
    let consumed = rest.len() - rdr.remaining_len();
    let data = slice_vec(rest.as_slice(), 0, consumed);
    assert(data@.drop_last() =~= rest@.subrange(0, n - 1));
    match p.validate(ctx, data.as_slice()) {
        Ok(()) => Ok(p),
        Err(e) => Err(e),
    }
}

// ---------------------------------------------------------------------------
// Laws
// ---------------------------------------------------------------------------

/// The packets that an encoding can carry unchanged but for the checksum:
/// a key that serves them, ports and flags in range, exactly the optional
/// fields that the type calls for, a payload that the receiving side
/// unwraps the same way, and a size that fits its field. An unencrypted
/// packet carries no payload; a compressed one is not empty, and its
/// compression ratio (payload length over compressed length) is not 255
/// modulo 256: the ratio byte is the ratio plus one in a byte, which is
/// zero exactly then and makes the receiver read the payload as
/// uncompressed.
pub open spec fn sendable(key: Seq<u8>, p: QPacketView) -> bool {
    &&& key_serves(key, p)
    &&& p.flags < 16
    &&& p.source.port < 16
    &&& p.destination.port < 16
    &&& (p.conn_signature is Some <==> has_conn_signature(p.packet_type))
    &&& (p.fragment_id is Some <==> has_fragment_id(p.packet_type))
    &&& if is_encrypted(p.packet_type, p.source) {
        p.use_compression ==> p.payload.len() > 0 && (p.payload.len() / zlib_deflate(p.payload, 6).len()) % 256
            != 255
    } else {
        p.payload.len() == 0 && !p.use_compression
    }
    &&& has_size(p.flags) ==> spec_payload_wire(key, p).len() < 0x1_0000
}

/// A sendable packet that carries the checksum of its bytes.
pub open spec fn encodable(key: Seq<u8>, checksum_key: u32, p: QPacketView) -> bool {
    &&& sendable(key, p)
    &&& p.checksum == spec_checksum(checksum_key, spec_data_bytes(key, p))
}

proof fn lemma_type_flag(n: u8, bits: u8)
    requires
        n < 8,
        bits < 16,
    ensures
        (n + bits * 8) / 8 == bits,
        (n + bits * 8) % 8 == n,
{
}

#[verifier::spinoff_prover]
proof fn lemma_header_roundtrip(key: Seq<u8>, checksum_key: u32, p: QPacketView)
    requires
        encodable(key, checksum_key, p),
    ensures
        ({
            let b = spec_packet_bytes(key, checksum_key, p);
            &&& spec_header(b) == Ok::<(VPort, VPort, PacketType, u8), Error>(
                (p.source, p.destination, p.packet_type, p.flags),
            )
            &&& b[3] == p.session_id
            &&& le_u32(b.skip(4)) == p.signature
            &&& le_u16(b.skip(8)) == p.sequence
            &&& has_conn_signature(p.packet_type) ==> le_u32(b.skip(10)) == p.conn_signature->Some_0
            &&& has_fragment_id(p.packet_type) ==> b[10] == p.fragment_id->Some_0
        }),
{
    let b = spec_packet_bytes(key, checksum_key, p);
    let head = spec_header_bytes(p);
    let pt = p.packet_type;
    assert(head.len() == header_len(pt));
    assert(b.subrange(0, head.len() as int) =~= head);
    lemma_vport_roundtrip(p.source);
    lemma_vport_roundtrip(p.destination);
    lemma_packet_type_roundtrip(pt);
    lemma_type_flag(pt.spec_number(), p.flags);
    assert(b[0] == head[0]);
    assert(b[1] == head[1]);
    assert(b[2] == head[2]);
    assert(b[3] == head[3]);
    lemma_u32_roundtrip(p.signature);
    lemma_u16_roundtrip(p.sequence);
    assert(b.skip(4).subrange(0, 4) =~= u32_bytes(p.signature));
    assert(b.skip(8).subrange(0, 2) =~= u16_bytes(p.sequence));
    if has_conn_signature(pt) {
        lemma_u32_roundtrip(p.conn_signature->Some_0);
        assert(b.skip(10).subrange(0, 4) =~= u32_bytes(p.conn_signature->Some_0));
    }
    if has_fragment_id(pt) {
        assert(b[10] == head[10]);
    }
}

/// The ratio byte in front of a compressed payload is zero only when the
/// compression ratio is 255 modulo 256.
pub proof fn lemma_ratio_nonzero(plen: nat, clen: nat)
    ensures
        (spec_ratio(plen, clen) == 0) == ((plen / clen) % 256 == 255),
{
}

proof fn lemma_unwrap_roundtrip(key: Seq<u8>, checksum_key: u32, p: QPacketView)
    requires
        encodable(key, checksum_key, p),
        p.use_compression ==> zlib_inflate(zlib_deflate(p.payload, 6)) == Some(p.payload),
    ensures
        (if is_encrypted(p.packet_type, p.source) {
            spec_unwrap_payload(spec_crypt(key, spec_payload_wire(key, p)))
        } else {
            Ok((spec_payload_wire(key, p), false))
        }) == Ok::<(Seq<u8>, bool), Error>((p.payload, p.use_compression)),
{
    lemma_ratio_nonzero(p.payload.len(), zlib_deflate(p.payload, 6).len());
    let w = spec_payload_wire(key, p);
    let plain = spec_payload_plain(p);
    if is_encrypted(p.packet_type, p.source) {
        lemma_crypt_involution(key, plain);
        assert(spec_crypt(key, w) =~= plain);
        assert(w == spec_crypt(key, plain));
        if p.payload.len() == 0 {
            assert(plain =~= Seq::<u8>::empty());
            assert(plain =~= p.payload);
            assert(spec_unwrap_payload(plain) == Ok::<(Seq<u8>, bool), Error>((p.payload, false)));
        } else if p.use_compression {
            let c = zlib_deflate(p.payload, 6);
            assert(plain == seq![spec_ratio(p.payload.len(), c.len())] + c);
            assert(plain.skip(1) =~= c);
            assert(plain[0] != 0);
            assert(spec_unwrap_payload(plain) == Ok::<(Seq<u8>, bool), Error>((p.payload, true)));
        } else {
            assert(plain.skip(1) =~= p.payload);
            assert(plain[0] == 0);
            assert(spec_unwrap_payload(plain) == Ok::<(Seq<u8>, bool), Error>((p.payload, false)));
        }
    } else {
        assert(plain =~= p.payload);
    }
}

/// Where the payload lies in the bytes of a packet: after the header and
/// the size field, if any, and before the checksum.
#[verifier::rlimit(100)]
#[verifier::spinoff_prover]
proof fn lemma_wire_layout(key: Seq<u8>, checksum_key: u32, p: QPacketView)
    requires
        p.flags < 16,
        has_size(p.flags) ==> spec_payload_wire(key, p).len() < 0x1_0000,
        (p.conn_signature is Some <==> has_conn_signature(p.packet_type)),
        (p.fragment_id is Some <==> has_fragment_id(p.packet_type)),
    ensures
        ({
            let b = spec_packet_bytes(key, checksum_key, p);
            let w = spec_payload_wire(key, p);
            let h = header_len(p.packet_type);
            let sized = has_size(p.flags);
            let start: int = if sized { h + 2 } else { h };
            &&& b.len() == start + w.len() + 1
            &&& sized ==> b.len() >= h + 2 && le_u16(b.skip(h)) == w.len()
            &&& b.subrange(start, start + w.len()) == w
            &&& b[start + w.len()] == spec_checksum(checksum_key, spec_data_bytes(key, p))
        }),
{
    let d = spec_data_bytes(key, p);
    let cs = spec_checksum(checksum_key, d);
    let b = spec_packet_bytes(key, checksum_key, p);
    assert(b == d + seq![cs]);
    let w = spec_payload_wire(key, p);
    let h = header_len(p.packet_type);
    let head = spec_header_bytes(p);
    assert(head.len() == h);
    let sized = has_size(p.flags);
    let sf = if sized { u16_bytes((w.len() % 0x1_0000) as u16) } else { Seq::<u8>::empty() };
    assert(d == head + sf + w);
    let start: int = if sized { h + 2 } else { h };
    assert(b.len() == start + w.len() + 1);
    if sized {
        lemma_u16_roundtrip(w.len() as u16);
        assert(b.skip(h).subrange(0, 2) =~= sf);
        assert(le_u16(b.skip(h)) == w.len());
    }
    assert(b.subrange(start, start + w.len()) =~= w);
    assert(b[start + w.len()] == cs);
}

#[verifier::rlimit(100)]
#[verifier::spinoff_prover]
proof fn lemma_payload_roundtrip(key: Seq<u8>, checksum_key: u32, p: QPacketView)
    requires
        encodable(key, checksum_key, p),
        p.use_compression ==> zlib_inflate(zlib_deflate(p.payload, 6)) == Some(p.payload),
    ensures
        ({
            let b = spec_packet_bytes(key, checksum_key, p);
            &&& spec_payload_part(
                key,
                b,
                header_len(p.packet_type),
                has_size(p.flags),
                is_encrypted(p.packet_type, p.source),
            ) == Ok::<(Seq<u8>, bool, u8, nat), Error>((p.payload, p.use_compression, p.checksum, b.len()))
            &&& b.len() > header_len(p.packet_type)
        }),
{
    lemma_wire_layout(key, checksum_key, p);
    lemma_unwrap_roundtrip(key, checksum_key, p);
}

/// Reading the bytes of a sendable packet gives the packet back, with the
/// checksum of its bytes in place of its own, and the length of the
/// bytes; compression is taken to be lossless on the payload
/// (`zlib_inflate` undoes `zlib_deflate`).
pub proof fn lemma_qpacket_roundtrip(key: Seq<u8>, checksum_key: u32, p: QPacketView)
    requires
        sendable(key, p),
        p.use_compression ==> zlib_inflate(zlib_deflate(p.payload, 6)) == Some(p.payload),
    ensures
        spec_qpacket(key, spec_packet_bytes(key, checksum_key, p)) == Ok::<(QPacketView, nat), Error>(
            (
                QPacketView { checksum: spec_checksum(checksum_key, spec_data_bytes(key, p)), ..p },
                spec_packet_bytes(key, checksum_key, p).len(),
            ),
        ),
        !size_underflows(spec_packet_bytes(key, checksum_key, p)),
{
    let q = QPacketView { checksum: spec_checksum(checksum_key, spec_data_bytes(key, p)), ..p };
    assert(spec_payload_plain(q) == spec_payload_plain(p));
    assert(spec_payload_wire(key, q) == spec_payload_wire(key, p));
    assert(spec_header_bytes(q) =~= spec_header_bytes(p));
    assert(spec_data_bytes(key, q) =~= spec_data_bytes(key, p));
    assert(spec_packet_bytes(key, checksum_key, q) =~= spec_packet_bytes(key, checksum_key, p));
    let b = spec_packet_bytes(key, checksum_key, q);
    lemma_header_roundtrip(key, checksum_key, q);
    lemma_payload_roundtrip(key, checksum_key, q);
    let (v, n) = spec_qpacket(key, b)->Ok_0;
    assert(v =~= q);
}

/// An encodable packet passes the checksum check on its own bytes.
pub proof fn lemma_checksum_valid(key: Seq<u8>, checksum_key: u32, p: QPacketView)
    requires
        p.checksum == spec_checksum(checksum_key, spec_data_bytes(key, p)),
    ensures
        p.checksum == spec_checksum(checksum_key, spec_packet_bytes(key, checksum_key, p).drop_last()),
{
    assert(spec_packet_bytes(key, checksum_key, p).drop_last() =~= spec_data_bytes(key, p));
}

/// The numbers of packet types (0 to 7: Syn, Connect, Data, Disconnect,
/// Ping, User, Route, Raw), of stream types (1 to 8: DO, RV, RVSec,
/// SBMGMT, NAT, SessionDiscovery, NATEcho, Routing) and the bits of the
/// flags (Ack 1, Reliable 2, NeedAck 4, HasSize 8), each number naming its
/// kind back.
pub proof fn lemma_packet_numbering(t: PacketType, st: StreamType, f: PacketFlag)
    ensures
        t.spec_number() == match t {
            PacketType::Syn => 0u8,
            PacketType::Connect => 1u8,
            PacketType::Data => 2u8,
            PacketType::Disconnect => 3u8,
            PacketType::Ping => 4u8,
            PacketType::User => 5u8,
            PacketType::Route => 6u8,
            PacketType::Raw => 7u8,
        },
        PacketType::spec_from_number(t.spec_number()) == Some(t),
        st.spec_number() == match st {
            StreamType::DO => 1u8,
            StreamType::RV => 2u8,
            StreamType::RVSec => 3u8,
            StreamType::SBMGMT => 4u8,
            StreamType::NAT => 5u8,
            StreamType::SessionDiscovery => 6u8,
            StreamType::NATEcho => 7u8,
            StreamType::Routing => 8u8,
        },
        StreamType::spec_from_number(st.spec_number()) == Some(st),
        StreamType::spec_from_number(0) is None,
        f.spec_bit() == match f {
            PacketFlag::Ack => 1u8,
            PacketFlag::Reliable => 2u8,
            PacketFlag::NeedAck => 4u8,
            PacketFlag::HasSize => 8u8,
        },
{
}

/// Where a packet's fields lie in the bytes it is read from: the source
/// and destination ports in the first two bytes (stream type in the high
/// half, port in the low), the type in the low three bits of the third
/// byte and the flags above them, the session id in the fourth byte, the
/// signature (little endian) in the next four and the sequence number in
/// the two after; then the connection signature of a Syn or Connect packet
/// (four bytes) or the fragment id of a Data packet (one byte), which end
/// the header. The checksum is the last byte read.
pub proof fn lemma_qpacket_layout(key: Seq<u8>, data: Seq<u8>)
    ensures
        spec_qpacket(key, data) matches Ok((p, n)) ==> {
            &&& p.source.port == data[0] % 16
            &&& p.source.stream_type.spec_number() == data[0] / 16
            &&& p.destination.port == data[1] % 16
            &&& p.destination.stream_type.spec_number() == data[1] / 16
            &&& p.packet_type.spec_number() == data[2] % 8
            &&& p.flags == data[2] / 8
            &&& p.session_id == data[3]
            &&& p.signature == le_u32(data.skip(4))
            &&& p.sequence == le_u16(data.skip(8))
            &&& (p.packet_type == PacketType::Syn || p.packet_type == PacketType::Connect) ==> p.conn_signature
                == Some(le_u32(data.skip(10)))
            &&& p.packet_type == PacketType::Data ==> p.fragment_id == Some(data[10])
            &&& header_len(p.packet_type) == if p.packet_type == PacketType::Syn || p.packet_type
                == PacketType::Connect {
                14int
            } else if p.packet_type == PacketType::Data {
                11int
            } else {
                10int
            }
            &&& 1 <= n <= data.len()
            &&& p.checksum == data[n - 1]
        },
{
}

} // verus!
