//! The Quazal stream encoding: little-endian integers, length-prefixed
//! buffers and strings, read from and written to in-memory byte streams.

use vstd::prelude::*;

verus! {

// ---------------------------------------------------------------------------
// Little-endian integers as byte sequences
// ---------------------------------------------------------------------------

/// The value of the first two bytes of `b`, little endian.
pub open spec fn le_u16(b: Seq<u8>) -> u16 {
    (b[0] as int + 256 * b[1] as int) as u16
}

/// The value of the first four bytes of `b`, little endian.
pub open spec fn le_u32(b: Seq<u8>) -> u32 {
    (b[0] as int + 0x100 * b[1] as int + 0x1_0000 * b[2] as int + 0x100_0000 * b[3] as int) as u32
}

/// The value of the first eight bytes of `b`, little endian.
pub open spec fn le_u64(b: Seq<u8>) -> u64 {
    (le_u32(b) as int + 0x1_0000_0000 * le_u32(b.skip(4)) as int) as u64
}

/// The two bytes of `v`, least significant first.
pub open spec fn u16_bytes(v: u16) -> Seq<u8> {
    seq![(v % 256) as u8, (v / 256) as u8]
}

/// The four bytes of `v`, least significant first.
pub open spec fn u32_bytes(v: u32) -> Seq<u8> {
    seq![
        (v % 0x100) as u8,
        ((v / 0x100) % 0x100) as u8,
        ((v / 0x1_0000) % 0x100) as u8,
        (v / 0x100_0000) as u8,
    ]
}

/// The eight bytes of `v`, least significant first.
pub open spec fn u64_bytes(v: u64) -> Seq<u8> {
    u32_bytes((v % 0x1_0000_0000) as u32) + u32_bytes((v / 0x1_0000_0000) as u32)
}

/// Reading back the bytes of a `u16` gives the value.
pub proof fn lemma_u16_roundtrip(v: u16)
    ensures
        u16_bytes(v).len() == 2,
        le_u16(u16_bytes(v)) == v,
{
}

/// Reading back the bytes of a `u32` gives the value.
pub proof fn lemma_u32_roundtrip(v: u32)
    ensures
        u32_bytes(v).len() == 4,
        le_u32(u32_bytes(v)) == v,
{
}

/// Reading back the bytes of a `u64` gives the value.
pub proof fn lemma_u64_roundtrip(v: u64)
    ensures
        u64_bytes(v).len() == 8,
        le_u64(u64_bytes(v)) == v,
{
    let lo = (v % 0x1_0000_0000) as u32;
    let hi = (v / 0x1_0000_0000) as u32;
    lemma_u32_roundtrip(lo);
    lemma_u32_roundtrip(hi);
    assert(u64_bytes(v).skip(4) =~= u32_bytes(hi));
    assert(u64_bytes(v).subrange(0, 4) =~= u32_bytes(lo));
}

/// Encoding the value read from four bytes gives those bytes back.
proof fn lemma_digits(b0: int, b1: int, b2: int, b3: int)
    requires
        0 <= b0 < 256,
        0 <= b1 < 256,
        0 <= b2 < 256,
        0 <= b3 < 256,
    ensures
        (b0 + 0x100 * b1 + 0x1_0000 * b2 + 0x100_0000 * b3) % 0x100 == b0,
        ((b0 + 0x100 * b1 + 0x1_0000 * b2 + 0x100_0000 * b3) / 0x100) % 0x100 == b1,
        ((b0 + 0x100 * b1 + 0x1_0000 * b2 + 0x100_0000 * b3) / 0x1_0000) % 0x100 == b2,
        (b0 + 0x100 * b1 + 0x1_0000 * b2 + 0x100_0000 * b3) / 0x100_0000 == b3,
{
    let x = b0 + 0x100 * b1 + 0x1_0000 * b2 + 0x100_0000 * b3;
    assert(x == b0 + 0x100 * (b1 + 0x100 * b2 + 0x1_0000 * b3));
    vstd::arithmetic::div_mod::lemma_fundamental_div_mod_converse(x, 0x100, b1 + 0x100 * b2 + 0x1_0000 * b3, b0);
    let y = b1 + 0x100 * b2 + 0x1_0000 * b3;
    assert(y == b1 + 0x100 * (b2 + 0x100 * b3));
    vstd::arithmetic::div_mod::lemma_fundamental_div_mod_converse(y, 0x100, b2 + 0x100 * b3, b1);
    assert(x == (b0 + 0x100 * b1) + 0x1_0000 * (b2 + 0x100 * b3));
    vstd::arithmetic::div_mod::lemma_fundamental_div_mod_converse(x, 0x1_0000, b2 + 0x100 * b3, b0 + 0x100 * b1);
    let z = b2 + 0x100 * b3;
    vstd::arithmetic::div_mod::lemma_fundamental_div_mod_converse(z, 0x100, b3, b2);
    assert(x == (b0 + 0x100 * b1 + 0x1_0000 * b2) + 0x100_0000 * b3);
    vstd::arithmetic::div_mod::lemma_fundamental_div_mod_converse(x, 0x100_0000, b3, b0 + 0x100 * b1 + 0x1_0000 * b2);
}

/// Encoding the value read from four bytes gives those bytes back.
pub proof fn lemma_le_u32_bytes(b: Seq<u8>)
    requires
        b.len() >= 4,
    ensures
        u32_bytes(le_u32(b)) =~= b.subrange(0, 4),
{
    lemma_digits(b[0] as int, b[1] as int, b[2] as int, b[3] as int);
}

/// Encoding the value read from two bytes gives those bytes back.
pub proof fn lemma_le_u16_bytes(b: Seq<u8>)
    requires
        b.len() >= 2,
    ensures
        u16_bytes(le_u16(b)) =~= b.subrange(0, 2),
{
}

/// The little-endian `u16` at `pos` in `data`.
pub fn u16_at(data: &[u8], pos: usize) -> (r: u16)
    requires
        pos + 2 <= data@.len(),
    ensures
        r == le_u16(data@.skip(pos as int)),
{
    data[pos] as u16 + 256 * data[pos + 1] as u16
}

/// The little-endian `u32` at `pos` in `data`.
pub fn u32_at(data: &[u8], pos: usize) -> (r: u32)
    requires
        pos + 4 <= data@.len(),
    ensures
        r == le_u32(data@.skip(pos as int)),
{
    data[pos] as u32 + 0x100 * data[pos + 1] as u32 + 0x1_0000 * data[pos + 2] as u32 + 0x100_0000 * data[pos + 3] as u32
}

/// A copy of `data[start..]`.
pub fn tail_vec(data: &[u8], start: usize) -> (r: Vec<u8>)
    requires
        start <= data@.len(),
    ensures
        r@ == data@.skip(start as int),
{
    let mut v: Vec<u8> = Vec::new();
    let mut i = start;
    while i < data.len()
        invariant
            start <= i <= data@.len(),
            v@ =~= data@.subrange(start as int, i as int),
        decreases data@.len() - i,
    {
        v.push(data[i]);
        i = i + 1;
    }
    v
}

/// A copy of `data[start..end]`.
pub fn slice_vec(data: &[u8], start: usize, end: usize) -> (r: Vec<u8>)
    requires
        start <= end <= data@.len(),
    ensures
        r@ == data@.subrange(start as int, end as int),
{
    let mut v: Vec<u8> = Vec::new();
    let mut i = start;
    while i < end
        invariant
            start <= i <= end,
            end <= data@.len(),
            v@ =~= data@.subrange(start as int, i as int),
        decreases end - i,
    {
        v.push(data[i]);
        i = i + 1;
    }
    v
}

pub fn u16_to_le(v: u16) -> (r: [u8; 2])
    ensures
        r@ == u16_bytes(v),
{
    [(v % 256) as u8, (v / 256) as u8]
}

pub fn u32_to_le(v: u32) -> (r: [u8; 4])
    ensures
        r@ == u32_bytes(v),
{
    [(v % 0x100) as u8, ((v / 0x100) % 0x100) as u8, ((v / 0x1_0000) % 0x100) as u8, (v / 0x100_0000) as u8]
}


// ---------------------------------------------------------------------------
// Errors
// ---------------------------------------------------------------------------

/// The kinds of input failure that a stream read reports.
#[derive(Debug, Clone, Copy, PartialEq, Eq, Structural)]
pub enum IoErrorKind {
    /// The stream ended before the value was complete.
    UnexpectedEof,
    /// The bytes do not form a valid value.
    InvalidData,
}

/// Why reading a value from a stream failed.
#[derive(Debug, Clone, Copy, PartialEq, Eq, Structural)]
pub enum FromStreamError {
    IO(IoErrorKind),
    ParseInt,
    ParseStationURL(crate::rmc::types::StationURLParseError),
    ParseCString,
    Utf8,
}

/// Why writing a value to a stream failed.
#[derive(Debug, Clone, Copy, PartialEq, Eq, Structural)]
pub enum ToStreamError {
    IO,
}

pub open spec fn eof() -> FromStreamError {
    FromStreamError::IO(IoErrorKind::UnexpectedEof)
}

// ---------------------------------------------------------------------------
// Reading
// ---------------------------------------------------------------------------

/// A cursor over a byte buffer; its view is the part not yet read.
pub struct ReadStream {
    data: Vec<u8>,
    pos: usize,
}

impl View for ReadStream {
    type V = Seq<u8>;

    closed spec fn view(&self) -> Seq<u8> {
        self.data@.subrange(self.pos as int, self.data@.len() as int)
    }
}

impl ReadStream {
    #[verifier::type_invariant]
    spec fn inv(&self) -> bool {
        self.pos <= self.data@.len()
    }

    /// A stream over the given buffer, positioned at its start.
    pub fn from_reader(data: Vec<u8>) -> (r: Self)
        ensures
            r@ == data@,
    {
        let r = ReadStream { data, pos: 0 };
        assert(r.data@.subrange(0, r.data@.len() as int) =~= r.data@);
        r
    }

    /// A stream over a copy of the given bytes.
    pub fn from_bytes(data: &[u8]) -> (r: Self)
        ensures
            r@ == data@,
    {
        let mut v: Vec<u8> = Vec::new();
        let mut i: usize = 0;
        while i < data.len()
            invariant
                i <= data@.len(),
                v@ =~= data@.subrange(0, i as int),
            decreases data@.len() - i,
        {
            v.push(data[i]);
            i = i + 1;
        }
        assert(v@ =~= data@);
        Self::from_reader(v)
    }

    /// A copy of the bytes not yet read; the stream is left as it is.
    pub fn peek_all(&self) -> (r: Vec<u8>)
        ensures
            r@ == self@,
    {
        proof {
            use_type_invariant(self);
        }
        slice_vec(self.data.as_slice(), self.pos, self.data.len())
    }

    /// The number of bytes not yet read.
    pub fn remaining_len(&self) -> (n: usize)
        ensures
            n == self@.len(),
    {
        proof {
            use_type_invariant(self);
        }
        self.data.len() - self.pos
    }

    /// Reads `n` bytes, or fails with `UnexpectedEof` when fewer remain.
    pub fn read_n_bytes(&mut self, n: usize) -> (r: Result<Vec<u8>, FromStreamError>)
        ensures
            n <= old(self)@.len() ==> r == Ok::<Vec<u8>, FromStreamError>(r->Ok_0)
                && r->Ok_0@ == old(self)@.subrange(0, n as int)
                && final(self)@ == old(self)@.skip(n as int),
            n > old(self)@.len() ==> r == Err::<Vec<u8>, FromStreamError>(eof())
                && final(self)@ == old(self)@,
    {
        proof {
            use_type_invariant(&*self);
        }
        if n > self.data.len() - self.pos {
            return Err(FromStreamError::IO(IoErrorKind::UnexpectedEof));
        }
        let mut v: Vec<u8> = Vec::new();
        let mut i: usize = 0;
        while i < n
            invariant
                i <= n,
                self.pos + n <= self.data.len(),
                v@ =~= self.data@.subrange(self.pos as int, self.pos + i),
            decreases n - i,
        {
            v.push(self.data[self.pos + i]);
            i = i + 1;
        }
        let ghost before = self@;
        self.pos = self.pos + n;
        assert(self@ =~= before.skip(n as int));
        assert(v@ =~= before.subrange(0, n as int));
        Ok(v)
    }

    /// Reads everything that remains.
    pub fn read_all(&mut self) -> (r: Result<Vec<u8>, FromStreamError>)
        ensures
            r == Ok::<Vec<u8>, FromStreamError>(r->Ok_0),
            r->Ok_0@ == old(self)@,
            final(self)@.len() == 0,
    {
        let n = self.remaining_len();
        let r = self.read_n_bytes(n);
        assert(old(self)@.subrange(0, n as int) =~= old(self)@);
        r
    }

    pub fn u8(&mut self) -> (r: Result<u8, FromStreamError>)
        ensures
            old(self)@.len() >= 1 ==> r == Ok::<u8, FromStreamError>(old(self)@[0])
                && final(self)@ == old(self)@.skip(1),
            old(self)@.len() < 1 ==> r == Err::<u8, FromStreamError>(eof()) && final(self)@ == old(self)@,
    {
        proof {
            use_type_invariant(&*self);
        }
        if self.pos >= self.data.len() {
            return Err(FromStreamError::IO(IoErrorKind::UnexpectedEof));
        }
        let b = self.data[self.pos];
        let ghost before = self@;
        self.pos = self.pos + 1;
        assert(self@ =~= before.skip(1));
        Ok(b)
    }

    pub fn u16(&mut self) -> (r: Result<u16, FromStreamError>)
        ensures
            old(self)@.len() >= 2 ==> r == Ok::<u16, FromStreamError>(le_u16(old(self)@))
                && final(self)@ == old(self)@.skip(2),
            old(self)@.len() < 2 ==> r == Err::<u16, FromStreamError>(eof()) && final(self)@ == old(self)@,
    {
        proof {
            use_type_invariant(&*self);
        }
        if self.data.len() - self.pos < 2 {
            return Err(FromStreamError::IO(IoErrorKind::UnexpectedEof));
        }
        let b0 = self.data[self.pos] as u16;
        let b1 = self.data[self.pos + 1] as u16;
        let ghost before = self@;
        self.pos = self.pos + 2;
        assert(self@ =~= before.skip(2));
        Ok(b0 + 256 * b1)
    }

    pub fn u32(&mut self) -> (r: Result<u32, FromStreamError>)
        ensures
            old(self)@.len() >= 4 ==> r == Ok::<u32, FromStreamError>(le_u32(old(self)@))
                && final(self)@ == old(self)@.skip(4),
            old(self)@.len() < 4 ==> r == Err::<u32, FromStreamError>(eof()) && final(self)@ == old(self)@,
    {
        proof {
            use_type_invariant(&*self);
        }
        if self.data.len() - self.pos < 4 {
            return Err(FromStreamError::IO(IoErrorKind::UnexpectedEof));
        }
        let p = self.pos;
        let b0 = self.data[p] as u32;
        let b1 = self.data[p + 1] as u32;
        let b2 = self.data[p + 2] as u32;
        let b3 = self.data[p + 3] as u32;
        let ghost before = self@;
        self.pos = p + 4;
        assert(self@ =~= before.skip(4));
        Ok(b0 + 0x100 * b1 + 0x1_0000 * b2 + 0x100_0000 * b3)
    }

    pub fn u64(&mut self) -> (r: Result<u64, FromStreamError>)
        ensures
            old(self)@.len() >= 8 ==> r == Ok::<u64, FromStreamError>(le_u64(old(self)@))
                && final(self)@ == old(self)@.skip(8),
            old(self)@.len() < 8 ==> r == Err::<u64, FromStreamError>(eof()) && final(self)@ == old(self)@,
    {
        proof {
            use_type_invariant(&*self);
        }
        if self.data.len() - self.pos < 8 {
            return Err(FromStreamError::IO(IoErrorKind::UnexpectedEof));
        }
        let ghost before = self@;
        let lo = match self.u32() {
            Ok(v) => v,
            Err(e) => return Err(e),
        };
        let hi = match self.u32() {
            Ok(v) => v,
            Err(e) => return Err(e),
        };
        assert(before.skip(4).skip(4) =~= before.skip(8));
        Ok(lo as u64 + 0x1_0000_0000 * hi as u64)
    }

    pub fn i8(&mut self) -> (r: Result<i8, FromStreamError>)
        ensures
            old(self)@.len() >= 1 ==> r == Ok::<i8, FromStreamError>(old(self)@[0] as i8)
                && final(self)@ == old(self)@.skip(1),
            old(self)@.len() < 1 ==> r == Err::<i8, FromStreamError>(eof()) && final(self)@ == old(self)@,
    {
        match self.u8() {
            Ok(v) => Ok(v as i8),
            Err(e) => Err(e),
        }
    }

    pub fn i16(&mut self) -> (r: Result<i16, FromStreamError>)
        ensures
            old(self)@.len() >= 2 ==> r == Ok::<i16, FromStreamError>(le_u16(old(self)@) as i16)
                && final(self)@ == old(self)@.skip(2),
            old(self)@.len() < 2 ==> r == Err::<i16, FromStreamError>(eof()) && final(self)@ == old(self)@,
    {
        match self.u16() {
            Ok(v) => Ok(v as i16),
            Err(e) => Err(e),
        }
    }

    pub fn i32(&mut self) -> (r: Result<i32, FromStreamError>)
        ensures
            old(self)@.len() >= 4 ==> r == Ok::<i32, FromStreamError>(le_u32(old(self)@) as i32)
                && final(self)@ == old(self)@.skip(4),
            old(self)@.len() < 4 ==> r == Err::<i32, FromStreamError>(eof()) && final(self)@ == old(self)@,
    {
        match self.u32() {
            Ok(v) => Ok(v as i32),
            Err(e) => Err(e),
        }
    }

    pub fn i64(&mut self) -> (r: Result<i64, FromStreamError>)
        ensures
            old(self)@.len() >= 8 ==> r == Ok::<i64, FromStreamError>(le_u64(old(self)@) as i64)
                && final(self)@ == old(self)@.skip(8),
            old(self)@.len() < 8 ==> r == Err::<i64, FromStreamError>(eof()) && final(self)@ == old(self)@,
    {
        match self.u64() {
            Ok(v) => Ok(v as i64),
            Err(e) => Err(e),
        }
    }

    /// Reads one byte; any value but zero is `true`.
    pub fn bool(&mut self) -> (r: Result<bool, FromStreamError>)
        ensures
            old(self)@.len() >= 1 ==> r == Ok::<bool, FromStreamError>(old(self)@[0] != 0)
                && final(self)@ == old(self)@.skip(1),
            old(self)@.len() < 1 ==> r == Err::<bool, FromStreamError>(eof()) && final(self)@ == old(self)@,
    {
        match self.u8() {
            Ok(b) => Ok(b != 0),
            Err(e) => Err(e),
        }
    }

    /// Reads a buffer prefixed by its length as one byte.
    pub fn buf_u8(&mut self) -> (r: Result<Vec<u8>, FromStreamError>)
        ensures
            match spec_buf(old(self)@, 1) {
                Ok((b, n)) => r == Ok::<Vec<u8>, FromStreamError>(r->Ok_0) && r->Ok_0@ == b
                    && final(self)@ == old(self)@.skip(n as int),
                Err(e) => r == Err::<Vec<u8>, FromStreamError>(e),
            },
    {
        let l = match self.u8() {
            Ok(l) => l,
            Err(e) => return Err(e),
        };
        let r = self.read_n_bytes(l as usize);
        proof {
            if 1 + l as int <= old(self)@.len() {
                lemma_skip_skip(old(self)@, 1, l as int);
            }
        }
        r
    }

    /// Reads a buffer prefixed by its length as a little-endian `u16`.
    pub fn buf_u16(&mut self) -> (r: Result<Vec<u8>, FromStreamError>)
        ensures
            match spec_buf(old(self)@, 2) {
                Ok((b, n)) => r == Ok::<Vec<u8>, FromStreamError>(r->Ok_0) && r->Ok_0@ == b
                    && final(self)@ == old(self)@.skip(n as int),
                Err(e) => r == Err::<Vec<u8>, FromStreamError>(e),
            },
    {
        let l = match self.u16() {
            Ok(l) => l,
            Err(e) => return Err(e),
        };
        let r = self.read_n_bytes(l as usize);
        proof {
            if 2 + l as int <= old(self)@.len() {
                lemma_skip_skip(old(self)@, 2, l as int);
            }
        }
        r
    }

    /// Reads a buffer prefixed by its length as a little-endian `u32`.
    pub fn buf_u32(&mut self) -> (r: Result<Vec<u8>, FromStreamError>)
        ensures
            match spec_buf(old(self)@, 4) {
                Ok((b, n)) => r == Ok::<Vec<u8>, FromStreamError>(r->Ok_0) && r->Ok_0@ == b
                    && final(self)@ == old(self)@.skip(n as int),
                Err(e) => r == Err::<Vec<u8>, FromStreamError>(e),
            },
    {
        let l = match self.u32() {
            Ok(l) => l,
            Err(e) => return Err(e),
        };
        let r = self.read_n_bytes(l as usize);
        proof {
            if 4 + l as int <= old(self)@.len() {
                lemma_skip_skip(old(self)@, 4, l as int);
            }
        }
        r
    }

    /// Reads one value of type `F`.
    pub fn read<F: FromStream>(&mut self) -> (r: Result<F, FromStreamError>)
        ensures
            decoded::<F>(old(self)@, final(self)@, r),
    {
        F::from_stream(self)
    }
}


/// The length prefix of `width` bytes (1, 2 or 4) at the start of `data`.
pub open spec fn spec_len_prefix(data: Seq<u8>, width: nat) -> nat {
    if width == 1 {
        data[0] as nat
    } else if width == 2 {
        le_u16(data) as nat
    } else {
        le_u32(data) as nat
    }
}

/// A length-prefixed buffer at the start of `data`: its contents and the
/// number of bytes it occupies, or why it cannot be read.
pub open spec fn spec_buf(data: Seq<u8>, width: nat) -> Result<(Seq<u8>, nat), FromStreamError> {
    if data.len() < width {
        Err(eof())
    } else {
        let l = spec_len_prefix(data, width);
        if data.len() - width < l {
            Err(eof())
        } else {
            Ok((data.subrange(width as int, (width + l) as int), width + l))
        }
    }
}

pub proof fn lemma_skip_skip<T>(s: Seq<T>, a: int, b: int)
    requires
        0 <= a,
        0 <= b,
        a + b <= s.len(),
    ensures
        s.skip(a).skip(b) =~= s.skip(a + b),
        s.skip(a).subrange(0, b) =~= s.subrange(a, a + b),
{
}

/// What reading a `T` from a stream whose remaining bytes were `before`
/// gives: the value and the rest of the stream, or the error.
pub open spec fn decoded<T: FromStream>(
    before: Seq<u8>,
    after: Seq<u8>,
    r: Result<T, FromStreamError>,
) -> bool {
    match T::spec_from_stream(before) {
        Ok((v, n)) => {
            &&& r is Ok
            &&& r->Ok_0.deep_view() == v
            &&& n <= before.len()
            &&& after == before.skip(n as int)
        },
        Err(e) => r == Err::<T, FromStreamError>(e),
    }
}

/// A type that can be read from a stream in the Quazal encoding.
pub trait FromStream: Sized + DeepView {
    /// The value at the start of `data` and the number of bytes it occupies,
    /// or why none can be read.
    spec fn spec_from_stream(data: Seq<u8>) -> Result<(<Self as DeepView>::V, nat), FromStreamError>;

    /// Reads a single instance from the given stream.
    fn from_stream(stream: &mut ReadStream) -> (r: Result<Self, FromStreamError>)
        ensures
            match Self::spec_from_stream(old(stream)@) {
                Ok((v, n)) => {
                    &&& r is Ok
                    &&& r->Ok_0.deep_view() == v
                    &&& n <= old(stream)@.len()
                    &&& final(stream)@ == old(stream)@.skip(n as int)
                },
                Err(e) => r == Err::<Self, FromStreamError>(e),
            },
    ;

    /// Reads a single instance from the start of `data`; trailing bytes are
    /// ignored.
    fn from_bytes(data: &[u8]) -> (r: Result<Self, FromStreamError>)
        ensures
            match Self::spec_from_stream(data@) {
                Ok((v, n)) => r is Ok && r->Ok_0.deep_view() == v,
                Err(e) => r == Err::<Self, FromStreamError>(e),
            },
    {
        let mut s = ReadStream::from_bytes(data);
        Self::from_stream(&mut s)
    }
}

// ---------------------------------------------------------------------------
// Writing
// ---------------------------------------------------------------------------

/// A growable output buffer; its view is everything written so far.
pub struct WriteStream {
    buf: Vec<u8>,
}

impl View for WriteStream {
    type V = Seq<u8>;

    closed spec fn view(&self) -> Seq<u8> {
        self.buf@
    }
}

impl WriteStream {
    /// A stream that appends to the given buffer.
    pub fn from_writer(buf: Vec<u8>) -> (r: Self)
        ensures
            r@ == buf@,
    {
        WriteStream { buf }
    }

    /// An empty stream.
    pub fn new() -> (r: Self)
        ensures
            r@ == Seq::<u8>::empty(),
    {
        WriteStream { buf: Vec::new() }
    }

    /// The bytes written.
    pub fn into_inner(self) -> (r: Vec<u8>)
        ensures
            r@ == self@,
    {
        self.buf
    }

    /// The number of bytes written.
    pub fn len(&self) -> (n: usize)
        ensures
            n == self@.len(),
    {
        self.buf.len()
    }

    pub fn u8(&mut self, value: u8) -> (n: usize)
        ensures
            final(self)@ == old(self)@.push(value),
            n == 1,
    {
        self.buf.push(value);
        1
    }

    pub fn u16(&mut self, value: u16) -> (n: usize)
        ensures
            final(self)@ == old(self)@ + u16_bytes(value),
            n == 2,
    {
        self.buf.push((value % 256) as u8);
        self.buf.push((value / 256) as u8);
        assert(self.buf@ =~= old(self)@ + u16_bytes(value));
        2
    }

    pub fn u32(&mut self, value: u32) -> (n: usize)
        ensures
            final(self)@ == old(self)@ + u32_bytes(value),
            n == 4,
    {
        self.buf.push((value % 0x100) as u8);
        self.buf.push(((value / 0x100) % 0x100) as u8);
        self.buf.push(((value / 0x1_0000) % 0x100) as u8);
        self.buf.push((value / 0x100_0000) as u8);
        assert(self.buf@ =~= old(self)@ + u32_bytes(value));
        4
    }

    pub fn u64(&mut self, value: u64) -> (n: usize)
        ensures
            final(self)@ == old(self)@ + u64_bytes(value),
            n == 8,
    {
        self.u32((value % 0x1_0000_0000) as u32);
        self.u32((value / 0x1_0000_0000) as u32);
        assert(self.buf@ =~= old(self)@ + u64_bytes(value));
        8
    }

    pub fn i8(&mut self, value: i8) -> (n: usize)
        ensures
            final(self)@ == old(self)@.push(value as u8),
            n == 1,
    {
        self.u8(value as u8)
    }

    pub fn i16(&mut self, value: i16) -> (n: usize)
        ensures
            final(self)@ == old(self)@ + u16_bytes(value as u16),
            n == 2,
    {
        self.u16(value as u16)
    }

    pub fn i32(&mut self, value: i32) -> (n: usize)
        ensures
            final(self)@ == old(self)@ + u32_bytes(value as u32),
            n == 4,
    {
        self.u32(value as u32)
    }

    pub fn i64(&mut self, value: i64) -> (n: usize)
        ensures
            final(self)@ == old(self)@ + u64_bytes(value as u64),
            n == 8,
    {
        self.u64(value as u64)
    }

    /// Writes `1` for `true` and `0` for `false`.
    pub fn bool(&mut self, value: bool) -> (n: usize)
        ensures
            final(self)@ == old(self)@.push(if value { 1u8 } else { 0u8 }),
            n == 1,
    {
        self.u8(if value { 1 } else { 0 })
    }

    /// Writes the bytes as they are; returns their number.
    pub fn write_n_bytes(&mut self, data: &[u8]) -> (n: usize)
        ensures
            final(self)@ == old(self)@ + data@,
            n == data@.len(),
    {
        let mut i: usize = 0;
        while i < data.len()
            invariant
                i <= data@.len(),
                self.buf@ =~= old(self)@ + data@.subrange(0, i as int),
            decreases data@.len() - i,
        {
            self.buf.push(data[i]);
            i = i + 1;
        }
        assert(data@.subrange(0, data@.len() as int) =~= data@);
        data.len()
    }

    /// Writes the length as one byte (keeping its low eight bits), then the
    /// bytes; returns the number of bytes of `data`.
    pub fn buf_u8(&mut self, data: &[u8]) -> (n: usize)
        ensures
            final(self)@ == old(self)@.push((data@.len() % 0x100) as u8) + data@,
            n == data@.len(),
    {
        self.u8((data.len() % 0x100) as u8);
        self.write_n_bytes(data)
    }

    /// Writes the length as a little-endian `u16` (keeping its low sixteen
    /// bits), then the bytes; returns the number of bytes of `data`.
    pub fn buf_u16(&mut self, data: &[u8]) -> (n: usize)
        ensures
            final(self)@ == old(self)@ + u16_bytes((data@.len() % 0x1_0000) as u16) + data@,
            n == data@.len(),
    {
        self.u16((data.len() % 0x1_0000) as u16);
        self.write_n_bytes(data)
    }

    /// Writes the length as a little-endian `u32` (keeping its low 32 bits),
    /// then the bytes; returns the number of bytes of `data`.
    pub fn buf_u32(&mut self, data: &[u8]) -> (n: usize)
        ensures
            final(self)@ == old(self)@ + u32_bytes((data@.len() % 0x1_0000_0000) as u32) + data@,
            n == data@.len(),
    {
        self.u32((data.len() as u64 % 0x1_0000_0000) as u32);
        self.write_n_bytes(data)
    }

    /// Writes one value; returns the number of bytes written.
    pub fn write<T: ToStream>(&mut self, value: &T) -> (n: usize)
        ensures
            final(self)@ == old(self)@ + T::spec_to_stream(value.deep_view()),
            n == T::spec_to_stream(value.deep_view()).len(),
    {
        value.to_stream(self)
    }
}

/// A type that can be written to a stream in the Quazal encoding.
pub trait ToStream: DeepView {
    /// The bytes that encode `v`.
    spec fn spec_to_stream(v: <Self as DeepView>::V) -> Seq<u8>;

    /// Writes the instance; returns the number of bytes written.
    fn to_stream(&self, stream: &mut WriteStream) -> (n: usize)
        ensures
            final(stream)@ == old(stream)@ + Self::spec_to_stream(self.deep_view()),
            n == Self::spec_to_stream(self.deep_view()).len(),
    ;

    /// The encoding as a byte vector.
    fn to_bytes(&self) -> (r: Vec<u8>)
        ensures
            r@ == Self::spec_to_stream(self.deep_view()),
    {
        let mut s = WriteStream::new();
        self.to_stream(&mut s);
        assert(s@ =~= Self::spec_to_stream(self.deep_view()));
        s.into_inner()
    }
}

// ---------------------------------------------------------------------------
// Encodings of the primitive types
// ---------------------------------------------------------------------------

/// The first `n` bytes of `data` read as a value with `f`, or `UnexpectedEof`.
pub open spec fn spec_fixed<V>(data: Seq<u8>, n: nat, v: V) -> Result<(V, nat), FromStreamError> {
    if data.len() >= n {
        Ok((v, n))
    } else {
        Err(eof())
    }
}

impl FromStream for u8 {
    open spec fn spec_from_stream(data: Seq<u8>) -> Result<(u8, nat), FromStreamError> {
        spec_fixed(data, 1, data[0])
    }

    fn from_stream(stream: &mut ReadStream) -> (r: Result<u8, FromStreamError>) {
        stream.u8()
    }
}

impl ToStream for u8 {
    open spec fn spec_to_stream(v: u8) -> Seq<u8> {
        seq![v]
    }

    fn to_stream(&self, stream: &mut WriteStream) -> (n: usize) {
        let n = stream.u8(*self);
        assert(stream@ =~= old(stream)@ + seq![*self]);
        n
    }
}

impl FromStream for u16 {
    open spec fn spec_from_stream(data: Seq<u8>) -> Result<(u16, nat), FromStreamError> {
        spec_fixed(data, 2, le_u16(data))
    }

    fn from_stream(stream: &mut ReadStream) -> (r: Result<u16, FromStreamError>) {
        stream.u16()
    }
}

impl ToStream for u16 {
    open spec fn spec_to_stream(v: u16) -> Seq<u8> {
        u16_bytes(v)
    }

    fn to_stream(&self, stream: &mut WriteStream) -> (n: usize) {
        stream.u16(*self)
    }
}

impl FromStream for u32 {
    open spec fn spec_from_stream(data: Seq<u8>) -> Result<(u32, nat), FromStreamError> {
        spec_fixed(data, 4, le_u32(data))
    }

    fn from_stream(stream: &mut ReadStream) -> (r: Result<u32, FromStreamError>) {
        stream.u32()
    }
}

impl ToStream for u32 {
    open spec fn spec_to_stream(v: u32) -> Seq<u8> {
        u32_bytes(v)
    }

    fn to_stream(&self, stream: &mut WriteStream) -> (n: usize) {
        stream.u32(*self)
    }
}

impl FromStream for u64 {
    open spec fn spec_from_stream(data: Seq<u8>) -> Result<(u64, nat), FromStreamError> {
        spec_fixed(data, 8, le_u64(data))
    }

    fn from_stream(stream: &mut ReadStream) -> (r: Result<u64, FromStreamError>) {
        stream.u64()
    }
}

impl ToStream for u64 {
    open spec fn spec_to_stream(v: u64) -> Seq<u8> {
        u64_bytes(v)
    }

    fn to_stream(&self, stream: &mut WriteStream) -> (n: usize) {
        stream.u64(*self)
    }
}

impl FromStream for i8 {
    open spec fn spec_from_stream(data: Seq<u8>) -> Result<(i8, nat), FromStreamError> {
        spec_fixed(data, 1, data[0] as i8)
    }

    fn from_stream(stream: &mut ReadStream) -> (r: Result<i8, FromStreamError>) {
        stream.i8()
    }
}

impl ToStream for i8 {
    open spec fn spec_to_stream(v: i8) -> Seq<u8> {
        seq![v as u8]
    }

    fn to_stream(&self, stream: &mut WriteStream) -> (n: usize) {
        let n = stream.i8(*self);
        assert(stream@ =~= old(stream)@ + seq![*self as u8]);
        n
    }
}

impl FromStream for i16 {
    open spec fn spec_from_stream(data: Seq<u8>) -> Result<(i16, nat), FromStreamError> {
        spec_fixed(data, 2, le_u16(data) as i16)
    }

    fn from_stream(stream: &mut ReadStream) -> (r: Result<i16, FromStreamError>) {
        stream.i16()
    }
}

impl ToStream for i16 {
    open spec fn spec_to_stream(v: i16) -> Seq<u8> {
        u16_bytes(v as u16)
    }

    fn to_stream(&self, stream: &mut WriteStream) -> (n: usize) {
        stream.i16(*self)
    }
}

impl FromStream for i32 {
    open spec fn spec_from_stream(data: Seq<u8>) -> Result<(i32, nat), FromStreamError> {
        spec_fixed(data, 4, le_u32(data) as i32)
    }

    fn from_stream(stream: &mut ReadStream) -> (r: Result<i32, FromStreamError>) {
        stream.i32()
    }
}

impl ToStream for i32 {
    open spec fn spec_to_stream(v: i32) -> Seq<u8> {
        u32_bytes(v as u32)
    }

    fn to_stream(&self, stream: &mut WriteStream) -> (n: usize) {
        stream.i32(*self)
    }
}

impl FromStream for i64 {
    open spec fn spec_from_stream(data: Seq<u8>) -> Result<(i64, nat), FromStreamError> {
        spec_fixed(data, 8, le_u64(data) as i64)
    }

    fn from_stream(stream: &mut ReadStream) -> (r: Result<i64, FromStreamError>) {
        stream.i64()
    }
}

impl ToStream for i64 {
    open spec fn spec_to_stream(v: i64) -> Seq<u8> {
        u64_bytes(v as u64)
    }

    fn to_stream(&self, stream: &mut WriteStream) -> (n: usize) {
        stream.i64(*self)
    }
}

impl FromStream for bool {
    open spec fn spec_from_stream(data: Seq<u8>) -> Result<(bool, nat), FromStreamError> {
        spec_fixed(data, 1, data[0] != 0)
    }

    fn from_stream(stream: &mut ReadStream) -> (r: Result<bool, FromStreamError>) {
        stream.bool()
    }
}

impl ToStream for bool {
    open spec fn spec_to_stream(v: bool) -> Seq<u8> {
        seq![if v { 1u8 } else { 0u8 }]
    }

    fn to_stream(&self, stream: &mut WriteStream) -> (n: usize) {
        let n = stream.bool(*self);
        assert(stream@ =~= old(stream)@ + seq![if *self { 1u8 } else { 0u8 }]);
        n
    }
}

/// Sixteen raw bytes, as a session key is stored.
impl FromStream for [u8; 16] {
    open spec fn spec_from_stream(data: Seq<u8>) -> Result<(Seq<u8>, nat), FromStreamError> {
        spec_fixed(data, 16, data.subrange(0, 16))
    }

    #[verifier::spinoff_prover]
    fn from_stream(stream: &mut ReadStream) -> (r: Result<[u8; 16], FromStreamError>) {
        let ghost d = stream@;
        let buf = match stream.read_n_bytes(16) {
            Ok(b) => b,
            Err(e) => {
                assert(d.len() < 16);
                assert(e == eof());
                assert(spec_fixed(d, 16, d.subrange(0, 16)) == Err::<(Seq<u8>, nat), FromStreamError>(eof()));
                assert(<[u8; 16] as FromStream>::spec_from_stream(d) == Err::<(Seq<u8>, nat), FromStreamError>(eof()));
                return Err(e);
            },
        };
        assert(d.len() >= 16);
        let mut tmp = [0u8; 16];
        let mut i: usize = 0;
        while i < 16
            invariant
                i <= 16,
                buf@.len() == 16,
                tmp@.len() == 16,
                forall|k: int| 0 <= k < i ==> tmp@[k] == buf@[k],
            decreases 16 - i,
        {
            tmp[i] = buf[i];
            i = i + 1;
        }
        assert(tmp@ =~= buf@);
        assert(tmp.deep_view() =~= tmp@);
        Ok(tmp)
    }
}

impl ToStream for [u8; 16] {
    open spec fn spec_to_stream(v: Seq<u8>) -> Seq<u8> {
        v
    }

    fn to_stream(&self, stream: &mut WriteStream) -> (n: usize) {
        assert(self.deep_view() =~= self@);
        stream.write_n_bytes(self.as_slice())
    }
}

// ---------------------------------------------------------------------------
// Strings
// ---------------------------------------------------------------------------

/// Whether `b` is a NUL-terminated buffer without any other NUL byte.
pub open spec fn is_c_string(b: Seq<u8>) -> bool {
    &&& b.len() > 0
    &&& b.last() == 0
    &&& forall|i: int| 0 <= i < b.len() - 1 ==> b[i] != 0
}

/// A string: a `u16` length that counts the terminating NUL, then the
/// UTF-8 bytes and the NUL; a length of zero stands for the empty string.
pub open spec fn spec_string(data: Seq<u8>) -> Result<(Seq<char>, nat), FromStreamError> {
    if data.len() < 2 {
        Err(eof())
    } else {
        let len = le_u16(data) as nat;
        if len == 0 {
            Ok((Seq::<char>::empty(), 2))
        } else if data.len() - 2 < len {
            Err(eof())
        } else {
            let b = data.subrange(2, 2 + len as int);
            if !is_c_string(b) {
                Err(FromStreamError::ParseCString)
            } else if !vstd::utf8::valid_utf8(b.drop_last()) {
                Err(FromStreamError::Utf8)
            } else {
                Ok((vstd::utf8::decode_utf8(b.drop_last()), 2 + len))
            }
        }
    }
}

/// The encoding of a string with characters `v`.
pub open spec fn spec_string_bytes(v: Seq<char>) -> Seq<u8> {
    if v.len() == 0 {
        u16_bytes(0)
    } else {
        let b = vstd::utf8::encode_utf8(v);
        u16_bytes(((b.len() % 0x1_0000 + 1) % 0x1_0000) as u16) + b + seq![0u8]
    }
}

/// The UTF-8 encoding of a character other than NUL has no zero byte.
proof fn lemma_scalar_no_zero(c: char)
    requires
        c != '\0',
    ensures
        forall|i: int| 0 <= i < vstd::utf8::encode_scalar(c as u32).len() ==> #[trigger] vstd::utf8::encode_scalar(c as u32)[i]
            != 0,
{
    let s = c as u32;
    assert(1 <= s) by {
        vstd::utf8::char_u32_cast(c, s);
    }
    assert(1 <= s <= 0x7F ==> (s & 0x7F) as u8 != 0) by (bit_vector);
    assert(((0xC0u32 as u8) | (((s >> 6) & 0x1F) as u8)) != 0) by (bit_vector);
    assert(((0xE0u32 as u8) | (((s >> 12) & 0x0F) as u8)) != 0) by (bit_vector);
    assert(((0xF0u32 as u8) | (((s >> 18) & 0x7) as u8)) != 0) by (bit_vector);
    assert(((0x80u32 as u8) | ((s & 0x3F) as u8)) != 0) by (bit_vector);
    assert(((0x80u32 as u8) | (((s >> 6) & 0x3F) as u8)) != 0) by (bit_vector);
    assert(((0x80u32 as u8) | (((s >> 12) & 0x3F) as u8)) != 0) by (bit_vector);
}

/// The UTF-8 encoding of characters without NUL has no zero byte.
proof fn lemma_encode_no_zero(v: Seq<char>)
    requires
        forall|i: int| 0 <= i < v.len() ==> v[i] != '\0',
    ensures
        forall|i: int| 0 <= i < vstd::utf8::encode_utf8(v).len() ==> #[trigger] vstd::utf8::encode_utf8(v)[i] != 0,
    decreases v.len(),
{
    if v.len() > 0 {
        lemma_scalar_no_zero(v[0]);
        lemma_encode_no_zero(v.drop_first());
        let a = vstd::utf8::encode_scalar(v[0] as u32);
        let b = vstd::utf8::encode_utf8(v.drop_first());
        assert forall|i: int| 0 <= i < (a + b).len() implies (a + b)[i] != 0 by {
            if i >= a.len() {
                assert((a + b)[i] == b[i - a.len()]);
            }
        }
    }
}

/// Reading back what `String::to_stream` wrote gives the string and the
/// number of bytes written, whatever follows, for a string without NUL
/// characters whose UTF-8 form is shorter than 65535 bytes.
pub proof fn lemma_string_roundtrip(v: Seq<char>, rest: Seq<u8>)
    requires
        forall|i: int| 0 <= i < v.len() ==> v[i] != '\0',
        vstd::utf8::encode_utf8(v).len() < 0xFFFF,
    ensures
        spec_string(spec_string_bytes(v) + rest) == Ok::<(Seq<char>, nat), FromStreamError>(
            (v, spec_string_bytes(v).len()),
        ),
{
    let w = spec_string_bytes(v);
    let data = w + rest;
    if v.len() == 0 {
        lemma_u16_roundtrip(0);
        assert(data.subrange(0, 2) =~= u16_bytes(0));
        assert(le_u16(data) == le_u16(u16_bytes(0)));
        assert(w.len() == 2);
        assert(v =~= Seq::<char>::empty());
    } else {
        let b = vstd::utf8::encode_utf8(v);
        let l = b.len();
        let n = ((l % 0x1_0000 + 1) % 0x1_0000) as u16;
        assert(n == l + 1);
        lemma_u16_roundtrip(n);
        assert(le_u16(data) == le_u16(u16_bytes(n)));
        let body = data.subrange(2, 2 + l as int + 1);
        assert(body =~= b + seq![0u8]);
        lemma_encode_no_zero(v);
        assert(is_c_string(body)) by {
            assert forall|i: int| 0 <= i < body.len() - 1 implies body[i] != 0 by {
                assert(body[i] == b[i]);
            }
        }
        assert(body.drop_last() =~= b);
        vstd::utf8::encode_utf8_valid_utf8(v);
        vstd::utf8::encode_utf8_decode_utf8(v);
        assert(le_u16(data) as nat == l + 1);
    }
}

/// Whether one of the first `end` bytes of `data` is zero.
pub fn contains_zero(data: &Vec<u8>, end: usize) -> (r: bool)
    requires
        end <= data@.len(),
    ensures
        r <==> exists|k: int| 0 <= k < end && data@[k] == 0,
{
    let mut i: usize = 0;
    while i < end
        invariant
            end <= data@.len(),
            i <= end,
            forall|k: int| 0 <= k < i ==> data@[k] != 0,
        decreases end - i,
    {
        if data[i] == 0 {
            return true;
        }
        i = i + 1;
    }
    false
}

/// `String::from_utf8`: the string that the bytes encode, or `None` when
/// they are not valid UTF-8.
#[verifier::external_body]
pub(crate) fn string_from_utf8(bytes: Vec<u8>) -> (r: Option<String>)
    ensures
        r is Some <==> vstd::utf8::valid_utf8(bytes@),
        r matches Some(s) ==> s@ == vstd::utf8::decode_utf8(bytes@),
{
    String::from_utf8(bytes).ok()
}

impl FromStream for String {
    open spec fn spec_from_stream(data: Seq<u8>) -> Result<(Seq<char>, nat), FromStreamError> {
        spec_string(data)
    }

    fn from_stream(stream: &mut ReadStream) -> (r: Result<String, FromStreamError>) {
        let len = match stream.u16() {
            Ok(l) => l,
            Err(e) => return Err(e),
        };
        let ghost after_len = stream@;
        if len == 0 {
            return Ok(String::new());
        }
        let data = match stream.read_n_bytes(len as usize) {
            Ok(d) => d,
            Err(e) => return Err(e),
        };
        proof {
            lemma_skip_skip(old(stream)@, 2, len as int);
            assert(data@ =~= old(stream)@.subrange(2, 2 + len as int));
        }
        let n = data.len();
        if data[n - 1] != 0 {
            assert(!is_c_string(data@));
            assert(old(stream)@.len() >= 2);
            assert(le_u16(old(stream)@) == len);
            assert(old(stream)@.len() - 2 >= len);
            assert(spec_string(old(stream)@) == Err::<(Seq<char>, nat), FromStreamError>(FromStreamError::ParseCString));
            return Err(FromStreamError::ParseCString);
        }
        if contains_zero(&data, n - 1) {
            return Err(FromStreamError::ParseCString);
        }
        let mut body = data;
        body.pop();
        assert(body@ =~= data@.drop_last());
        assert(is_c_string(data@));
        match string_from_utf8(body) {
            Some(s) => Ok(s),
            None => Err(FromStreamError::Utf8),
        }
    }
}

impl ToStream for String {
    open spec fn spec_to_stream(v: Seq<char>) -> Seq<u8> {
        spec_string_bytes(v)
    }

    fn to_stream(&self, stream: &mut WriteStream) -> (n: usize) {
        let start = stream.len();
        let bytes = self.as_str().as_bytes();
        proof {
            vstd::utf8::encode_utf8_decode_utf8(self@);
        }
        if bytes.len() == 0 {
            assert(self@.len() == 0) by {
                if self@.len() > 0 {
                    vstd::utf8::encode_utf8_first_scalar(self@);
                }
            }
            stream.u16(0);
        } else {
            assert(self@.len() > 0);
            let l16 = (bytes.len() % 0x1_0000) as u32;
            stream.u16(((l16 + 1) % 0x1_0000) as u16);
            stream.write_n_bytes(bytes);
            stream.u8(0);
        }
        assert(stream@ =~= old(stream)@ + spec_string_bytes(self@));
        stream.len() - start
    }
}

// ---------------------------------------------------------------------------
// Lists and pairs
// ---------------------------------------------------------------------------

/// `count` values of type `T` one after the other at the start of `data`.
pub open spec fn spec_items<T: FromStream>(data: Seq<u8>, count: nat) -> Result<(Seq<<T as DeepView>::V>, nat), FromStreamError>
    decreases count,
{
    if count == 0 {
        Ok((Seq::empty(), 0))
    } else {
        match spec_items::<T>(data, (count - 1) as nat) {
            Ok((s, n)) => if n <= data.len() {
                match T::spec_from_stream(data.skip(n as int)) {
                    Ok((v, m)) => Ok((s.push(v), n + m)),
                    Err(e) => Err(e),
                }
            } else {
                Err(eof())
            },
            Err(e) => Err(e),
        }
    }
}

/// The encodings of the values of `s`, one after the other.
pub open spec fn spec_items_bytes<T: ToStream>(s: Seq<<T as DeepView>::V>) -> Seq<u8>
    decreases s.len(),
{
    if s.len() == 0 {
        Seq::empty()
    } else {
        spec_items_bytes::<T>(s.drop_last()) + T::spec_to_stream(s.last())
    }
}

/// A list: a `u32` count, then the items.
pub open spec fn spec_list<T: FromStream>(data: Seq<u8>) -> Result<(Seq<<T as DeepView>::V>, nat), FromStreamError> {
    if data.len() < 4 {
        Err(eof())
    } else {
        match spec_items::<T>(data.skip(4), le_u32(data) as nat) {
            Ok((s, n)) => Ok((s, n + 4)),
            Err(e) => Err(e),
        }
    }
}

/// Reads `count` values of type `T`.
pub fn read_items<T: FromStream>(stream: &mut ReadStream, count: u32) -> (r: Result<Vec<T>, FromStreamError>)
    ensures
        match spec_items::<T>(old(stream)@, count as nat) {
            Ok((v, n)) => {
                &&& r is Ok
                &&& r->Ok_0.deep_view() == v
                &&& n <= old(stream)@.len()
                &&& final(stream)@ == old(stream)@.skip(n as int)
            },
            Err(e) => r == Err::<Vec<T>, FromStreamError>(e),
        },
{
    let ghost start = stream@;
    let ghost mut n: nat = 0;
    let mut res: Vec<T> = Vec::new();
    assert(res.deep_view() =~= Seq::<<T as DeepView>::V>::empty());
    let mut i: u32 = 0;
    while i < count
        invariant
            i <= count,
            start == old(stream)@,
            n <= start.len(),
            stream@ == start.skip(n as int),
            spec_items::<T>(start, i as nat) == Ok::<(Seq<<T as DeepView>::V>, nat), FromStreamError>((res.deep_view(), n)),
        decreases count - i,
    {
        let ghost before = stream@;
        let item = T::from_stream(stream);
        match item {
            Ok(x) => {
                proof {
                    let m = T::spec_from_stream(before)->Ok_0.1;
                    lemma_skip_skip(start, n as int, m as int);
                    n = n + m;
                }
                let ghost old_res = res.deep_view();
                res.push(x);
                assert(res.deep_view() =~= old_res.push(x.deep_view()));
            },
            Err(e) => {
                proof {
                    assert(before == start.skip(n as int));
                    assert(T::spec_from_stream(before) is Err);
                    lemma_items_error::<T>(start, i as nat, count as nat);
                    assert(spec_items::<T>(start, count as nat) == Err::<(Seq<<T as DeepView>::V>, nat), FromStreamError>(e));
                }
                return Err(e);
            },
        }
        i = i + 1;
    }
    assert(start.skip(0) =~= start);
    Ok(res)
}

/// Once reading the items fails at some position, reading more of them
/// fails with the same error.
pub proof fn lemma_items_error<T: FromStream>(data: Seq<u8>, i: nat, count: nat)
    requires
        i < count,
        spec_items::<T>(data, i) is Ok,
        spec_items::<T>(data, i)->Ok_0.1 <= data.len(),
        T::spec_from_stream(data.skip(spec_items::<T>(data, i)->Ok_0.1 as int)) is Err,
    ensures
        spec_items::<T>(data, count) == Err::<(Seq<<T as DeepView>::V>, nat), FromStreamError>(
            T::spec_from_stream(data.skip(spec_items::<T>(data, i)->Ok_0.1 as int))->Err_0),
    decreases count - i,
{
    if count > i + 1 {
        lemma_items_error::<T>(data, i, (count - 1) as nat);
    }
}

impl<T: FromStream> FromStream for Vec<T> {
    open spec fn spec_from_stream(data: Seq<u8>) -> Result<(Seq<<T as DeepView>::V>, nat), FromStreamError> {
        spec_list::<T>(data)
    }

    fn from_stream(stream: &mut ReadStream) -> (r: Result<Vec<T>, FromStreamError>) {
        let len = match stream.u32() {
            Ok(l) => l,
            Err(e) => return Err(e),
        };
        let ghost mid = stream@;
        let r = read_items::<T>(stream, len);
        proof {
            if r is Ok {
                let n = spec_items::<T>(mid, len as nat)->Ok_0.1;
                lemma_skip_skip(old(stream)@, 4, n as int);
            }
        }
        r
    }
}

/// Writes the values of `items` one after the other; returns the number of
/// bytes written.
pub fn write_items<T: ToStream>(stream: &mut WriteStream, items: &Vec<T>) -> (n: usize)
    ensures
        final(stream)@ == old(stream)@ + spec_items_bytes::<T>(items.deep_view()),
        n == spec_items_bytes::<T>(items.deep_view()).len(),
{
    let start = stream.len();
    let mut i: usize = 0;
    while i < items.len()
        invariant
            i <= items@.len(),
            start == old(stream)@.len(),
            stream@ =~= old(stream)@ + spec_items_bytes::<T>(items.deep_view().subrange(0, i as int)),
        decreases items@.len() - i,
    {
        items[i].to_stream(stream);
        proof {
            let s = items.deep_view().subrange(0, i + 1);
            assert(s.drop_last() =~= items.deep_view().subrange(0, i as int));
        }
        i = i + 1;
    }
    assert(items.deep_view().subrange(0, items@.len() as int) =~= items.deep_view());
    stream.len() - start
}

impl<T: ToStream> ToStream for Vec<T> {
    open spec fn spec_to_stream(v: Seq<<T as DeepView>::V>) -> Seq<u8> {
        u32_bytes((v.len() % 0x1_0000_0000) as u32) + spec_items_bytes::<T>(v)
    }

    fn to_stream(&self, stream: &mut WriteStream) -> (n: usize) {
        let start = stream.len();
        stream.u32((self.len() as u64 % 0x1_0000_0000) as u32);
        write_items(stream, self);
        assert(stream@ =~= old(stream)@ + Self::spec_to_stream(self.deep_view()));
        stream.len() - start
    }
}

impl<A: FromStream, B: FromStream> FromStream for (A, B) {
    open spec fn spec_from_stream(data: Seq<u8>) -> Result<((<A as DeepView>::V, <B as DeepView>::V), nat), FromStreamError> {
        match A::spec_from_stream(data) {
            Ok((a, n)) => if n <= data.len() {
                match B::spec_from_stream(data.skip(n as int)) {
                    Ok((b, m)) => Ok(((a, b), n + m)),
                    Err(e) => Err(e),
                }
            } else {
                Err(eof())
            },
            Err(e) => Err(e),
        }
    }

    fn from_stream(stream: &mut ReadStream) -> (r: Result<(A, B), FromStreamError>) {
        let a = match A::from_stream(stream) {
            Ok(a) => a,
            Err(e) => return Err(e),
        };
        let ghost mid = stream@;
        let b = match B::from_stream(stream) {
            Ok(b) => b,
            Err(e) => return Err(e),
        };
        proof {
            let n = A::spec_from_stream(old(stream)@)->Ok_0.1;
            let m = B::spec_from_stream(mid)->Ok_0.1;
            lemma_skip_skip(old(stream)@, n as int, m as int);
        }
        Ok((a, b))
    }
}

impl<A: ToStream, B: ToStream> ToStream for (A, B) {
    open spec fn spec_to_stream(v: (<A as DeepView>::V, <B as DeepView>::V)) -> Seq<u8> {
        A::spec_to_stream(v.0) + B::spec_to_stream(v.1)
    }

    fn to_stream(&self, stream: &mut WriteStream) -> (n: usize) {
        let start = stream.len();
        self.0.to_stream(stream);
        self.1.to_stream(stream);
        assert(stream@ =~= old(stream)@ + Self::spec_to_stream(self.deep_view()));
        stream.len() - start
    }
}

// ---------------------------------------------------------------------------
// Reading back what was written
// ---------------------------------------------------------------------------

/// Whether reading back the encoding of `v`, whatever follows it, gives
/// `v` and the length of the encoding.
pub open spec fn reads_back<T: FromStream + ToStream>(v: <T as DeepView>::V) -> bool {
    forall|rest: Seq<u8>|
        #[trigger] T::spec_from_stream(T::spec_to_stream(v) + rest) == Ok::<(<T as DeepView>::V, nat), FromStreamError>(
            (v, T::spec_to_stream(v).len()),
        )
}

/// Reading back the encodings of values that each read back gives the
/// values and the length of the encodings, whatever follows.
pub proof fn lemma_items_roundtrip<T: FromStream + ToStream>(s: Seq<<T as DeepView>::V>, rest: Seq<u8>)
    requires
        forall|i: int| 0 <= i < s.len() ==> reads_back::<T>(#[trigger] s[i]),
    ensures
        spec_items::<T>(spec_items_bytes::<T>(s) + rest, s.len()) == Ok::<(Seq<<T as DeepView>::V>, nat), FromStreamError>(
            (s, spec_items_bytes::<T>(s).len()),
        ),
    decreases s.len(),
{
    if s.len() == 0 {
        assert(s =~= Seq::<<T as DeepView>::V>::empty());
    } else {
        let init = s.drop_last();
        let last = s.last();
        let tail = T::spec_to_stream(last) + rest;
        assert forall|i: int| 0 <= i < init.len() implies reads_back::<T>(#[trigger] init[i]) by {
            assert(init[i] == s[i]);
        }
        lemma_items_roundtrip::<T>(init, tail);
        let data = spec_items_bytes::<T>(s) + rest;
        assert(data =~= spec_items_bytes::<T>(init) + tail);
        let n = spec_items_bytes::<T>(init).len();
        assert(data.skip(n as int) =~= tail);
        assert(reads_back::<T>(s[s.len() - 1]));
        assert(T::spec_from_stream(tail) == Ok::<(<T as DeepView>::V, nat), FromStreamError>(
            (last, T::spec_to_stream(last).len()),
        ));
        assert(init.push(last) =~= s);
    }
}

/// Reading back what `Vec::to_stream` wrote gives the list, whatever
/// follows, where each item reads back and the list has fewer than 2^32
/// items.
pub proof fn lemma_list_roundtrip<T: FromStream + ToStream>(s: Seq<<T as DeepView>::V>, rest: Seq<u8>)
    requires
        s.len() <= u32::MAX,
        forall|i: int| 0 <= i < s.len() ==> reads_back::<T>(#[trigger] s[i]),
    ensures
        spec_list::<T>(<Vec<T> as ToStream>::spec_to_stream(s) + rest) == Ok::<(Seq<<T as DeepView>::V>, nat), FromStreamError>(
            (s, <Vec<T> as ToStream>::spec_to_stream(s).len()),
        ),
{
    let c = (s.len() % 0x1_0000_0000) as u32;
    lemma_u32_roundtrip(c);
    let data = <Vec<T> as ToStream>::spec_to_stream(s) + rest;
    assert(data.skip(4) =~= spec_items_bytes::<T>(s) + rest);
    assert(le_u32(data) == le_u32(u32_bytes(c)));
    lemma_items_roundtrip::<T>(s, rest);
}

/// Reading back what a pair wrote gives the pair, whatever follows, where
/// both halves read back.
pub proof fn lemma_pair_roundtrip<A: FromStream + ToStream, B: FromStream + ToStream>(
    a: <A as DeepView>::V,
    b: <B as DeepView>::V,
    rest: Seq<u8>,
)
    requires
        reads_back::<A>(a),
        reads_back::<B>(b),
    ensures
        <(A, B) as FromStream>::spec_from_stream(<(A, B) as ToStream>::spec_to_stream((a, b)) + rest) == Ok::<
            ((<A as DeepView>::V, <B as DeepView>::V), nat),
            FromStreamError,
        >(((a, b), <(A, B) as ToStream>::spec_to_stream((a, b)).len())),
{
    let ea = A::spec_to_stream(a);
    let eb = B::spec_to_stream(b);
    let data = ea + eb + rest;
    assert(data =~= ea + (eb + rest));
    assert(A::spec_from_stream(ea + (eb + rest)) == Ok::<(<A as DeepView>::V, nat), FromStreamError>((a, ea.len())));
    assert(data.skip(ea.len() as int) =~= eb + rest);
    assert(B::spec_from_stream(eb + rest) == Ok::<(<B as DeepView>::V, nat), FromStreamError>((b, eb.len())));
}

/// Strings without NUL characters whose UTF-8 form is shorter than 65535
/// bytes read back.
pub proof fn lemma_string_reads_back(v: Seq<char>)
    requires
        forall|i: int| 0 <= i < v.len() ==> v[i] != '\0',
        vstd::utf8::encode_utf8(v).len() < 0xFFFF,
    ensures
        reads_back::<String>(v),
{
    assert forall|rest: Seq<u8>|
        #[trigger] <String as FromStream>::spec_from_stream(<String as ToStream>::spec_to_stream(v) + rest) == Ok::<
            (Seq<char>, nat),
            FromStreamError,
        >((v, <String as ToStream>::spec_to_stream(v).len())) by {
        lemma_string_roundtrip(v, rest);
    }
}

/// `u32` values read back.
pub proof fn lemma_u32_reads_back(v: u32)
    ensures
        reads_back::<u32>(v),
{
    assert forall|rest: Seq<u8>|
        #[trigger] <u32 as FromStream>::spec_from_stream(<u32 as ToStream>::spec_to_stream(v) + rest) == Ok::<
            (u32, nat),
            FromStreamError,
        >((v, <u32 as ToStream>::spec_to_stream(v).len())) by {
        lemma_u32_roundtrip(v);
        let data = <u32 as ToStream>::spec_to_stream(v) + rest;
        assert(le_u32(data) == le_u32(u32_bytes(v)));
    }
}

} // verus!
