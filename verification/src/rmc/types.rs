//! RMC value types: station URLs, results, variants, properties and lists.

use crate::rmc::basic::{
    eof, le_u32, le_u64, lemma_skip_skip, read_items, spec_items, spec_items_bytes, spec_list, spec_string,
    spec_string_bytes, u32_bytes, u64_bytes, write_items, FromStream, FromStreamError, IoErrorKind, ReadStream,
    ToStream, WriteStream,
};
use crate::rmc::result::{spec_error_code, spec_error_from_code, Error as ResultError};
use crate::text::{
    chars_eq, chars_of, decimal, matches_at, parse_unsigned, push_chars, push_decimal, spec_parse_unsigned, split,
    split_chars, split_once, split_once_chars, string_from_chars, string_push, views, spec_unsigned_error, unsigned_error, IntErrorKind,
};
use vstd::prelude::*;

verus! {

/// Why a station URL could not be parsed.
#[derive(Debug, Clone, Copy, PartialEq, Eq, Structural)]
pub enum StationURLParseError {
    MissingScheme,
    MissingAddress,
    MissingPort,
    InvalidParameters,
    /// The port is not a `u16`, and why.
    InvalidPort(IntErrorKind),
}

// ---------------------------------------------------------------------------
// Results
// ---------------------------------------------------------------------------

/// The outcome of a call as it travels in a message.
#[derive(Debug, Clone, Copy, PartialEq, Eq, Structural)]
pub enum QResult {
    Success,
    Error(ResultError),
    Unknown(u32),
}

/// The success code.
pub open spec fn result_ok_code() -> u32 {
    0x10001
}

/// The code of a result.
pub open spec fn spec_qresult_code(r: QResult) -> u32 {
    match r {
        QResult::Success => 0x10001,
        QResult::Error(e) => spec_error_code(e),
        QResult::Unknown(c) => c,
    }
}

/// The result that a code stands for.
pub open spec fn spec_qresult(code: u32) -> QResult {
    if code == 0x10001 {
        QResult::Success
    } else {
        match spec_error_from_code(code) {
            Ok(e) => QResult::Error(e),
            Err(_) => QResult::Unknown(code),
        }
    }
}

/// A result travels as a code: success is 0x10001, an error its wire
/// code, which has the top bit set; a code names success only as 0x10001,
/// an error exactly when it is that error's wire code, and otherwise
/// stays an unknown code.
pub proof fn lemma_qresult_codes(r: QResult, code: u32)
    ensures
        spec_qresult_code(QResult::Success) == 0x10001,
        r matches QResult::Error(e) ==> spec_qresult_code(r) == spec_error_code(e) && spec_error_code(e)
            >= 0x8000_0000,
        spec_qresult(0x10001) == QResult::Success,
        spec_qresult(code) matches QResult::Error(e) ==> spec_error_code(e) == code,
        spec_qresult(code) matches QResult::Unknown(c) ==> c == code && code != 0x10001 && spec_error_from_code(code) is Err,
{
    crate::rmc::result::lemma_error_code_canonical(code);
    match r {
        QResult::Error(e) => crate::rmc::result::lemma_error_code_bound(e),
        _ => {},
    }
}

impl DeepView for QResult {
    type V = QResult;

    open spec fn deep_view(&self) -> QResult {
        *self
    }
}

impl QResult {
    /// The code of the result.
    pub fn code(&self) -> (r: u32)
        ensures
            r == spec_qresult_code(*self),
    {
        match self {
            QResult::Success => 0x10001,
            QResult::Error(e) => e.to_code(),
            QResult::Unknown(c) => *c,
        }
    }

    /// The result that a code stands for.
    pub fn from_code(code: u32) -> (r: QResult)
        ensures
            r == spec_qresult(code),
    {
        if code == 0x10001 {
            QResult::Success
        } else {
            match ResultError::try_from_code(code) {
                Ok(e) => QResult::Error(e),
                Err(_) => QResult::Unknown(code),
            }
        }
    }
}

impl FromStream for QResult {
    open spec fn spec_from_stream(data: Seq<u8>) -> Result<(QResult, nat), FromStreamError> {
        if data.len() < 4 {
            Err(eof())
        } else {
            Ok((spec_qresult(le_u32(data)), 4))
        }
    }

    fn from_stream(stream: &mut ReadStream) -> (r: Result<QResult, FromStreamError>) {
        match stream.u32() {
            Ok(c) => Ok(QResult::from_code(c)),
            Err(e) => Err(e),
        }
    }
}

impl ToStream for QResult {
    open spec fn spec_to_stream(v: QResult) -> Seq<u8> {
        u32_bytes(spec_qresult_code(v))
    }

    fn to_stream(&self, stream: &mut WriteStream) -> (n: usize) {
        let c = self.code();
        stream.u32(c)
    }
}

/// Every result but an unknown code that names a known result reads back
/// as itself.
pub proof fn lemma_qresult_roundtrip(r: QResult)
    requires
        r matches QResult::Unknown(c) ==> c != 0x10001 && spec_error_from_code(c) is Err,
    ensures
        spec_qresult(spec_qresult_code(r)) == r,
{
    match r {
        QResult::Error(e) => {
            crate::rmc::result::lemma_error_code_roundtrip(e);
            assert(spec_error_code(e) >= 0x8000_0000);
        },
        _ => {},
    }
}

// ---------------------------------------------------------------------------
// Dates, ranges, properties
// ---------------------------------------------------------------------------

/// A date and time packed into 64 bits.
#[derive(Debug, Clone, Copy, PartialEq, Eq, Structural)]
pub struct DateTime(pub u64);

impl DeepView for DateTime {
    type V = u64;

    open spec fn deep_view(&self) -> u64 {
        self.0
    }
}

impl DateTime {
    /// Year, month, day, hour, minute and second as the packed value holds
    /// them: the second in bits 0-4, the minute in bits 6-10, the hour in
    /// bits 12-15, the day in bits 17-20, the month in bits 22-24 and the
    /// year from bit 26 on.
    pub fn components(&self) -> (r: (u64, u64, u64, u64, u64, u64))
        ensures
            r == (
                self.0 / 0x400_0000,
                (self.0 / 0x40_0000) % 8,
                (self.0 / 0x2_0000) % 16,
                (self.0 / 0x1000) % 16,
                (self.0 / 0x40) % 32,
                self.0 % 32,
            ),
    {
        let v = self.0;
        (v / 0x400_0000, (v / 0x40_0000) % 8, (v / 0x2_0000) % 16, (v / 0x1000) % 16, (v / 0x40) % 32, v % 32)
    }
}

impl FromStream for DateTime {
    open spec fn spec_from_stream(data: Seq<u8>) -> Result<(u64, nat), FromStreamError> {
        <u64 as FromStream>::spec_from_stream(data)
    }

    fn from_stream(stream: &mut ReadStream) -> (r: Result<DateTime, FromStreamError>) {
        match stream.u64() {
            Ok(v) => Ok(DateTime(v)),
            Err(e) => Err(e),
        }
    }
}

impl ToStream for DateTime {
    open spec fn spec_to_stream(v: u64) -> Seq<u8> {
        u64_bytes(v)
    }

    fn to_stream(&self, stream: &mut WriteStream) -> (n: usize) {
        stream.u64(self.0)
    }
}

/// A structure with no fields: nothing is read or written.
#[derive(Debug, Clone, Copy, PartialEq, Eq, Structural)]
pub struct Data;

impl DeepView for Data {
    type V = ();

    open spec fn deep_view(&self) -> () {
        ()
    }
}

impl FromStream for Data {
    open spec fn spec_from_stream(data: Seq<u8>) -> Result<((), nat), FromStreamError> {
        Ok(((), 0))
    }

    fn from_stream(stream: &mut ReadStream) -> (r: Result<Data, FromStreamError>) {
        assert(stream@.skip(0) =~= stream@);
        Ok(Data)
    }
}

impl ToStream for Data {
    open spec fn spec_to_stream(v: ()) -> Seq<u8> {
        Seq::empty()
    }

    fn to_stream(&self, stream: &mut WriteStream) -> (n: usize) {
        assert(stream@ =~= stream@ + Seq::<u8>::empty());
        0
    }
}

/// Two `u32` values one after the other.
pub open spec fn spec_two_u32(data: Seq<u8>) -> Result<((u32, u32), nat), FromStreamError> {
    if data.len() < 8 {
        Err(eof())
    } else {
        Ok(((le_u32(data), le_u32(data.skip(4))), 8))
    }
}

fn read_two_u32(stream: &mut ReadStream) -> (r: Result<(u32, u32), FromStreamError>)
    ensures
        match spec_two_u32(old(stream)@) {
            Ok((v, n)) => r == Ok::<(u32, u32), FromStreamError>(v) && final(stream)@ == old(stream)@.skip(n as int),
            Err(e) => r == Err::<(u32, u32), FromStreamError>(e),
        },
{
    let a = match stream.u32() {
        Ok(v) => v,
        Err(e) => return Err(e),
    };
    let b = match stream.u32() {
        Ok(v) => v,
        Err(e) => return Err(e),
    };
    proof {
        lemma_skip_skip(old(stream)@, 4, 4);
    }
    Ok((a, b))
}

/// A range of results: where it starts and how many.
#[derive(Debug, Clone, Copy, PartialEq, Eq, Structural)]
pub struct ResultRange {
    pub offset: u32,
    pub size: u32,
}

impl DeepView for ResultRange {
    type V = (u32, u32);

    open spec fn deep_view(&self) -> (u32, u32) {
        (self.offset, self.size)
    }
}

impl FromStream for ResultRange {
    open spec fn spec_from_stream(data: Seq<u8>) -> Result<((u32, u32), nat), FromStreamError> {
        spec_two_u32(data)
    }

    fn from_stream(stream: &mut ReadStream) -> (r: Result<ResultRange, FromStreamError>) {
        match read_two_u32(stream) {
            Ok((offset, size)) => Ok(ResultRange { offset, size }),
            Err(e) => Err(e),
        }
    }
}

impl ToStream for ResultRange {
    open spec fn spec_to_stream(v: (u32, u32)) -> Seq<u8> {
        u32_bytes(v.0) + u32_bytes(v.1)
    }

    fn to_stream(&self, stream: &mut WriteStream) -> (n: usize) {
        stream.u32(self.offset);
        stream.u32(self.size);
        assert(stream@ =~= old(stream)@ + (u32_bytes(self.offset) + u32_bytes(self.size)));
        8
    }
}

/// A numbered property value.
#[derive(Debug, Clone, Copy, PartialEq, Eq, Structural)]
pub struct Property {
    pub id: u32,
    pub value: u32,
}

impl DeepView for Property {
    type V = (u32, u32);

    open spec fn deep_view(&self) -> (u32, u32) {
        (self.id, self.value)
    }
}

impl FromStream for Property {
    open spec fn spec_from_stream(data: Seq<u8>) -> Result<((u32, u32), nat), FromStreamError> {
        spec_two_u32(data)
    }

    fn from_stream(stream: &mut ReadStream) -> (r: Result<Property, FromStreamError>) {
        match read_two_u32(stream) {
            Ok((id, value)) => Ok(Property { id, value }),
            Err(e) => Err(e),
        }
    }
}

impl ToStream for Property {
    open spec fn spec_to_stream(v: (u32, u32)) -> Seq<u8> {
        u32_bytes(v.0) + u32_bytes(v.1)
    }

    fn to_stream(&self, stream: &mut WriteStream) -> (n: usize) {
        stream.u32(self.id);
        stream.u32(self.value);
        assert(stream@ =~= old(stream)@ + (u32_bytes(self.id) + u32_bytes(self.value)));
        8
    }
}

// ---------------------------------------------------------------------------
// Variants
// ---------------------------------------------------------------------------

/// A dynamically typed value. A float is held as the bits of its IEEE 754
/// binary64 form, which is also how it travels.
#[derive(Debug, Clone, PartialEq, Eq)]
pub enum Variant {
    Empty,
    I64(i64),
    F64(u64),
    Bool(bool),
    String(String),
    DateTime(DateTime),
    U64(u64),
}

pub enum VariantView {
    Empty,
    I64(i64),
    F64(u64),
    Bool(bool),
    String(Seq<char>),
    DateTime(u64),
    U64(u64),
}

impl DeepView for Variant {
    type V = VariantView;

    open spec fn deep_view(&self) -> VariantView {
        match self {
            Variant::Empty => VariantView::Empty,
            Variant::I64(v) => VariantView::I64(*v),
            Variant::F64(v) => VariantView::F64(*v),
            Variant::Bool(v) => VariantView::Bool(*v),
            Variant::String(v) => VariantView::String(v@),
            Variant::DateTime(v) => VariantView::DateTime(v.0),
            Variant::U64(v) => VariantView::U64(*v),
        }
    }
}

/// A value of eight bytes behind the tag.
pub open spec fn spec_after_tag(rest: Seq<u8>, n: nat, v: VariantView) -> Result<(VariantView, nat), FromStreamError> {
    if rest.len() < n {
        Err(eof())
    } else {
        Ok((v, n + 1))
    }
}

/// A variant: a tag byte (0 to 6) and the value it calls for.
pub open spec fn spec_variant(data: Seq<u8>) -> Result<(VariantView, nat), FromStreamError> {
    if data.len() < 1 {
        Err(eof())
    } else {
        let rest = data.skip(1);
        let t = data[0];
        if t == 0 {
            Ok((VariantView::Empty, 1))
        } else if t == 1 {
            spec_after_tag(rest, 8, VariantView::I64(le_u64(rest) as i64))
        } else if t == 2 {
            spec_after_tag(rest, 8, VariantView::F64(le_u64(rest)))
        } else if t == 3 {
            spec_after_tag(rest, 1, VariantView::Bool(rest[0] != 0))
        } else if t == 4 {
            match spec_string(rest) {
                Ok((s, n)) => Ok((VariantView::String(s), n + 1)),
                Err(e) => Err(e),
            }
        } else if t == 5 {
            spec_after_tag(rest, 8, VariantView::DateTime(le_u64(rest)))
        } else if t == 6 {
            spec_after_tag(rest, 8, VariantView::U64(le_u64(rest)))
        } else {
            Err(FromStreamError::IO(IoErrorKind::InvalidData))
        }
    }
}

/// The encoding of a variant.
pub open spec fn spec_variant_bytes(v: VariantView) -> Seq<u8> {
    match v {
        VariantView::Empty => seq![0u8],
        VariantView::I64(x) => seq![1u8] + u64_bytes(x as u64),
        VariantView::F64(x) => seq![2u8] + u64_bytes(x),
        VariantView::Bool(x) => seq![3u8, if x { 1u8 } else { 0u8 }],
        VariantView::String(s) => seq![4u8] + spec_string_bytes(s),
        VariantView::DateTime(x) => seq![5u8] + u64_bytes(x),
        VariantView::U64(x) => seq![6u8] + u64_bytes(x),
    }
}

/// Whether a variant reads back from its encoding: a string variant's
/// text has no NUL character and a UTF-8 form shorter than 65535 bytes.
pub open spec fn variant_writable(v: VariantView) -> bool {
    v matches VariantView::String(s) ==> (forall|i: int| 0 <= i < s.len() ==> s[i] != '\0') && vstd::utf8::encode_utf8(
        s,
    ).len() < 0xFFFF
}

/// Reading back the encoding of a variant gives the variant and the length
/// of the encoding, whatever follows, for every variant that is writable.
pub proof fn lemma_variant_roundtrip(v: VariantView, rest: Seq<u8>)
    requires
        variant_writable(v),
    ensures
        spec_variant(spec_variant_bytes(v) + rest) == Ok::<(VariantView, nat), FromStreamError>(
            (v, spec_variant_bytes(v).len()),
        ),
{
    let data = spec_variant_bytes(v) + rest;
    let tail = data.skip(1);
    match v {
        VariantView::Empty => {},
        VariantView::I64(x) => {
            crate::rmc::basic::lemma_u64_roundtrip(x as u64);
            assert(tail =~= u64_bytes(x as u64) + rest);
            assert(le_u64(tail) == le_u64(u64_bytes(x as u64)));
            assert((x as u64) as i64 == x) by (bit_vector);
        },
        VariantView::F64(x) | VariantView::DateTime(x) | VariantView::U64(x) => {
            crate::rmc::basic::lemma_u64_roundtrip(x);
            assert(tail =~= u64_bytes(x) + rest);
            assert(le_u64(tail) == le_u64(u64_bytes(x)));
        },
        VariantView::Bool(b) => {
            assert(tail[0] == if b { 1u8 } else { 0u8 });
        },
        VariantView::String(s) => {
            crate::rmc::basic::lemma_string_roundtrip(s, rest);
            assert(tail =~= spec_string_bytes(s) + rest);
        },
    }
}

/// Writable variants read back (see `reads_back`).
pub proof fn lemma_variant_reads_back(v: VariantView)
    requires
        variant_writable(v),
    ensures
        crate::rmc::basic::reads_back::<Variant>(v),
{
    assert forall|rest: Seq<u8>|
        #[trigger] <Variant as FromStream>::spec_from_stream(<Variant as ToStream>::spec_to_stream(v) + rest) == Ok::<
            (VariantView, nat),
            FromStreamError,
        >((v, <Variant as ToStream>::spec_to_stream(v).len())) by {
        lemma_variant_roundtrip(v, rest);
    }
}

/// Each kind of variant is written after its own tag byte, as the
/// protocol numbers them: Empty 0, I64 1, F64 2, Bool 3, String 4,
/// DateTime 5, U64 6; and a tag followed by a value reads as that kind of
/// variant, whatever follows.
pub proof fn lemma_variant_tags(v: VariantView, x: u64, b: u8, rest: Seq<u8>)
    ensures
        <Variant as ToStream>::spec_to_stream(v).len() >= 1,
        <Variant as ToStream>::spec_to_stream(v)[0] == match v {
            VariantView::Empty => 0u8,
            VariantView::I64(_) => 1u8,
            VariantView::F64(_) => 2u8,
            VariantView::Bool(_) => 3u8,
            VariantView::String(_) => 4u8,
            VariantView::DateTime(_) => 5u8,
            VariantView::U64(_) => 6u8,
        },
        <Variant as FromStream>::spec_from_stream(seq![0u8] + rest) == Ok::<(VariantView, nat), FromStreamError>(
            (VariantView::Empty, 1),
        ),
        <Variant as FromStream>::spec_from_stream(seq![1u8] + u64_bytes(x) + rest) == Ok::<
            (VariantView, nat),
            FromStreamError,
        >((VariantView::I64(x as i64), 9)),
        <Variant as FromStream>::spec_from_stream(seq![2u8] + u64_bytes(x) + rest) == Ok::<
            (VariantView, nat),
            FromStreamError,
        >((VariantView::F64(x), 9)),
        <Variant as FromStream>::spec_from_stream(seq![3u8, b] + rest) == Ok::<(VariantView, nat), FromStreamError>(
            (VariantView::Bool(b != 0), 2),
        ),
        <Variant as FromStream>::spec_from_stream(seq![5u8] + u64_bytes(x) + rest) == Ok::<
            (VariantView, nat),
            FromStreamError,
        >((VariantView::DateTime(x), 9)),
        <Variant as FromStream>::spec_from_stream(seq![6u8] + u64_bytes(x) + rest) == Ok::<
            (VariantView, nat),
            FromStreamError,
        >((VariantView::U64(x), 9)),
{
    crate::rmc::basic::lemma_u64_roundtrip(x);
    let d = seq![1u8] + u64_bytes(x) + rest;
    assert(d.skip(1).subrange(0, 8) =~= u64_bytes(x));
    assert((seq![2u8] + u64_bytes(x) + rest).skip(1) =~= d.skip(1));
    assert((seq![5u8] + u64_bytes(x) + rest).skip(1) =~= d.skip(1));
    assert((seq![6u8] + u64_bytes(x) + rest).skip(1) =~= d.skip(1));
    assert((seq![3u8, b] + rest).skip(1)[0] == b);
}

impl FromStream for Variant {
    open spec fn spec_from_stream(data: Seq<u8>) -> Result<(VariantView, nat), FromStreamError> {
        spec_variant(data)
    }

    fn from_stream(stream: &mut ReadStream) -> (r: Result<Variant, FromStreamError>) {
        let t = match stream.u8() {
            Ok(t) => t,
            Err(e) => return Err(e),
        };
        let ghost rest = stream@;
        let r = if t == 0 {
            Ok(Variant::Empty)
        } else if t == 1 {
            match stream.i64() {
                Ok(v) => Ok(Variant::I64(v)),
                Err(e) => Err(e),
            }
        } else if t == 2 {
            match stream.u64() {
                Ok(v) => Ok(Variant::F64(v)),
                Err(e) => Err(e),
            }
        } else if t == 3 {
            match stream.bool() {
                Ok(v) => Ok(Variant::Bool(v)),
                Err(e) => Err(e),
            }
        } else if t == 4 {
            match String::from_stream(stream) {
                Ok(v) => Ok(Variant::String(v)),
                Err(e) => Err(e),
            }
        } else if t == 5 {
            match stream.u64() {
                Ok(v) => Ok(Variant::DateTime(DateTime(v))),
                Err(e) => Err(e),
            }
        } else if t == 6 {
            match stream.u64() {
                Ok(v) => Ok(Variant::U64(v)),
                Err(e) => Err(e),
            }
        } else {
            Err(FromStreamError::IO(IoErrorKind::InvalidData))
        };
        proof {
            if r is Ok {
                let n = (spec_variant(old(stream)@)->Ok_0.1 - 1) as int;
                lemma_skip_skip(old(stream)@, 1, n);
            }
        }
        r
    }
}

impl ToStream for Variant {
    open spec fn spec_to_stream(v: VariantView) -> Seq<u8> {
        spec_variant_bytes(v)
    }

    fn to_stream(&self, stream: &mut WriteStream) -> (n: usize) {
        let start = stream.len();
        match self {
            Variant::Empty => {
                stream.u8(0);
            },
            Variant::I64(v) => {
                stream.u8(1);
                stream.i64(*v);
            },
            Variant::F64(v) => {
                stream.u8(2);
                stream.u64(*v);
            },
            Variant::Bool(v) => {
                stream.u8(3);
                stream.bool(*v);
            },
            Variant::String(v) => {
                stream.u8(4);
                v.to_stream(stream);
            },
            Variant::DateTime(v) => {
                stream.u8(5);
                stream.u64(v.0);
            },
            Variant::U64(v) => {
                stream.u8(6);
                stream.u64(*v);
            },
        }
        assert(stream@ =~= old(stream)@ + spec_variant_bytes(self.deep_view()));
        stream.len() - start
    }
}

/// A numbered variant.
#[derive(Debug, Clone, PartialEq, Eq)]
pub struct PropertyVariant {
    pub id: u32,
    pub value: Variant,
}

impl DeepView for PropertyVariant {
    type V = (u32, VariantView);

    open spec fn deep_view(&self) -> (u32, VariantView) {
        (self.id, self.value.deep_view())
    }
}

impl FromStream for PropertyVariant {
    open spec fn spec_from_stream(data: Seq<u8>) -> Result<((u32, VariantView), nat), FromStreamError> {
        if data.len() < 4 {
            Err(eof())
        } else {
            match spec_variant(data.skip(4)) {
                Ok((v, n)) => Ok(((le_u32(data), v), n + 4)),
                Err(e) => Err(e),
            }
        }
    }

    fn from_stream(stream: &mut ReadStream) -> (r: Result<PropertyVariant, FromStreamError>) {
        let id = match stream.u32() {
            Ok(v) => v,
            Err(e) => return Err(e),
        };
        let ghost rest = stream@;
        let value = match Variant::from_stream(stream) {
            Ok(v) => v,
            Err(e) => return Err(e),
        };
        proof {
            lemma_skip_skip(old(stream)@, 4, spec_variant(rest)->Ok_0.1 as int);
        }
        Ok(PropertyVariant { id, value })
    }
}

impl ToStream for PropertyVariant {
    open spec fn spec_to_stream(v: (u32, VariantView)) -> Seq<u8> {
        u32_bytes(v.0) + spec_variant_bytes(v.1)
    }

    fn to_stream(&self, stream: &mut WriteStream) -> (n: usize) {
        let start = stream.len();
        stream.u32(self.id);
        self.value.to_stream(stream);
        assert(stream@ =~= old(stream)@ + Self::spec_to_stream(self.deep_view()));
        stream.len() - start
    }
}

// ---------------------------------------------------------------------------
// Lists
// ---------------------------------------------------------------------------

/// A list: a `u32` count, then the items.
#[derive(Debug)]
pub struct QList<T>(pub Vec<T>);

impl<T: DeepView> DeepView for QList<T> {
    type V = Seq<<T as DeepView>::V>;

    open spec fn deep_view(&self) -> Seq<<T as DeepView>::V> {
        self.0.deep_view()
    }
}

impl<T> QList<T> {
    /// The empty list.
    pub fn new() -> (r: Self)
        ensures
            r.0@ == Seq::<T>::empty(),
    {
        QList(Vec::new())
    }

    /// The list of the given items.
    pub fn from_vec(v: Vec<T>) -> (r: Self)
        ensures
            r.0@ == v@,
    {
        QList(v)
    }
}

impl<T: FromStream> FromStream for QList<T> {
    open spec fn spec_from_stream(data: Seq<u8>) -> Result<(Seq<<T as DeepView>::V>, nat), FromStreamError> {
        spec_list::<T>(data)
    }

    fn from_stream(stream: &mut ReadStream) -> (r: Result<QList<T>, FromStreamError>) {
        match <Vec<T> as FromStream>::from_stream(stream) {
            Ok(v) => Ok(QList(v)),
            Err(e) => Err(e),
        }
    }
}

impl<T: ToStream> ToStream for QList<T> {
    open spec fn spec_to_stream(v: Seq<<T as DeepView>::V>) -> Seq<u8> {
        <Vec<T> as ToStream>::spec_to_stream(v)
    }

    fn to_stream(&self, stream: &mut WriteStream) -> (n: usize) {
        self.0.to_stream(stream)
    }
}

// ---------------------------------------------------------------------------
// Values of a named type
// ---------------------------------------------------------------------------

/// A value of the type named `class_name`, kept as its encoded bytes.
#[derive(Debug)]
pub struct Any<V, K> {
    class_name: K,
    data: Vec<u8>,
    pd: std::marker::PhantomData<V>,
}

impl<V, K: DeepView> DeepView for Any<V, K> {
    type V = (<K as DeepView>::V, Seq<u8>);

    closed spec fn deep_view(&self) -> (<K as DeepView>::V, Seq<u8>) {
        (self.class_name.deep_view(), self.data@)
    }
}

impl<V, K> Any<V, K> {
    pub fn new(class_name: K, data: Vec<u8>) -> (r: Self)
        ensures
            r.spec_class_name() == class_name,
            r.spec_data() == data@,
    {
        Any { class_name, data, pd: std::marker::PhantomData }
    }

    pub closed spec fn spec_class_name(&self) -> K {
        self.class_name
    }

    pub closed spec fn spec_data(&self) -> Seq<u8> {
        self.data@
    }

    /// The name of the type.
    pub fn class_name(&self) -> (r: &K)
        ensures
            *r == self.spec_class_name(),
    {
        &self.class_name
    }

    /// The encoded value.
    pub fn data(&self) -> (r: &Vec<u8>)
        ensures
            r@ == self.spec_data(),
    {
        &self.data
    }
}

impl<V, K: DeepView> Any<V, K> {
    /// The value's view is its type name's and its data.
    pub proof fn lemma_deep_view(&self)
        ensures
            self.deep_view() == (self.spec_class_name().deep_view(), self.spec_data()),
    {
    }
}

/// A value of a named type: the name, then a buffer that holds the
/// encoded value as a byte list.
pub open spec fn spec_any<K: FromStream>(data: Seq<u8>) -> Result<((<K as DeepView>::V, Seq<u8>), nat), FromStreamError> {
    match K::spec_from_stream(data) {
        Err(e) => Err(e),
        Ok((k, n)) => if n <= data.len() {
            match spec_list::<u8>(data.skip(n as int)) {
                Err(e) => Err(e),
                Ok((outer, m)) => match spec_list::<u8>(outer) {
                    Err(e) => Err(e),
                    Ok((inner, _)) => Ok(((k, inner), n + m)),
                },
            }
        } else {
            Err(eof())
        },
    }
}

impl<V, K: FromStream> FromStream for Any<V, K> {
    open spec fn spec_from_stream(data: Seq<u8>) -> Result<((<K as DeepView>::V, Seq<u8>), nat), FromStreamError> {
        spec_any::<K>(data)
    }

    fn from_stream(stream: &mut ReadStream) -> (r: Result<Any<V, K>, FromStreamError>) {
        let class_name = match K::from_stream(stream) {
            Ok(k) => k,
            Err(e) => return Err(e),
        };
        let ghost mid = stream@;
        let outer = match <Vec<u8> as FromStream>::from_stream(stream) {
            Ok(v) => v,
            Err(e) => return Err(e),
        };
        assert(outer.deep_view() =~= outer@);
        let data = match <Vec<u8> as FromStream>::from_bytes(outer.as_slice()) {
            Ok(v) => v,
            Err(e) => return Err(e),
        };
        assert(data.deep_view() =~= data@);
        proof {
            let n = K::spec_from_stream(old(stream)@)->Ok_0.1;
            let m = spec_list::<u8>(mid)->Ok_0.1;
            lemma_skip_skip(old(stream)@, n as int, m as int);
        }
        Ok(Any { class_name, data, pd: std::marker::PhantomData })
    }
}

impl<V, K: ToStream> ToStream for Any<V, K> {
    open spec fn spec_to_stream(v: (<K as DeepView>::V, Seq<u8>)) -> Seq<u8> {
        K::spec_to_stream(v.0) + <Vec<u8> as ToStream>::spec_to_stream(<Vec<u8> as ToStream>::spec_to_stream(v.1))
    }

    fn to_stream(&self, stream: &mut WriteStream) -> (n: usize) {
        let start = stream.len();
        self.class_name.to_stream(stream);
        let inner = self.data.to_bytes();
        assert(self.data.deep_view() =~= self.data@);
        inner.to_stream(stream);
        assert(inner.deep_view() =~= inner@);
        assert(stream@ =~= old(stream)@ + Self::spec_to_stream(self.deep_view()));
        stream.len() - start
    }
}

// ---------------------------------------------------------------------------
// Station URLs
// ---------------------------------------------------------------------------

pub type Pairs = Seq<(Seq<char>, Seq<char>)>;

/// The position of the entry with key `k`.
pub open spec fn key_index(m: Pairs, k: Seq<char>) -> Option<int>
    decreases m.len(),
{
    if m.len() == 0 {
        None
    } else if m[0].0 == k {
        Some(0)
    } else {
        match key_index(m.skip(1), k) {
            Some(i) => Some(i + 1),
            None => None,
        }
    }
}

/// The position of a key holds the key, and no earlier entry does.
pub proof fn lemma_key_index(m: Pairs, k: Seq<char>)
    ensures
        key_index(m, k) matches Some(i) ==> 0 <= i < m.len() && m[i].0 == k && forall|j: int|
            0 <= j < i ==> m[j].0 != k,
        key_index(m, k) is None ==> forall|j: int| 0 <= j < m.len() ==> m[j].0 != k,
    decreases m.len(),
{
    if m.len() > 0 && m[0].0 != k {
        lemma_key_index(m.skip(1), k);
        assert forall|j: int| 1 <= j < m.len() implies m.skip(1)[j - 1] == m[j] by {}
    }
}

/// `m` with the value of key `k` set to `v`: in place when the key is
/// there, at the end when it is not.
pub open spec fn map_insert(m: Pairs, k: Seq<char>, v: Seq<char>) -> Pairs {
    match key_index(m, k) {
        Some(i) => m.update(i, (k, v)),
        None => m.push((k, v)),
    }
}

/// The pairs entered one after the other; a later value of a key replaces
/// an earlier one.
pub open spec fn collect_pairs(pairs: Pairs) -> Pairs
    decreases pairs.len(),
{
    if pairs.len() == 0 {
        Seq::empty()
    } else {
        map_insert(collect_pairs(pairs.drop_last()), pairs.last().0, pairs.last().1)
    }
}

/// Each piece split at its first `=`, or `None` when a piece has none.
pub open spec fn spec_pairs(pieces: Seq<Seq<char>>) -> Option<Pairs>
    decreases pieces.len(),
{
    if pieces.len() == 0 {
        Some(Seq::empty())
    } else {
        match (spec_pairs(pieces.drop_last()), split_once(pieces.last(), seq!['='])) {
            (Some(p), Some(kv)) => Some(p.push(kv)),
            _ => None,
        }
    }
}

pub open spec fn address_key() -> Seq<char> {
    seq!['a', 'd', 'd', 'r', 'e', 's', 's']
}

pub open spec fn port_key() -> Seq<char> {
    seq!['p', 'o', 'r', 't']
}

pub type StationURLView = (Seq<char>, Seq<char>, u16, Pairs);

/// The station URL that a text writes: a scheme, `:/`, then `;`-separated
/// `key=value` parameters among which `address` and a decimal `port` are
/// required; the other parameters keep their first position and their
/// last value.
pub open spec fn spec_station_url(s: Seq<char>) -> Result<StationURLView, StationURLParseError> {
    match split_once(s, seq![':', '/']) {
        None => Err(StationURLParseError::MissingScheme),
        Some((scheme, rest)) => match spec_pairs(split(rest, ';')) {
            None => Err(StationURLParseError::InvalidParameters),
            Some(pairs) => {
                let m = collect_pairs(pairs);
                match key_index(m, address_key()) {
                    None => Err(StationURLParseError::MissingAddress),
                    Some(ai) => {
                        let m1 = m.remove(ai);
                        match key_index(m1, port_key()) {
                            None => Err(StationURLParseError::MissingPort),
                            Some(pi) => match spec_parse_unsigned(m1[pi].1, 0xffff) {
                                None => Err(StationURLParseError::InvalidPort(spec_unsigned_error(m1[pi].1, 0xffff))),
                                Some(p) => Ok((scheme, m[ai].1, p as u16, m1.remove(pi))),
                            },
                        }
                    },
                }
            },
        },
    }
}

/// `;key=value` for each parameter.
pub open spec fn params_text(ps: Pairs) -> Seq<char>
    decreases ps.len(),
{
    if ps.len() == 0 {
        Seq::empty()
    } else {
        params_text(ps.drop_last()) + seq![';'] + ps.last().0 + seq!['='] + ps.last().1
    }
}

/// The text of a station URL: `scheme:/address=...;port=...` and then the
/// other parameters.
pub open spec fn spec_station_url_text(u: StationURLView) -> Seq<char> {
    u.0 + seq![':', '/'] + address_key() + seq!['='] + u.1 + seq![';'] + port_key() + seq!['='] + decimal(
        u.2 as nat,
    ) + params_text(u.3)
}

/// Whether `c` does not occur in `s`.
pub open spec fn lacks(s: Seq<char>, c: char) -> bool {
    forall|i: int| 0 <= i < s.len() ==> s[i] != c
}

/// `key=value`.
pub open spec fn pair_text(p: (Seq<char>, Seq<char>)) -> Seq<char> {
    p.0 + seq!['='] + p.1
}

/// Whether a station URL reads back from its text: the scheme holds no
/// `:/`; no address, key or value holds `;`; no key holds `=`; the keys of
/// the other parameters are distinct and are neither `address` nor `port`.
pub open spec fn station_url_writable(u: StationURLView) -> bool {
    &&& forall|i: int| !matches_at(u.0, i, seq![':', '/'])
    &&& lacks(u.1, ';')
    &&& forall|i: int|
        0 <= i < u.3.len() ==> {
            &&& lacks(#[trigger] u.3[i].0, ';')
            &&& lacks(u.3[i].0, '=')
            &&& lacks(u.3[i].1, ';')
            &&& u.3[i].0 != address_key()
            &&& u.3[i].0 != port_key()
        }
    &&& forall|i: int, j: int| 0 <= i < j < u.3.len() ==> #[trigger] u.3[i].0 != #[trigger] u.3[j].0
}

/// The parameters' text from the front: the first parameter, then the
/// others.
#[verifier::spinoff_prover]
proof fn lemma_params_text_front(ps: Pairs)
    requires
        ps.len() > 0,
    ensures
        params_text(ps) == seq![';'] + pair_text(ps[0]) + params_text(ps.skip(1)),
    decreases ps.len(),
{
    if ps.len() == 1 {
        assert(ps.drop_last() =~= Seq::<(Seq<char>, Seq<char>)>::empty());
        assert(ps.skip(1) =~= Seq::<(Seq<char>, Seq<char>)>::empty());
        assert(params_text(ps) =~= seq![';'] + pair_text(ps[0]) + params_text(ps.skip(1)));
    } else {
        let init = ps.drop_last();
        lemma_params_text_front(init);
        assert(init.skip(1) =~= ps.skip(1).drop_last());
        assert(ps.skip(1).last() == ps.last());
        assert(init[0] == ps[0]);
        assert(params_text(ps) =~= seq![';'] + pair_text(ps[0]) + params_text(ps.skip(1)));
    }
}

/// Splitting a first piece followed by the parameters' text at `;` gives
/// the piece and then each parameter's `key=value`.
#[verifier::spinoff_prover]
proof fn lemma_split_params(p0: Seq<char>, ps: Pairs)
    requires
        lacks(p0, ';'),
        forall|i: int| 0 <= i < ps.len() ==> lacks(#[trigger] ps[i].0, ';') && lacks(ps[i].1, ';'),
    ensures
        split(p0 + params_text(ps), ';') == seq![p0] + ps.map_values(|p: (Seq<char>, Seq<char>)| pair_text(p)),
    decreases ps.len(),
{
    if ps.len() == 0 {
        assert(p0 + params_text(ps) =~= p0);
        crate::text::lemma_split_none(p0, ';');
        assert(seq![p0] + ps.map_values(|p: (Seq<char>, Seq<char>)| pair_text(p)) =~= seq![p0]);
    } else {
        lemma_params_text_front(ps);
        let first = pair_text(ps[0]);
        let rest = ps.skip(1);
        assert(p0 + params_text(ps) =~= p0 + seq![';'] + (first + params_text(rest)));
        crate::text::lemma_split_after(p0, first + params_text(rest), ';');
        assert(lacks(first, ';')) by {
            assert forall|i: int| 0 <= i < first.len() implies first[i] != ';' by {
                if i < ps[0].0.len() {
                    assert(first[i] == ps[0].0[i]);
                } else if i > ps[0].0.len() {
                    assert(first[i] == ps[0].1[i - ps[0].0.len() - 1]);
                }
            }
        }
        assert forall|i: int| 0 <= i < rest.len() implies lacks(#[trigger] rest[i].0, ';') && lacks(rest[i].1, ';') by {
            assert(rest[i] == ps[i + 1]);
            assert(lacks(ps[i + 1].0, ';') && lacks(ps[i + 1].1, ';'));
        }
        lemma_split_params(first, rest);
        assert(seq![p0] + (seq![first] + rest.map_values(|p: (Seq<char>, Seq<char>)| pair_text(p))) =~= seq![p0]
            + ps.map_values(|p: (Seq<char>, Seq<char>)| pair_text(p)));
    }
}

/// `key=value` splits at its first `=` into the key and the value when the
/// key holds no `=`.
proof fn lemma_split_pair(p: (Seq<char>, Seq<char>))
    requires
        lacks(p.0, '='),
    ensures
        split_once(pair_text(p), seq!['=']) == Some(p),
{
    let s = pair_text(p);
    assert(s.subrange(p.0.len() as int, p.0.len() + 1int) =~= seq!['=']);
    assert forall|i: int| 0 <= i < p.0.len() implies !matches_at(s, i, seq!['=']) by {
        assert(s.subrange(i, i + 1)[0] == p.0[i]);
    }
    crate::text::lemma_index_of_unique(s, seq!['='], p.0.len() as int);
    assert(s.take(p.0.len() as int) =~= p.0);
    assert(s.skip(p.0.len() + 1int) =~= p.1);
}

/// The pieces `key=value` of pairs whose keys hold no `=` read back as
/// the pairs.
#[verifier::spinoff_prover]
proof fn lemma_pairs_of_pieces(ps: Pairs)
    requires
        forall|i: int| 0 <= i < ps.len() ==> lacks(#[trigger] ps[i].0, '='),
    ensures
        spec_pairs(ps.map_values(|p: (Seq<char>, Seq<char>)| pair_text(p))) == Some(ps),
    decreases ps.len(),
{
    let pieces = ps.map_values(|p: (Seq<char>, Seq<char>)| pair_text(p));
    if ps.len() == 0 {
        assert(ps =~= Seq::<(Seq<char>, Seq<char>)>::empty());
    } else {
        let init = ps.drop_last();
        assert forall|i: int| 0 <= i < init.len() implies lacks(#[trigger] init[i].0, '=') by {
            assert(init[i] == ps[i]);
        }
        lemma_pairs_of_pieces(init);
        assert(pieces.drop_last() =~= init.map_values(|p: (Seq<char>, Seq<char>)| pair_text(p)));
        lemma_split_pair(ps.last());
        assert(init.push(ps.last()) =~= ps);
    }
}

/// Pairs with distinct keys collect to themselves.
#[verifier::spinoff_prover]
proof fn lemma_collect_distinct(ps: Pairs)
    requires
        forall|i: int, j: int| 0 <= i < j < ps.len() ==> #[trigger] ps[i].0 != #[trigger] ps[j].0,
    ensures
        collect_pairs(ps) == ps,
    decreases ps.len(),
{
    if ps.len() > 0 {
        let init = ps.drop_last();
        assert forall|i: int, j: int| 0 <= i < j < init.len() implies #[trigger] init[i].0 != #[trigger] init[j].0 by {
            assert(init[i] == ps[i] && init[j] == ps[j]);
        }
        lemma_collect_distinct(init);
        lemma_key_index(init, ps.last().0);
        if let Some(i) = key_index(init, ps.last().0) {
            assert(ps[i].0 == ps[ps.len() - 1].0);
        }
        assert(init.push(ps.last()) =~= ps);
    }
}

/// Parsing the text of a station URL gives the URL back, for every URL
/// whose text can be read back (see `station_url_writable`).
#[verifier::spinoff_prover]
pub proof fn lemma_station_url_text_roundtrip(u: StationURLView)
    requires
        station_url_writable(u),
    ensures
        spec_station_url(spec_station_url_text(u)) == Ok::<StationURLView, StationURLParseError>(u),
{
    let (scheme, addr, port, ps) = u;
    let dec = decimal(port as nat);
    let addr_piece = (address_key(), addr);
    let port_piece = (port_key(), dec);
    let rest = pair_text(addr_piece) + (seq![';'] + pair_text(port_piece) + params_text(ps));
    let text = spec_station_url_text(u);
    // the scheme
    let sep = seq![':', '/'];
    assert(text =~= scheme + sep + rest);
    assert(text.subrange(scheme.len() as int, scheme.len() + 2int) =~= sep);
    assert forall|i: int| 0 <= i < scheme.len() implies !matches_at(text, i, sep) by {
        if i + 2 <= scheme.len() {
            assert(text.subrange(i, i + 2) =~= scheme.subrange(i, i + 2));
            assert(!matches_at(scheme, i, sep));
        } else {
            assert(text[i + 1] == ':');
        }
    }
    crate::text::lemma_index_of_unique(text, sep, scheme.len() as int);
    assert(text.take(scheme.len() as int) =~= scheme);
    assert(text.skip(scheme.len() + 2int) =~= rest);
    // the parameters
    let all = seq![addr_piece, port_piece] + ps;
    assert(lacks(pair_text(addr_piece), ';')) by {
        assert forall|i: int| 0 <= i < pair_text(addr_piece).len() implies pair_text(addr_piece)[i] != ';' by {
            if i > 7 {
                assert(pair_text(addr_piece)[i] == addr[i - 8]);
            }
        }
    }
    crate::text::lemma_decimal_all_digits(port as nat);
    assert(lacks(dec, ';')) by {
        assert forall|i: int| 0 <= i < dec.len() implies dec[i] != ';' by {
            assert(crate::text::is_digit(dec[i]));
        }
    }
    assert forall|i: int| 0 <= i < all.len() implies lacks(#[trigger] all[i].0, ';') && lacks(all[i].1, ';') by {
        if i >= 2 {
            assert(all[i] == ps[i - 2]);
        }
    }
    let rest_all = pair_text(addr_piece) + params_text(seq![port_piece] + ps);
    assert(seq![port_piece] + ps =~= (seq![port_piece] + ps));
    lemma_params_text_front(seq![port_piece] + ps);
    assert((seq![port_piece] + ps).skip(1) =~= ps);
    assert(rest_all =~= rest);
    lemma_params_text_front(all);
    assert(all.skip(1) =~= seq![port_piece] + ps);
    assert(params_text(all) =~= seq![';'] + pair_text(addr_piece) + params_text(seq![port_piece] + ps));
    lemma_split_params(pair_text(addr_piece), seq![port_piece] + ps);
    let pieces = all.map_values(|p: (Seq<char>, Seq<char>)| pair_text(p));
    assert(split(rest, ';') =~= pieces);
    assert forall|i: int| 0 <= i < all.len() implies lacks(#[trigger] all[i].0, '=') by {
        if i >= 2 {
            assert(all[i] == ps[i - 2]);
        }
    }
    lemma_pairs_of_pieces(all);
    assert forall|i: int, j: int| 0 <= i < j < all.len() implies #[trigger] all[i].0 != #[trigger] all[j].0 by {
        if j >= 2 {
            assert(all[j] == ps[j - 2]);
            if i >= 2 {
                assert(all[i] == ps[i - 2]);
            }
        }
    }
    lemma_collect_distinct(all);
    // the address and the port
    assert(key_index(all, address_key()) == Some(0int));
    let m1 = all.remove(0);
    assert(m1 =~= seq![port_piece] + ps);
    assert(key_index(m1, port_key()) == Some(0int));
    crate::text::lemma_decimal_roundtrip(port as nat, 0xffff);
    assert(m1.remove(0) =~= ps);
}

/// Where a station can be reached.
#[derive(Debug, Clone)]
pub struct StationURL {
    pub scheme: String,
    pub address: String,
    pub port: u16,
    pub params: Vec<(String, String)>,
}

pub open spec fn string_pairs(v: Seq<(String, String)>) -> Pairs {
    v.map_values(|p: (String, String)| (p.0@, p.1@))
}

pub open spec fn char_pairs(v: Seq<(Vec<char>, Vec<char>)>) -> Pairs {
    v.map_values(|p: (Vec<char>, Vec<char>)| (p.0@, p.1@))
}

impl DeepView for StationURL {
    type V = StationURLView;

    open spec fn deep_view(&self) -> StationURLView {
        (self.scheme@, self.address@, self.port, string_pairs(self.params@))
    }
}

fn key_index_exec(m: &Vec<(Vec<char>, Vec<char>)>, k: &[char]) -> (r: Option<usize>)
    ensures
        match key_index(char_pairs(m@), k@) {
            Some(i) => r == Some(i as usize),
            None => r is None,
        },
{
    let mut i: usize = 0;
    assert(char_pairs(m@).skip(0) =~= char_pairs(m@));
    while i < m.len()
        invariant
            i <= m@.len(),
            key_index(char_pairs(m@), k@) == match key_index(char_pairs(m@).skip(i as int), k@) {
                Some(j) => Some(j + i),
                None => None::<int>,
            },
        decreases m@.len() - i,
    {
        let ghost rest = char_pairs(m@).skip(i as int);
        assert(rest.skip(1) =~= char_pairs(m@).skip(i + 1));
        if chars_eq(m[i].0.as_slice(), k) {
            assert(rest[0].0 == k@);
            return Some(i);
        }
        i = i + 1;
    }
    None
}

fn pairs_of(pieces: &Vec<Vec<char>>) -> (r: Option<Vec<(Vec<char>, Vec<char>)>>)
    ensures
        match spec_pairs(views(pieces@)) {
            Some(p) => r matches Some(v) && char_pairs(v@) == p,
            None => r is None,
        },
{
    let mut eq: Vec<char> = Vec::new();
    eq.push('=');
    assert(eq@ =~= seq!['=']);
    let mut out: Vec<(Vec<char>, Vec<char>)> = Vec::new();
    let mut i: usize = 0;
    while i < pieces.len()
        invariant
            i <= pieces@.len(),
            eq@ == seq!['='],
            spec_pairs(views(pieces@).take(i as int)) == Some(char_pairs(out@)),
        decreases pieces@.len() - i,
    {
        assert(views(pieces@).take(i + 1).drop_last() =~= views(pieces@).take(i as int));
        assert(views(pieces@).take(i + 1).last() == pieces@[i as int]@);
        match split_once_chars(pieces[i].as_slice(), eq.as_slice()) {
            Some((k, v)) => {
                let ghost old_out = out@;
                out.push((k, v));
                assert(char_pairs(out@) =~= char_pairs(old_out).push((k@, v@)));
            },
            None => {
                proof {
                    lemma_pairs_none(views(pieces@), i as int);
                }
                return None;
            },
        }
        i = i + 1;
    }
    assert(views(pieces@).take(i as int) =~= views(pieces@));
    Some(out)
}

/// Once a piece has no `=`, the pieces up to any later point have no
/// pairs.
proof fn lemma_pairs_none(pieces: Seq<Seq<char>>, i: int)
    requires
        0 <= i < pieces.len(),
        split_once(pieces[i], seq!['=']) is None,
    ensures
        spec_pairs(pieces) is None,
    decreases pieces.len(),
{
    if i < pieces.len() - 1 {
        lemma_pairs_none(pieces.drop_last(), i);
    }
}

fn collect_exec(pairs: Vec<(Vec<char>, Vec<char>)>) -> (r: Vec<(Vec<char>, Vec<char>)>)
    ensures
        char_pairs(r@) == collect_pairs(char_pairs(pairs@)),
{
    let mut m: Vec<(Vec<char>, Vec<char>)> = Vec::new();
    let mut i: usize = 0;
    let n = pairs.len();
    let mut pairs = pairs;
    let ghost all = char_pairs(pairs@);
    assert(all.take(0) =~= Seq::<(Seq<char>, Seq<char>)>::empty());
    assert(char_pairs(m@) =~= Seq::<(Seq<char>, Seq<char>)>::empty());
    while i < n
        invariant
            n == pairs@.len(),
            i <= n,
            all == char_pairs(pairs@),
            char_pairs(m@) == collect_pairs(all.take(i as int)),
        decreases n - i,
    {
        assert(all.take(i + 1).drop_last() =~= all.take(i as int));
        let k = copy_chars(&pairs[i].0);
        let v = copy_chars(&pairs[i].1);
        let ghost before = char_pairs(m@);
        assert(all[i as int] == (pairs@[i as int].0@, pairs@[i as int].1@));
        assert(k@ == all[i as int].0 && v@ == all[i as int].1);
        proof {
            lemma_key_index(before, k@);
        }
        let ghost kv = all[i as int];
        let ks = k.as_slice();
        assert(ks@ == kv.0);
        match key_index_exec(&m, ks) {
            Some(j) => {
                let ghost ii = key_index(before, kv.0)->0;
                assert(0 <= ii < before.len());
                assert(before.len() == m@.len());
                assert(m@.len() == m.len());
                assert(Some(j) == Some(ii as usize));
                assert(j as int == ii);
                assert(key_index(before, kv.0) == Some(j as int));
                m.set(j, (k, v));
                assert(char_pairs(m@) =~= before.update(j as int, (kv.0, kv.1)));
                assert(char_pairs(m@) == map_insert(before, kv.0, kv.1));
            },
            None => {
                assert(key_index(before, kv.0) is None);
                m.push((k, v));
                assert(char_pairs(m@) =~= before.push((kv.0, kv.1)));
                assert(char_pairs(m@) == map_insert(before, kv.0, kv.1));
            },
        }
        assert(all.take(i + 1).last() == kv);
        i = i + 1;
    }
    assert(all.take(n as int) =~= all);
    m
}

fn copy_chars(v: &Vec<char>) -> (r: Vec<char>)
    ensures
        r@ == v@,
{
    crate::text::sub_chars(v.as_slice(), 0, v.len())
}

fn string_of(v: &Vec<char>) -> (r: String)
    ensures
        r@ == v@,
{
    string_from_chars(v.as_slice())
}

/// Reads a station URL from its text.
#[verifier::spinoff_prover]
#[verifier::rlimit(40)]
pub fn parse_station_url(s: &str) -> (r: Result<StationURL, StationURLParseError>)
    ensures
        match spec_station_url(s@) {
            Ok(u) => r matches Ok(x) && x.deep_view() == u,
            Err(e) => r == Err::<StationURL, StationURLParseError>(e),
        },
{
    let cs = chars_of(s);
    let mut sep: Vec<char> = Vec::new();
    sep.push(':');
    sep.push('/');
    assert(sep@ =~= seq![':', '/']);
    let (scheme, rest) = match split_once_chars(cs.as_slice(), sep.as_slice()) {
        Some(p) => p,
        None => return Err(StationURLParseError::MissingScheme),
    };
    let pieces = split_chars(rest.as_slice(), ';');
    let pairs = match pairs_of(&pieces) {
        Some(p) => p,
        None => return Err(StationURLParseError::InvalidParameters),
    };
    let mut m = collect_exec(pairs);
    let ghost m0 = char_pairs(m@);
    let mut akey: Vec<char> = Vec::new();
    akey.push('a');
    akey.push('d');
    akey.push('d');
    akey.push('r');
    akey.push('e');
    akey.push('s');
    akey.push('s');
    assert(akey@ =~= address_key());
    proof {
        lemma_key_index(m0, address_key());
    }
    let ai = match key_index_exec(&m, akey.as_slice()) {
        Some(i) => i,
        None => {
            assert(key_index(m0, address_key()) is None);
            return Err(StationURLParseError::MissingAddress);
        },
    };
    proof {
        assert(key_index(m0, address_key()) is Some);
        let ii = key_index(m0, address_key())->0;
        assert(0 <= ii < m0.len());
        assert(m0.len() == m@.len());
        assert(m@.len() == m.len());
        assert(Some(ai) == Some(ii as usize));
        assert(ai as int == ii);
    }
    let (_, address) = m.remove(ai);
    assert(char_pairs(m@) =~= m0.remove(ai as int));
    let ghost m1 = char_pairs(m@);
    let mut pkey: Vec<char> = Vec::new();
    pkey.push('p');
    pkey.push('o');
    pkey.push('r');
    pkey.push('t');
    assert(pkey@ =~= port_key());
    proof {
        lemma_key_index(m1, port_key());
    }
    let pi = match key_index_exec(&m, pkey.as_slice()) {
        Some(i) => i,
        None => {
            assert(key_index(m1, port_key()) is None);
            assert(m1 == m0.remove(ai as int));
            return Err(StationURLParseError::MissingPort);
        },
    };
    proof {
        assert(key_index(m1, port_key()) is Some);
        let ii = key_index(m1, port_key())->0;
        assert(0 <= ii < m1.len());
        assert(m1.len() == m@.len());
        assert(m@.len() == m.len());
        assert(Some(pi) == Some(ii as usize));
        assert(pi as int == ii);
    }
    let (_, port_text) = m.remove(pi);
    assert(char_pairs(m@) =~= m1.remove(pi as int));
    let port = match parse_unsigned(port_text.as_slice(), 0xffff) {
        Some(p) => p as u16,
        None => return Err(StationURLParseError::InvalidPort(unsigned_error(port_text.as_slice(), 0xffff))),
    };
    let mut params: Vec<(String, String)> = Vec::new();
    let mut i: usize = 0;
    while i < m.len()
        invariant
            i <= m@.len(),
            string_pairs(params@) =~= char_pairs(m@).take(i as int),
        decreases m@.len() - i,
    {
        let k = string_of(&m[i].0);
        let v = string_of(&m[i].1);
        let ghost before = string_pairs(params@);
        params.push((k, v));
        assert(string_pairs(params@) =~= before.push((m@[i as int].0@, m@[i as int].1@)));
        i = i + 1;
    }
    assert(char_pairs(m@).take(m@.len() as int) =~= char_pairs(m@));
    Ok(StationURL { scheme: string_of(&scheme), address: string_of(&address), port, params })
}

impl StationURL {
    /// The text of the URL.
    pub fn to_string(&self) -> (r: String)
        ensures
            r@ == spec_station_url_text(self.deep_view()),
    {
        let mut s = String::new();
        push_chars(&mut s, chars_of(self.scheme.as_str()).as_slice());
        string_push(&mut s, ':');
        string_push(&mut s, '/');
        string_push(&mut s, 'a');
        string_push(&mut s, 'd');
        string_push(&mut s, 'd');
        string_push(&mut s, 'r');
        string_push(&mut s, 'e');
        string_push(&mut s, 's');
        string_push(&mut s, 's');
        string_push(&mut s, '=');
        push_chars(&mut s, chars_of(self.address.as_str()).as_slice());
        string_push(&mut s, ';');
        string_push(&mut s, 'p');
        string_push(&mut s, 'o');
        string_push(&mut s, 'r');
        string_push(&mut s, 't');
        string_push(&mut s, '=');
        push_decimal(&mut s, self.port as u64);
        let ghost head = s@;
        let mut i: usize = 0;
        while i < self.params.len()
            invariant
                i <= self.params@.len(),
                s@ =~= head + params_text(string_pairs(self.params@).take(i as int)),
            decreases self.params@.len() - i,
        {
            assert(string_pairs(self.params@).take(i + 1).drop_last() =~= string_pairs(self.params@).take(i as int));
            string_push(&mut s, ';');
            push_chars(&mut s, chars_of(self.params[i].0.as_str()).as_slice());
            string_push(&mut s, '=');
            push_chars(&mut s, chars_of(self.params[i].1.as_str()).as_slice());
            i = i + 1;
        }
        assert(string_pairs(self.params@).take(self.params@.len() as int) =~= string_pairs(self.params@));
        s
    }

    /// The station URL that the text writes.
    pub fn parse_str(s: &str) -> (r: Result<StationURL, StationURLParseError>)
        ensures
            match spec_station_url(s@) {
                Ok(u) => r matches Ok(x) && x.deep_view() == u,
                Err(e) => r == Err::<StationURL, StationURLParseError>(e),
            },
    {
        parse_station_url(s)
    }
}

impl std::str::FromStr for StationURL {
    type Err = StationURLParseError;

    fn from_str(s: &str) -> (r: Result<StationURL, StationURLParseError>)
        ensures
            match spec_station_url(s@) {
                Ok(u) => r matches Ok(x) && x.deep_view() == u,
                Err(e) => r == Err::<StationURL, StationURLParseError>(e),
            },
    {
        parse_station_url(s)
    }
}

impl FromStream for StationURL {
    open spec fn spec_from_stream(data: Seq<u8>) -> Result<(StationURLView, nat), FromStreamError> {
        match spec_string(data) {
            Err(e) => Err(e),
            Ok((s, n)) => match spec_station_url(s) {
                Ok(u) => Ok((u, n)),
                Err(e) => Err(FromStreamError::ParseStationURL(e)),
            },
        }
    }

    fn from_stream(stream: &mut ReadStream) -> (r: Result<StationURL, FromStreamError>) {
        let s = match String::from_stream(stream) {
            Ok(s) => s,
            Err(e) => return Err(e),
        };
        match parse_station_url(s.as_str()) {
            Ok(u) => Ok(u),
            Err(e) => Err(FromStreamError::ParseStationURL(e)),
        }
    }
}

impl ToStream for StationURL {
    open spec fn spec_to_stream(v: StationURLView) -> Seq<u8> {
        spec_string_bytes(spec_station_url_text(v))
    }

    fn to_stream(&self, stream: &mut WriteStream) -> (n: usize) {
        let s = self.to_string();
        s.to_stream(stream)
    }
}

impl QList<StationURL> {
    /// The list of the station URLs that the texts write, or the first
    /// error.
    pub fn try_from_strs(v: &Vec<String>) -> (r: Result<QList<StationURL>, StationURLParseError>)
        ensures
            r matches Ok(l) ==> l.0@.len() == v@.len() && forall|i: int|
                0 <= i < v@.len() ==> spec_station_url(v@[i]@) == Ok::<StationURLView, StationURLParseError>(
                    #[trigger] l.0@[i].deep_view(),
                ),
            r matches Err(e) ==> exists|i: int|
                0 <= i < v@.len() && spec_station_url(#[trigger] v@[i]@) == Err::<StationURLView, StationURLParseError>(e),
    {
        let mut out: Vec<StationURL> = Vec::new();
        let mut i: usize = 0;
        while i < v.len()
            invariant
                i <= v@.len(),
                out@.len() == i,
                forall|k: int| 0 <= k < i ==> spec_station_url(v@[k]@) == Ok::<StationURLView, StationURLParseError>(
                    #[trigger] out@[k].deep_view(),
                ),
            decreases v@.len() - i,
        {
            match parse_station_url(v[i].as_str()) {
                Ok(u) => out.push(u),
                Err(e) => return Err(e),
            }
            i = i + 1;
        }
        Ok(QList(out))
    }
}

// ---------------------------------------------------------------------------
// Properties as text
// ---------------------------------------------------------------------------

/// The separator of a property's id and value.
pub open spec fn arrow() -> Seq<char> {
    seq![' ', '=', '>', ' ']
}

/// The property that a text writes: `id => value`, both `u32` in decimal.
pub open spec fn spec_property(s: Seq<char>) -> Option<Property> {
    match split_once(s, arrow()) {
        None => None,
        Some((a, b)) => match (spec_parse_unsigned(a, u32::MAX as nat), spec_parse_unsigned(b, u32::MAX as nat)) {
            (Some(id), Some(value)) => Some(Property { id: id as u32, value: value as u32 }),
            _ => None,
        },
    }
}

fn arrow_chars() -> (r: Vec<char>)
    ensures
        r@ == arrow(),
{
    let mut v: Vec<char> = Vec::new();
    v.push(' ');
    v.push('=');
    v.push('>');
    v.push(' ');
    assert(v@ =~= arrow());
    v
}

fn property_of_chars(cs: &[char]) -> (r: Option<Property>)
    ensures
        r == spec_property(cs@),
{
    let arrow = arrow_chars();
    let (a, b) = match split_once_chars(cs, arrow.as_slice()) {
        Some(p) => p,
        None => return None,
    };
    let id = parse_unsigned(a.as_slice(), u32::MAX as u64);
    let value = parse_unsigned(b.as_slice(), u32::MAX as u64);
    match (id, value) {
        (Some(id), Some(value)) => Some(Property { id: id as u32, value: value as u32 }),
        _ => None,
    }
}

impl Property {
    /// The property that the text writes, or `InvalidValue`.
    pub fn parse_str(s: &str) -> (r: Result<Property, crate::Error>)
        ensures
            match spec_property(s@) {
                Some(p) => r == Ok::<Property, crate::Error>(p),
                None => r == Err::<Property, crate::Error>(crate::Error::InvalidValue),
            },
    {
        let cs = chars_of(s);
        match property_of_chars(cs.as_slice()) {
            Some(p) => Ok(p),
            None => Err(crate::Error::InvalidValue),
        }
    }

    /// The text of the property: `id => value`.
    pub fn to_string(&self) -> (r: String)
        ensures
            r@ == decimal(self.id as nat) + arrow() + decimal(self.value as nat),
    {
        let mut s = String::new();
        push_decimal(&mut s, self.id as u64);
        push_chars(&mut s, arrow_chars().as_slice());
        push_decimal(&mut s, self.value as u64);
        s
    }
}

/// Parsing the text of a property gives the property back.
pub proof fn lemma_property_text_roundtrip(p: Property)
    ensures
        spec_property(decimal(p.id as nat) + arrow() + decimal(p.value as nat)) == Some(p),
{
    let a = decimal(p.id as nat);
    let b = decimal(p.value as nat);
    let s = a + arrow() + b;
    crate::text::lemma_decimal_all_digits(p.id as nat);
    assert(s.subrange(a.len() as int, a.len() + 4int) =~= arrow());
    assert forall|i: int| 0 <= i < a.len() implies !matches_at(s, i, arrow()) by {
        assert(s[i] == a[i]);
        assert(crate::text::is_digit(a[i]));
        if matches_at(s, i, arrow()) {
            assert(s.subrange(i, i + 4)[0] == s[i]);
        }
    }
    crate::text::lemma_index_of_unique(s, arrow(), a.len() as int);
    assert(s.take(a.len() as int) =~= a);
    assert(s.skip(a.len() + 4int) =~= b);
    crate::text::lemma_decimal_roundtrip(p.id as nat, u32::MAX as nat);
    crate::text::lemma_decimal_roundtrip(p.value as nat, u32::MAX as nat);
}

impl std::str::FromStr for Property {
    type Err = crate::Error;

    fn from_str(s: &str) -> (r: Result<Property, crate::Error>)
        ensures
            match spec_property(s@) {
                Some(p) => r == Ok::<Property, crate::Error>(p),
                None => r == Err::<Property, crate::Error>(crate::Error::InvalidValue),
            },
    {
        Property::parse_str(s)
    }
}

/// The properties that a `;`-separated text writes, or `None` when one of
/// its pieces is not a property.
pub open spec fn spec_properties(s: Seq<char>) -> Option<Seq<Property>> {
    let pieces = split(s, ';');
    if forall|i: int| 0 <= i < pieces.len() ==> (#[trigger] spec_property(pieces[i])) is Some {
        Some(Seq::new(pieces.len(), |i: int| spec_property(pieces[i])->Some_0))
    } else {
        None
    }
}

impl QList<Property> {
    /// The properties that a `;`-separated text writes, or `InvalidValue`.
    pub fn parse_str(s: &str) -> (r: Result<QList<Property>, crate::Error>)
        ensures
            match spec_properties(s@) {
                Some(ps) => r matches Ok(l) && l.0@ == ps,
                None => r == Err::<QList<Property>, crate::Error>(crate::Error::InvalidValue),
            },
    {
        let cs = chars_of(s);
        let pieces = split_chars(cs.as_slice(), ';');
        let ghost ps = split(s@, ';');
        assert(views(pieces@) == ps);
        let mut out: Vec<Property> = Vec::new();
        let mut i: usize = 0;
        while i < pieces.len()
            invariant
                i <= pieces@.len(),
                views(pieces@) == ps,
                ps == split(s@, ';'),
                out@.len() == i,
                forall|k: int| 0 <= k < i ==> spec_property(ps[k]) == Some(#[trigger] out@[k]),
            decreases pieces@.len() - i,
        {
            assert(views(pieces@)[i as int] == pieces@[i as int]@);
            match property_of_chars(pieces[i].as_slice()) {
                Some(p) => out.push(p),
                None => {
                    assert(spec_property(ps[i as int]) is None);
                    return Err(crate::Error::InvalidValue);
                },
            }
            i = i + 1;
        }
        assert forall|k: int| 0 <= k < ps.len() implies (#[trigger] spec_property(ps[k])) is Some by {
            assert(spec_property(ps[k]) == Some(out@[k]));
        }
        assert(out@ =~= Seq::new(ps.len(), |k: int| spec_property(ps[k])->Some_0));
        Ok(QList(out))
    }
}

impl std::str::FromStr for QList<Property> {
    type Err = crate::Error;

    fn from_str(s: &str) -> (r: Result<QList<Property>, crate::Error>)
        ensures
            match spec_properties(s@) {
                Some(ps) => r matches Ok(l) && l.0@ == ps,
                None => r == Err::<QList<Property>, crate::Error>(crate::Error::InvalidValue),
            },
    {
        QList::<Property>::parse_str(s)
    }
}

} // verus!
