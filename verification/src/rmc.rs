//! Remote method calls: request/response framing and their error codes.

pub mod basic;
pub mod protocols;
pub mod result;
pub mod types;

use crate::rmc::basic::{
    le_u16, le_u32, lemma_skip_skip, lemma_u16_roundtrip, lemma_u32_roundtrip, tail_vec, u16_at, u16_bytes, u32_at, u32_bytes, FromStreamError,
    IoErrorKind, ReadStream, WriteStream,
};
use vstd::prelude::*;

verus! {

/// Why an RMC message could not be handled.
#[derive(Debug, Clone, Copy, PartialEq, Eq, Structural)]
pub enum Error {
    /// Not enough data: the size field said one number of bytes, the
    /// message held another.
    MissingData(usize, usize),
    ParsingError,
    UnknownProtocol,
    UnknownMethod,
    UnimplementedMethod,
    InvalidPacketType,
    InternalError,
    AccessDenied,
    IO(IoErrorKind),
    FromStream(FromStreamError),
}

/// The wire code of an error, without the high "error" bit.
pub open spec fn spec_error_code_low(e: Error) -> u32 {
    match e {
        Error::UnknownProtocol | Error::UnknownMethod => 0x0001_0001,
        Error::UnimplementedMethod => 0x0001_0002,
        Error::AccessDenied => 0x0001_0006,
        Error::MissingData(_, _) => 0x0001_0009,
        Error::ParsingError | Error::InvalidPacketType | Error::IO(_) | Error::FromStream(_) => 0x0001_000A,
        Error::InternalError => 0x0001_0012,
    }
}

/// The error that a wire code stands for, or the code back when it stands
/// for none.
pub open spec fn spec_from_error_code(code: u32) -> Result<Error, u32> {
    if code < 0x8000_0000 {
        Err(code)
    } else {
        let low = (code - 0x8000_0000) as u32;
        if low == 0x0001_0001 {
            Ok(Error::UnknownProtocol)
        } else if low == 0x0001_0002 {
            Ok(Error::UnimplementedMethod)
        } else if low == 0x0001_0006 {
            Ok(Error::AccessDenied)
        } else if low == 0x0001_0009 {
            Ok(Error::MissingData(0, 0))
        } else if low == 0x0001_000A {
            Ok(Error::ParsingError)
        } else if low == 0x0001_0012 {
            Ok(Error::InternalError)
        } else {
            Err(low)
        }
    }
}

impl Error {
    /// The wire code: the error's code with the high bit set.
    pub fn to_error_code(&self) -> (r: u32)
        ensures
            r == spec_error_code_low(*self) + 0x8000_0000,
    {
        let code: u32 = match self {
            Error::UnknownProtocol | Error::UnknownMethod => 0x0001_0001,
            Error::UnimplementedMethod => 0x0001_0002,
            Error::AccessDenied => 0x0001_0006,
            Error::MissingData(_, _) => 0x0001_0009,
            Error::ParsingError | Error::InvalidPacketType | Error::IO(_) | Error::FromStream(_) => 0x0001_000A,
            Error::InternalError => 0x0001_0012,
        };
        code + 0x8000_0000
    }

    /// The error that a wire code stands for; a code without the high bit
    /// comes back unchanged, an unknown one without its high bit.
    pub fn from_error_code(code: u32) -> (r: Result<Error, u32>)
        ensures
            r == spec_from_error_code(code),
    {
        if code < 0x8000_0000 {
            return Err(code);
        }
        let low = code - 0x8000_0000;
        if low == 0x0001_0001 {
            Ok(Error::UnknownProtocol)
        } else if low == 0x0001_0002 {
            Ok(Error::UnimplementedMethod)
        } else if low == 0x0001_0006 {
            Ok(Error::AccessDenied)
        } else if low == 0x0001_0009 {
            Ok(Error::MissingData(0, 0))
        } else if low == 0x0001_000A {
            Ok(Error::ParsingError)
        } else if low == 0x0001_0012 {
            Ok(Error::InternalError)
        } else {
            Err(low)
        }
    }
}

/// A code that decodes to an error is that error's code.
pub proof fn lemma_error_code_roundtrip(code: u32)
    ensures
        spec_from_error_code(code) matches Ok(e) ==> spec_error_code_low(e) + 0x8000_0000 == code,
{
}

/// The code of an error decodes to an error with the same code.
pub proof fn lemma_error_code_stable(e: Error)
    ensures
        spec_from_error_code((spec_error_code_low(e) + 0x8000_0000) as u32) is Ok,
        spec_error_code_low(spec_from_error_code((spec_error_code_low(e) + 0x8000_0000) as u32)->Ok_0)
            == spec_error_code_low(e),
{
}

/// Turns a stream failure into an RMC error.
pub fn stream_error(e: FromStreamError) -> (r: Error)
    ensures
        r == spec_stream_error(e),
{
    match e {
        FromStreamError::IO(k) => Error::IO(k),
        other => Error::FromStream(other),
    }
}

pub open spec fn spec_stream_error(e: FromStreamError) -> Error {
    match e {
        FromStreamError::IO(k) => Error::IO(k),
        other => Error::FromStream(other),
    }
}

pub open spec fn rmc_eof() -> Error {
    Error::IO(IoErrorKind::UnexpectedEof)
}

// ---------------------------------------------------------------------------
// Requests
// ---------------------------------------------------------------------------

/// A call of a method of a protocol.
#[derive(Debug)]
pub struct Request {
    pub protocol_id: u16,
    pub call_id: u32,
    pub method_id: u32,
    pub parameters: Vec<u8>,
}

impl View for Request {
    type V = (u16, u32, u32, Seq<u8>);

    open spec fn view(&self) -> (u16, u32, u32, Seq<u8>) {
        (self.protocol_id, self.call_id, self.method_id, self.parameters@)
    }
}

/// The request that `data` holds: a `u32` size, the protocol id (one byte
/// with the high bit set, or `0xff` and a `u16`), the call id, the method
/// id and the parameters.
pub open spec fn spec_request(data: Seq<u8>) -> Result<(u16, u32, u32, Seq<u8>), Error> {
    if data.len() < 4 {
        Err(rmc_eof())
    } else if (le_u32(data) as int) < data.len() - 4 {
        Err(Error::MissingData(le_u32(data) as usize, (data.len() - 4) as usize))
    } else if data.len() < 5 {
        Err(rmc_eof())
    } else if data[4] == 0xff {
        if data.len() < 15 {
            Err(rmc_eof())
        } else {
            Ok((le_u16(data.skip(5)), le_u32(data.skip(7)), le_u32(data.skip(11)), data.skip(15)))
        }
    } else if data.len() < 13 {
        Err(rmc_eof())
    } else {
        Ok(((data[4] & 0x7f) as u16, le_u32(data.skip(5)), le_u32(data.skip(9)), data.skip(13)))
    }
}

/// The protocol id of a request: one byte with the high bit set below
/// `0xff`, else `0xff` and the id as a `u16`.
pub open spec fn spec_request_protocol(pid: u16) -> Seq<u8> {
    if pid < 0xff {
        seq![(pid as u8) | 0x80]
    } else {
        seq![0xffu8] + u16_bytes(pid)
    }
}

/// A request without its size field.
pub open spec fn spec_request_body(r: (u16, u32, u32, Seq<u8>)) -> Seq<u8> {
    spec_request_protocol(r.0) + u32_bytes(r.1) + u32_bytes(r.2) + r.3
}

/// The encoding of a request: its body behind the body's size.
pub open spec fn spec_request_bytes(r: (u16, u32, u32, Seq<u8>)) -> Seq<u8> {
    u32_bytes((spec_request_body(r).len() % 0x1_0000_0000) as u32) + spec_request_body(r)
}

impl Request {
    pub fn from_bytes(data: &[u8]) -> (r: Result<Self, Error>)
        ensures
            match spec_request(data@) {
                Ok(v) => r is Ok && r->Ok_0@ == v,
                Err(e) => r == Err::<Self, Error>(e),
            },
    {
        let len = data.len();
        if len < 4 {
            return Err(Error::IO(IoErrorKind::UnexpectedEof));
        }
        let size = u32_at(data, 0);
        if (size as usize) < len - 4 {
            return Err(Error::MissingData(size as usize, len - 4));
        }
        if len < 5 {
            return Err(Error::IO(IoErrorKind::UnexpectedEof));
        }
        let b = data[4];
        let (protocol_id, pos) = if b == 0xff {
            if len < 7 {
                return Err(Error::IO(IoErrorKind::UnexpectedEof));
            }
            (u16_at(data, 5), 7usize)
        } else {
            ((b & 0x7f) as u16, 5usize)
        };
        if len < pos + 8 {
            return Err(Error::IO(IoErrorKind::UnexpectedEof));
        }
        let call_id = u32_at(data, pos);
        let method_id = u32_at(data, pos + 4);
        let parameters = tail_vec(data, pos + 8);
        Ok(Request { protocol_id, call_id, method_id, parameters })
    }

    pub fn to_bytes(&self) -> (r: Vec<u8>)
        ensures
            r@ == spec_request_bytes(self@),
    {
        let mut w = WriteStream::new();
        if self.protocol_id < 0xff {
            w.u8((self.protocol_id as u8) | 0x80);
        } else {
            w.u8(0xff);
            w.u16(self.protocol_id);
        }
        w.u32(self.call_id);
        w.u32(self.method_id);
        w.write_n_bytes(self.parameters.as_slice());
        let body = w.into_inner();
        assert(body@ =~= spec_request_body(self@));
        let mut res = WriteStream::new();
        res.u32((body.len() as u64 % 0x1_0000_0000) as u32);
        res.write_n_bytes(body.as_slice());
        res.into_inner()
    }
}

// ---------------------------------------------------------------------------
// Responses
// ---------------------------------------------------------------------------

/// The result of a successful call.
#[derive(Debug)]
pub struct ResponseData {
    pub call_id: u32,
    pub method_id: u32,
    pub data: Vec<u8>,
}

impl View for ResponseData {
    type V = (u32, u32, Seq<u8>);

    open spec fn view(&self) -> (u32, u32, Seq<u8>) {
        (self.call_id, self.method_id, self.data@)
    }
}

/// The error code of a failed call.
#[derive(Debug)]
pub struct ResponseError {
    pub error_code: u32,
    pub call_id: u32,
}

impl View for ResponseError {
    type V = (u32, u32);

    open spec fn view(&self) -> (u32, u32) {
        (self.error_code, self.call_id)
    }
}

/// The answer to a request.
#[derive(Debug)]
pub struct Response {
    pub protocol_id: u16,
    pub result: Result<ResponseData, ResponseError>,
}

pub type ResponseView = (u16, Result<(u32, u32, Seq<u8>), (u32, u32)>);

impl View for Response {
    type V = ResponseView;

    open spec fn view(&self) -> ResponseView {
        (
            self.protocol_id,
            match self.result {
                Ok(d) => Ok(d@),
                Err(e) => Err(e@),
            },
        )
    }
}

/// The call id, the method id without its response bit, and the rest.
pub open spec fn spec_response_data(data: Seq<u8>) -> Result<(u32, u32, Seq<u8>), Error> {
    if data.len() < 8 {
        Err(rmc_eof())
    } else {
        Ok((le_u32(data), le_u32(data.skip(4)) & !0x8000u32, data.skip(8)))
    }
}

/// The error code and the call id.
pub open spec fn spec_response_error(data: Seq<u8>) -> Result<(u32, u32), Error> {
    if data.len() < 8 {
        Err(rmc_eof())
    } else {
        Ok((le_u32(data), le_u32(data.skip(4))))
    }
}

/// The response that `data` holds: a `u32` size (not checked), the
/// protocol id (one byte, or `0x7f` and a `u16`), a status byte (1 for
/// success, 0 for an error) and the data or the error.
pub open spec fn spec_response(data: Seq<u8>) -> Result<ResponseView, Error> {
    if data.len() < 5 {
        Err(rmc_eof())
    } else {
        let (pid, k) = if data[4] == 0x7f {
            (le_u16(data.skip(5)), 7int)
        } else {
            (data[4] as u16, 5int)
        };
        if data.len() < k + 1 {
            Err(rmc_eof())
        } else if data[k] == 0 {
            match spec_response_error(data.skip(k + 1)) {
                Ok(e) => Ok((pid, Err(e))),
                Err(e) => Err(e),
            }
        } else if data[k] == 1 {
            match spec_response_data(data.skip(k + 1)) {
                Ok(d) => Ok((pid, Ok(d))),
                Err(e) => Err(e),
            }
        } else {
            Err(Error::InvalidPacketType)
        }
    }
}

/// The protocol id of a response: one byte below `0x7f`, else `0x7f` and
/// the id as a `u16`.
pub open spec fn spec_response_protocol(pid: u16) -> Seq<u8> {
    if pid < 0x7f {
        seq![pid as u8]
    } else {
        seq![0x7fu8] + u16_bytes(pid)
    }
}

/// A response without its size field.
pub open spec fn spec_response_body(r: ResponseView) -> Seq<u8> {
    spec_response_protocol(r.0) + match r.1 {
        Ok(d) => seq![1u8] + u32_bytes(d.0) + u32_bytes(d.1 | 0x8000u32) + d.2,
        Err(e) => seq![0u8] + u32_bytes(e.0) + u32_bytes(e.1),
    }
}

/// The encoding of a response: its body behind the body's size.
pub open spec fn spec_response_bytes(r: ResponseView) -> Seq<u8> {
    u32_bytes((spec_response_body(r).len() % 0x1_0000_0000) as u32) + spec_response_body(r)
}

impl ResponseData {
    /// Reads the call id, the method id (dropping its response bit) and
    /// everything that remains.
    pub fn from_reader(rdr: &mut ReadStream) -> (r: Result<Self, Error>)
        ensures
            match spec_response_data(old(rdr)@) {
                Ok(v) => r is Ok && r->Ok_0@ == v && final(rdr)@.len() == 0,
                Err(e) => r == Err::<Self, Error>(e),
            },
    {
        let call_id = match rdr.u32() {
            Ok(v) => v,
            Err(e) => return Err(stream_error(e)),
        };
        let method_id = match rdr.u32() {
            Ok(v) => v & !0x8000,
            Err(e) => return Err(stream_error(e)),
        };
        let data = match rdr.read_all() {
            Ok(v) => v,
            Err(e) => return Err(stream_error(e)),
        };
        proof {
            lemma_skip_skip(old(rdr)@, 4, 4);
        }
        Ok(ResponseData { call_id, method_id, data })
    }

    pub fn to_bytes(&self) -> (r: Vec<u8>)
        ensures
            r@ == u32_bytes(self.call_id) + u32_bytes(self.method_id | 0x8000u32) + self.data@,
    {
        let mut w = WriteStream::new();
        w.u32(self.call_id);
        w.u32(self.method_id | 0x8000);
        w.write_n_bytes(self.data.as_slice());
        w.into_inner()
    }
}

impl ResponseError {
    /// Reads the error code and the call id.
    pub fn from_reader(rdr: &mut ReadStream) -> (r: Result<Self, Error>)
        ensures
            match spec_response_error(old(rdr)@) {
                Ok(v) => r is Ok && r->Ok_0@ == v,
                Err(e) => r == Err::<Self, Error>(e),
            },
    {
        let error_code = match rdr.u32() {
            Ok(v) => v,
            Err(e) => return Err(stream_error(e)),
        };
        let call_id = match rdr.u32() {
            Ok(v) => v,
            Err(e) => return Err(stream_error(e)),
        };
        Ok(ResponseError { error_code, call_id })
    }

    pub fn to_bytes(&self) -> (r: Vec<u8>)
        ensures
            r@ == u32_bytes(self.error_code) + u32_bytes(self.call_id),
    {
        let mut w = WriteStream::new();
        w.u32(self.error_code);
        w.u32(self.call_id);
        w.into_inner()
    }
}

impl Response {
    pub fn from_bytes(data: &[u8]) -> (r: Result<Self, Error>)
        ensures
            match spec_response(data@) {
                Ok(v) => r is Ok && r->Ok_0@ == v,
                Err(e) => r == Err::<Self, Error>(e),
            },
    {
        let len = data.len();
        if len < 5 {
            return Err(Error::IO(IoErrorKind::UnexpectedEof));
        }
        let b = data[4];
        let (protocol_id, pos) = if b == 0x7f {
            if len < 7 {
                return Err(Error::IO(IoErrorKind::UnexpectedEof));
            }
            (u16_at(data, 5), 7usize)
        } else {
            (b as u16, 5usize)
        };
        if len < pos + 1 {
            return Err(Error::IO(IoErrorKind::UnexpectedEof));
        }
        let status = data[pos];
        let mut rdr = ReadStream::from_bytes(data);
        match rdr.read_n_bytes(pos + 1) {
            Ok(_) => {},
            Err(e) => return Err(stream_error(e)),
        }
        if status == 0 {
            match ResponseError::from_reader(&mut rdr) {
                Ok(e) => Ok(Response { protocol_id, result: Err(e) }),
                Err(e) => Err(e),
            }
        } else if status == 1 {
            match ResponseData::from_reader(&mut rdr) {
                Ok(d) => Ok(Response { protocol_id, result: Ok(d) }),
                Err(e) => Err(e),
            }
        } else {
            Err(Error::InvalidPacketType)
        }
    }

    pub fn to_bytes(&self) -> (r: Vec<u8>)
        ensures
            r@ == spec_response_bytes(self@),
    {
        let mut w = WriteStream::new();
        if self.protocol_id < 0x7f {
            w.u8(self.protocol_id as u8);
        } else {
            w.u8(0x7f);
            w.u16(self.protocol_id);
        }
        match &self.result {
            Ok(rd) => {
                w.u8(1);
                let b = rd.to_bytes();
                w.write_n_bytes(b.as_slice());
            },
            Err(re) => {
                w.u8(0);
                let b = re.to_bytes();
                w.write_n_bytes(b.as_slice());
            },
        }
        let body = w.into_inner();
        assert(body@ =~= spec_response_body(self@));
        let mut res = WriteStream::new();
        res.u32((body.len() as u64 % 0x1_0000_0000) as u32);
        res.write_n_bytes(body.as_slice());
        res.into_inner()
    }
}

// ---------------------------------------------------------------------------
// Packets
// ---------------------------------------------------------------------------

/// An RMC message: a request, or a response to one.
#[derive(Debug)]
pub enum Packet {
    Request(Request),
    Response(Response),
}

pub enum PacketView {
    Request((u16, u32, u32, Seq<u8>)),
    Response(ResponseView),
}

impl View for Packet {
    type V = PacketView;

    open spec fn view(&self) -> PacketView {
        match self {
            Packet::Request(r) => PacketView::Request(r@),
            Packet::Response(r) => PacketView::Response(r@),
        }
    }
}

/// The message that `data` holds: a request when the high bit of the byte
/// after the size is set, else a response.
pub open spec fn spec_packet(data: Seq<u8>) -> Result<PacketView, Error> {
    if data.len() < 5 {
        Err(Error::MissingData(5, data.len() as usize))
    } else if data[4] & 0x80 == 0 {
        match spec_response(data) {
            Ok(v) => Ok(PacketView::Response(v)),
            Err(e) => Err(e),
        }
    } else {
        match spec_request(data) {
            Ok(v) => Ok(PacketView::Request(v)),
            Err(e) => Err(e),
        }
    }
}

pub open spec fn spec_packet_bytes(p: PacketView) -> Seq<u8> {
    match p {
        PacketView::Request(r) => spec_request_bytes(r),
        PacketView::Response(r) => spec_response_bytes(r),
    }
}

impl Packet {
    pub fn from_bytes(data: &[u8]) -> (r: Result<Self, Error>)
        ensures
            match spec_packet(data@) {
                Ok(v) => r is Ok && r->Ok_0@ == v,
                Err(e) => r == Err::<Self, Error>(e),
            },
    {
        if data.len() < 5 {
            return Err(Error::MissingData(5, data.len()));
        }
        if data[4] & 0x80 == 0 {
            match Response::from_bytes(data) {
                Ok(r) => Ok(Packet::Response(r)),
                Err(e) => Err(e),
            }
        } else {
            match Request::from_bytes(data) {
                Ok(r) => Ok(Packet::Request(r)),
                Err(e) => Err(e),
            }
        }
    }

    pub fn to_bytes(&self) -> (r: Vec<u8>)
        ensures
            r@ == spec_packet_bytes(self@),
    {
        match self {
            Packet::Request(r) => r.to_bytes(),
            Packet::Response(r) => r.to_bytes(),
        }
    }
}

// ---------------------------------------------------------------------------
// Laws
// ---------------------------------------------------------------------------

proof fn lemma_protocol_byte(x: u8)
    requires
        x < 0x7f,
    ensures
        (x | 0x80u8) != 0xffu8,
        (x | 0x80u8) & 0x7fu8 == x,
        (x | 0x80u8) & 0x80u8 != 0,
{
    assert((x | 0x80u8) != 0xffu8) by (bit_vector)
        requires
            x < 0x7f,
    ;
    assert((x | 0x80u8) & 0x7fu8 == x) by (bit_vector)
        requires
            x < 0x7f,
    ;
    assert((x | 0x80u8) & 0x80u8 != 0) by (bit_vector);
}

proof fn lemma_method_bit(m: u32)
    requires
        m & 0x8000u32 == 0,
    ensures
        (m | 0x8000u32) & !0x8000u32 == m,
{
    assert((m | 0x8000u32) & !0x8000u32 == m) by (bit_vector)
        requires
            m & 0x8000u32 == 0,
    ;
}

/// Reading an encoded request gives the request back, for every protocol id
/// but those from `0x7f` to `0xfe`, whose one-byte form does not survive
/// the encoding, and for every body shorter than 2^32 bytes.
#[verifier::spinoff_prover]
#[verifier::rlimit(40)]
pub proof fn lemma_request_roundtrip(r: (u16, u32, u32, Seq<u8>))
    requires
        r.0 < 0x7f || r.0 >= 0xff,
        spec_request_body(r).len() < 0x1_0000_0000,
    ensures
        spec_request(spec_request_bytes(r)) == Ok::<(u16, u32, u32, Seq<u8>), Error>(r),
{
    let body = spec_request_body(r);
    let b = spec_request_bytes(r);
    lemma_u32_roundtrip(body.len() as u32);
    lemma_u32_roundtrip(r.1);
    lemma_u32_roundtrip(r.2);
    assert(le_u32(b) == body.len());
    if r.0 < 0xff {
        lemma_protocol_byte(r.0 as u8);
        assert(b.skip(5).subrange(0, 4) =~= u32_bytes(r.1));
        assert(b.skip(9).subrange(0, 4) =~= u32_bytes(r.2));
        assert(le_u32(b.skip(5)) == le_u32(u32_bytes(r.1)));
        assert(le_u32(b.skip(9)) == le_u32(u32_bytes(r.2)));
        assert(b.skip(13) =~= r.3);
    } else {
        lemma_u16_roundtrip(r.0);
        assert(le_u16(b.skip(5)) == le_u16(u16_bytes(r.0)));
        assert(le_u32(b.skip(7)) == le_u32(u32_bytes(r.1)));
        assert(le_u32(b.skip(11)) == le_u32(u32_bytes(r.2)));
        assert(b.skip(15) =~= r.3);
    }
}

/// Reading an encoded response gives the response back, for every method
/// id whose bit 15 (the response marker) is clear and every body shorter
/// than 2^32 bytes.
#[verifier::spinoff_prover]
#[verifier::rlimit(40)]
pub proof fn lemma_response_roundtrip(r: ResponseView)
    requires
        r.1 matches Ok(d) ==> d.1 & 0x8000u32 == 0,
        spec_response_body(r).len() < 0x1_0000_0000,
    ensures
        spec_response(spec_response_bytes(r)) == Ok::<ResponseView, Error>(r),
{
    let body = spec_response_body(r);
    let b = spec_response_bytes(r);
    lemma_u32_roundtrip(body.len() as u32);
    let k: int = if r.0 < 0x7f { 5 } else { 7 };
    if r.0 >= 0x7f {
        lemma_u16_roundtrip(r.0);
        assert(le_u16(b.skip(5)) == le_u16(u16_bytes(r.0)));
    }
    let rest = b.skip(k + 1);
    match r.1 {
        Ok(d) => {
            lemma_u32_roundtrip(d.0);
            lemma_u32_roundtrip(d.1 | 0x8000u32);
            lemma_method_bit(d.1);
            assert(b[k] == 1u8);
            assert(le_u32(rest) == le_u32(u32_bytes(d.0)));
            assert(le_u32(rest.skip(4)) == le_u32(u32_bytes(d.1 | 0x8000u32)));
            assert(rest.skip(8) =~= d.2);
        },
        Err(e) => {
            lemma_u32_roundtrip(e.0);
            lemma_u32_roundtrip(e.1);
            assert(b[k] == 0u8);
            assert(le_u32(rest) == le_u32(u32_bytes(e.0)));
            assert(le_u32(rest.skip(4)) == le_u32(u32_bytes(e.1)));
        },
    }
}

/// Reading an encoded RMC message gives the message back, on the inputs of
/// the request and response laws.
#[verifier::spinoff_prover]
#[verifier::rlimit(40)]
pub proof fn lemma_packet_roundtrip(p: PacketView)
    requires
        p matches PacketView::Request(r) ==> (r.0 < 0x7f || r.0 >= 0xff) && spec_request_body(r).len() < 0x1_0000_0000,
        p matches PacketView::Response(r) ==> (r.1 matches Ok(d) ==> d.1 & 0x8000u32 == 0)
            && spec_response_body(r).len() < 0x1_0000_0000,
    ensures
        spec_packet(spec_packet_bytes(p)) == Ok::<PacketView, Error>(p),
{
    match p {
        PacketView::Request(r) => {
            lemma_request_roundtrip(r);
            let b = spec_request_bytes(r);
            if r.0 < 0xff {
                lemma_protocol_byte(r.0 as u8);
            } else {
                assert(b[4] == 0xffu8);
                assert(0xffu8 & 0x80u8 != 0) by (bit_vector);
            }
        },
        PacketView::Response(r) => {
            lemma_response_roundtrip(r);
            let b = spec_response_bytes(r);
            if r.0 < 0x7f {
                let x = r.0 as u8;
                assert(x < 0x7f ==> x & 0x80u8 == 0) by (bit_vector);
                assert(b[4] == x);
            } else {
                assert(b[4] == 0x7fu8);
                assert(0x7fu8 & 0x80u8 == 0) by (bit_vector);
            }
        },
    }
}

// ---------------------------------------------------------------------------
// Serving requests on a secure stream
// ---------------------------------------------------------------------------

/// What a protocol handler made of a request, its bytes taken by view.
pub open spec fn outcome_view(o: Option<Result<Vec<u8>, Error>>) -> Option<Result<Seq<u8>, Error>> {
    match o {
        None => None,
        Some(Ok(d)) => Some(Ok(d@)),
        Some(Err(e)) => Some(Err(e)),
    }
}

/// The response to request `req` given what its protocol made of it
/// (`None`: no protocol has the request's id): the result data under the
/// request's call and method ids, or the error's wire code.
pub open spec fn spec_rvsec_response(req: (u16, u32, u32, Seq<u8>), outcome: Option<Result<Seq<u8>, Error>>) -> ResponseView {
    (
        req.0,
        match outcome {
            None => Err(((spec_error_code_low(Error::UnknownProtocol) + 0x8000_0000) as u32, req.1)),
            Some(Err(e)) => Err(((spec_error_code_low(e) + 0x8000_0000) as u32, req.1)),
            Some(Ok(d)) => Ok((req.1, req.2, d)),
        },
    )
}

/// The request that a secure stream carries: an unreadable message fails
/// with the reading error, a response is not served.
pub fn rvsec_request(data: &[u8]) -> (r: Result<Request, crate::prudp::packet::Error>)
    ensures
        match spec_packet(data@) {
            Err(e) => r == Err::<Request, crate::prudp::packet::Error>(crate::prudp::packet::Error::StreamHandler(e)),
            Ok(PacketView::Response(_)) => r == Err::<Request, crate::prudp::packet::Error>(
                crate::prudp::packet::Error::Unimplemented,
            ),
            Ok(PacketView::Request(q)) => r matches Ok(x) && x@ == q,
        },
{
    match Packet::from_bytes(data) {
        Err(e) => Err(crate::prudp::packet::Error::StreamHandler(e)),
        Ok(Packet::Response(_)) => Err(crate::prudp::packet::Error::Unimplemented),
        Ok(Packet::Request(q)) => Ok(q),
    }
}

/// The bytes of the response to `request`, given what its protocol made of
/// it (`None`: no protocol has the request's id).
pub fn rvsec_response(request: &Request, outcome: Option<Result<Vec<u8>, Error>>) -> (r: Vec<u8>)
    ensures
        r@ == spec_response_bytes(spec_rvsec_response(request@, outcome_view(outcome))),
{
    let result = match outcome {
        None => Err(ResponseError { error_code: Error::UnknownProtocol.to_error_code(), call_id: request.call_id }),
        Some(Err(e)) => Err(ResponseError { error_code: e.to_error_code(), call_id: request.call_id }),
        Some(Ok(data)) => Ok(ResponseData { call_id: request.call_id, method_id: request.method_id, data }),
    };
    let resp = Response { protocol_id: request.protocol_id, result };
    resp.to_bytes()
}

} // verus!
