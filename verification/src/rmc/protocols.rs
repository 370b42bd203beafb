//! The ticket granting protocol: its methods, the messages of a login,
//! and the answers of a service that grants nothing.

use crate::rmc::basic::{FromStream, FromStreamError, ReadStream, ToStream, WriteStream};
use crate::rmc::types::{Any, QResult, StationURL};
use crate::rmc::{Request, Response, ResponseError, ResponseView};
use vstd::prelude::*;

verus! {

/// The id of the ticket granting protocol.
pub const TICKET_GRANTING_PROTOCOL_ID: u16 = 10;

/// The error code of a method that a service does not provide.
pub const UNKNOWN_ERROR_CODE: u32 = 0x8001_0001;

/// The methods of the ticket granting protocol.
#[derive(Debug, Clone, Copy, PartialEq, Eq, Structural)]
pub enum TicketGrantingProtocolMethod {
    Login,
    LoginEx,
    RequestTicket,
    GetPID,
    GetName,
    LoginWithContext,
}

impl TicketGrantingProtocolMethod {
    /// The method's number.
    pub open spec fn spec_number(self) -> u32 {
        match self {
            TicketGrantingProtocolMethod::Login => 1,
            TicketGrantingProtocolMethod::LoginEx => 2,
            TicketGrantingProtocolMethod::RequestTicket => 3,
            TicketGrantingProtocolMethod::GetPID => 4,
            TicketGrantingProtocolMethod::GetName => 5,
            TicketGrantingProtocolMethod::LoginWithContext => 6,
        }
    }

    /// The method's number.
    pub fn number(self) -> (r: u32)
        ensures
            r == self.spec_number(),
    {
        match self {
            TicketGrantingProtocolMethod::Login => 1,
            TicketGrantingProtocolMethod::LoginEx => 2,
            TicketGrantingProtocolMethod::RequestTicket => 3,
            TicketGrantingProtocolMethod::GetPID => 4,
            TicketGrantingProtocolMethod::GetName => 5,
            TicketGrantingProtocolMethod::LoginWithContext => 6,
        }
    }

    /// The method with number `id`, if any.
    pub fn from_number(id: u32) -> (r: Option<TicketGrantingProtocolMethod>)
        ensures
            match r {
                Some(m) => m.spec_number() == id,
                None => id < 1 || id > 6,
            },
    {
        match id {
            1 => Some(TicketGrantingProtocolMethod::Login),
            2 => Some(TicketGrantingProtocolMethod::LoginEx),
            3 => Some(TicketGrantingProtocolMethod::RequestTicket),
            4 => Some(TicketGrantingProtocolMethod::GetPID),
            5 => Some(TicketGrantingProtocolMethod::GetName),
            6 => Some(TicketGrantingProtocolMethod::LoginWithContext),
            _ => None,
        }
    }

    /// The method's name.
    pub open spec fn spec_name(self) -> Seq<char> {
        match self {
            TicketGrantingProtocolMethod::Login => "Login"@,
            TicketGrantingProtocolMethod::LoginEx => "LoginEx"@,
            TicketGrantingProtocolMethod::RequestTicket => "RequestTicket"@,
            TicketGrantingProtocolMethod::GetPID => "GetPID"@,
            TicketGrantingProtocolMethod::GetName => "GetName"@,
            TicketGrantingProtocolMethod::LoginWithContext => "LoginWithContext"@,
        }
    }

    /// The method's name.
    pub fn name(self) -> (r: String)
        ensures
            r@ == self.spec_name(),
    {
        match self {
            TicketGrantingProtocolMethod::Login => String::from_str("Login"),
            TicketGrantingProtocolMethod::LoginEx => String::from_str("LoginEx"),
            TicketGrantingProtocolMethod::RequestTicket => String::from_str("RequestTicket"),
            TicketGrantingProtocolMethod::GetPID => String::from_str("GetPID"),
            TicketGrantingProtocolMethod::GetName => String::from_str("GetName"),
            TicketGrantingProtocolMethod::LoginWithContext => String::from_str("LoginWithContext"),
        }
    }
}

/// The answer that a service gives to a method it does not provide: the
/// unknown-error code under the request's protocol and call id.
pub open spec fn unknown_error_view(req: (u16, u32, u32, Seq<u8>)) -> ResponseView {
    (req.0, Err((UNKNOWN_ERROR_CODE, req.1)))
}

/// The answer that a service gives to a method it does not provide.
pub fn unknown_error(request: &Request) -> (r: Response)
    ensures
        r@ == unknown_error_view(request@),
{
    Response {
        protocol_id: request.protocol_id,
        result: Err(ResponseError { error_code: UNKNOWN_ERROR_CODE, call_id: request.call_id }),
    }
}

/// A ticket granting service that grants nothing.
#[derive(Debug, Clone, Copy)]
pub struct TicketGrantingProtocol;

impl TicketGrantingProtocol {
    /// The protocol's id, 10.
    pub fn id(&self) -> (r: u16)
        ensures
            r == TICKET_GRANTING_PROTOCOL_ID,
    {
        TICKET_GRANTING_PROTOCOL_ID
    }

    /// The protocol's name.
    pub fn name(&self) -> (r: String)
        ensures
            r@ == "TicketGrantingProtocol"@,
    {
        String::from_str("TicketGrantingProtocol")
    }

    /// The number of methods, 6.
    pub fn num_methods(&self) -> (r: u32)
        ensures
            r == 6,
    {
        6
    }

    /// The name of method `method_id`, if the protocol has one.
    pub fn method_name(&self, method_id: u32) -> (r: Option<String>)
        ensures
            match r {
                Some(n) => exists|m: TicketGrantingProtocolMethod| m.spec_number() == method_id && n@ == m.spec_name(),
                None => method_id < 1 || method_id > 6,
            },
    {
        match TicketGrantingProtocolMethod::from_number(method_id) {
            Some(m) => Some(m.name()),
            None => None,
        }
    }

    /// Answers a request: every method, known or not, is answered with the
    /// unknown error. A `LoginEx` request is read first (and its extra data
    /// with it), which changes nothing of the answer.
    pub fn handle(&self, request: &Request) -> (r: Response)
        ensures
            r@ == unknown_error_view(request@),
    {
        match TicketGrantingProtocolMethod::from_number(request.method_id) {
            Some(TicketGrantingProtocolMethod::LoginEx) => {
                let _data = LoginExRequest::from_bytes(request.parameters.as_slice());
                unknown_error(request)
            },
            _ => unknown_error(request),
        }
    }
}

// ---------------------------------------------------------------------------
// Messages
// ---------------------------------------------------------------------------

/// A request with no parameters.
#[derive(Debug, Clone, Copy, PartialEq, Eq, Structural)]
pub struct LoginRequest;

/// A request with no parameters.
#[derive(Debug, Clone, Copy, PartialEq, Eq, Structural)]
pub struct RequestTicketRequest;

/// A request with no parameters.
#[derive(Debug, Clone, Copy, PartialEq, Eq, Structural)]
pub struct GetPIDRequest;

/// A request with no parameters.
#[derive(Debug, Clone, Copy, PartialEq, Eq, Structural)]
pub struct GetNameRequest;

/// A request with no parameters.
#[derive(Debug, Clone, Copy, PartialEq, Eq, Structural)]
pub struct LoginWithContextRequest;

impl DeepView for LoginRequest {
    type V = ();

    open spec fn deep_view(&self) -> () {
        ()
    }
}

impl FromStream for LoginRequest {
    open spec fn spec_from_stream(data: Seq<u8>) -> Result<((), nat), FromStreamError> {
        Ok(((), 0))
    }

    fn from_stream(stream: &mut ReadStream) -> (r: Result<LoginRequest, FromStreamError>) {
        assert(stream@.skip(0) =~= stream@);
        Ok(LoginRequest)
    }
}

impl DeepView for RequestTicketRequest {
    type V = ();

    open spec fn deep_view(&self) -> () {
        ()
    }
}

impl FromStream for RequestTicketRequest {
    open spec fn spec_from_stream(data: Seq<u8>) -> Result<((), nat), FromStreamError> {
        Ok(((), 0))
    }

    fn from_stream(stream: &mut ReadStream) -> (r: Result<RequestTicketRequest, FromStreamError>) {
        assert(stream@.skip(0) =~= stream@);
        Ok(RequestTicketRequest)
    }
}

impl DeepView for GetPIDRequest {
    type V = ();

    open spec fn deep_view(&self) -> () {
        ()
    }
}

impl FromStream for GetPIDRequest {
    open spec fn spec_from_stream(data: Seq<u8>) -> Result<((), nat), FromStreamError> {
        Ok(((), 0))
    }

    fn from_stream(stream: &mut ReadStream) -> (r: Result<GetPIDRequest, FromStreamError>) {
        assert(stream@.skip(0) =~= stream@);
        Ok(GetPIDRequest)
    }
}

impl DeepView for GetNameRequest {
    type V = ();

    open spec fn deep_view(&self) -> () {
        ()
    }
}

impl FromStream for GetNameRequest {
    open spec fn spec_from_stream(data: Seq<u8>) -> Result<((), nat), FromStreamError> {
        Ok(((), 0))
    }

    fn from_stream(stream: &mut ReadStream) -> (r: Result<GetNameRequest, FromStreamError>) {
        assert(stream@.skip(0) =~= stream@);
        Ok(GetNameRequest)
    }
}

impl DeepView for LoginWithContextRequest {
    type V = ();

    open spec fn deep_view(&self) -> () {
        ()
    }
}

impl FromStream for LoginWithContextRequest {
    open spec fn spec_from_stream(data: Seq<u8>) -> Result<((), nat), FromStreamError> {
        Ok(((), 0))
    }

    fn from_stream(stream: &mut ReadStream) -> (r: Result<LoginWithContextRequest, FromStreamError>) {
        assert(stream@.skip(0) =~= stream@);
        Ok(LoginWithContextRequest)
    }
}

/// The credentials that a Ubisoft login carries.
#[derive(Debug, Clone)]
pub struct UbiAuthenticationLoginCustomData {
    pub user_name: String,
    pub online_key: String,
    pub password: String,
}

impl DeepView for UbiAuthenticationLoginCustomData {
    type V = ((Seq<char>, Seq<char>), Seq<char>);

    open spec fn deep_view(&self) -> ((Seq<char>, Seq<char>), Seq<char>) {
        ((self.user_name@, self.online_key@), self.password@)
    }
}

impl FromStream for UbiAuthenticationLoginCustomData {
    open spec fn spec_from_stream(data: Seq<u8>) -> Result<(((Seq<char>, Seq<char>), Seq<char>), nat), FromStreamError> {
        <((String, String), String) as FromStream>::spec_from_stream(data)
    }

    fn from_stream(stream: &mut ReadStream) -> (r: Result<UbiAuthenticationLoginCustomData, FromStreamError>) {
        match <((String, String), String) as FromStream>::from_stream(stream) {
            Ok(((user_name, online_key), password)) => Ok(UbiAuthenticationLoginCustomData { user_name, online_key, password }),
            Err(e) => Err(e),
        }
    }
}

impl ToStream for UbiAuthenticationLoginCustomData {
    open spec fn spec_to_stream(v: ((Seq<char>, Seq<char>), Seq<char>)) -> Seq<u8> {
        <((String, String), String) as ToStream>::spec_to_stream(v)
    }

    fn to_stream(&self, stream: &mut WriteStream) -> (n: usize) {
        let start = stream.len();
        self.user_name.to_stream(stream);
        self.online_key.to_stream(stream);
        self.password.to_stream(stream);
        assert(stream@ =~= old(stream)@ + Self::spec_to_stream(self.deep_view()));
        stream.len() - start
    }
}

/// A login with a user name and extra data of a named class.
#[derive(Debug)]
pub struct LoginExRequest {
    pub str_user_name: String,
    pub o_extra_data: Any<UbiAuthenticationLoginCustomData, String>,
}

impl DeepView for LoginExRequest {
    type V = (Seq<char>, (Seq<char>, Seq<u8>));

    open spec fn deep_view(&self) -> (Seq<char>, (Seq<char>, Seq<u8>)) {
        (self.str_user_name@, self.o_extra_data.deep_view())
    }
}

impl FromStream for LoginExRequest {
    open spec fn spec_from_stream(data: Seq<u8>) -> Result<((Seq<char>, (Seq<char>, Seq<u8>)), nat), FromStreamError> {
        <(String, Any<UbiAuthenticationLoginCustomData, String>) as FromStream>::spec_from_stream(data)
    }

    fn from_stream(stream: &mut ReadStream) -> (r: Result<LoginExRequest, FromStreamError>) {
        match <(String, Any<UbiAuthenticationLoginCustomData, String>) as FromStream>::from_stream(stream) {
            Ok((str_user_name, o_extra_data)) => Ok(LoginExRequest { str_user_name, o_extra_data }),
            Err(e) => Err(e),
        }
    }
}

impl ToStream for LoginExRequest {
    open spec fn spec_to_stream(v: (Seq<char>, (Seq<char>, Seq<u8>))) -> Seq<u8> {
        <(String, Any<UbiAuthenticationLoginCustomData, String>) as ToStream>::spec_to_stream(v)
    }

    fn to_stream(&self, stream: &mut WriteStream) -> (n: usize) {
        let start = stream.len();
        self.str_user_name.to_stream(stream);
        self.o_extra_data.to_stream(stream);
        assert(stream@ =~= old(stream)@ + Self::spec_to_stream(self.deep_view()));
        stream.len() - start
    }
}

/// Where a logged-in client reaches the secure service.
#[derive(Debug, Clone)]
pub struct RVConnectionData {
    pub url_regular_protocols: StationURL,
    pub lst_special_protocols: Vec<u8>,
    pub url_special_protocols: StationURL,
}

impl DeepView for RVConnectionData {
    type V = (
        <StationURL as DeepView>::V,
        Seq<u8>,
        <StationURL as DeepView>::V,
    );

    open spec fn deep_view(&self) -> (<StationURL as DeepView>::V, Seq<u8>, <StationURL as DeepView>::V) {
        (self.url_regular_protocols.deep_view(), self.lst_special_protocols@, self.url_special_protocols.deep_view())
    }
}

impl ToStream for RVConnectionData {
    open spec fn spec_to_stream(v: (<StationURL as DeepView>::V, Seq<u8>, <StationURL as DeepView>::V)) -> Seq<u8> {
        StationURL::spec_to_stream(v.0) + <Vec<u8> as ToStream>::spec_to_stream(v.1) + StationURL::spec_to_stream(v.2)
    }

    fn to_stream(&self, stream: &mut WriteStream) -> (n: usize) {
        let start = stream.len();
        self.url_regular_protocols.to_stream(stream);
        self.lst_special_protocols.to_stream(stream);
        assert(self.lst_special_protocols.deep_view() =~= self.lst_special_protocols@);
        self.url_special_protocols.to_stream(stream);
        assert(stream@ =~= old(stream)@ + Self::spec_to_stream(self.deep_view()));
        stream.len() - start
    }
}

/// The answer to a login: the result, the principal, a message and where
/// to connect.
#[derive(Debug, Clone)]
pub struct LoginExResponse {
    pub result: QResult,
    pub pid_principal: u32,
    pub str_return_msg: String,
    pub p_connection_data: RVConnectionData,
}

impl DeepView for LoginExResponse {
    type V = (QResult, u32, Seq<char>, <RVConnectionData as DeepView>::V);

    open spec fn deep_view(&self) -> (QResult, u32, Seq<char>, <RVConnectionData as DeepView>::V) {
        (self.result, self.pid_principal, self.str_return_msg@, self.p_connection_data.deep_view())
    }
}

impl ToStream for LoginExResponse {
    open spec fn spec_to_stream(v: (QResult, u32, Seq<char>, <RVConnectionData as DeepView>::V)) -> Seq<u8> {
        QResult::spec_to_stream(v.0) + u32::spec_to_stream(v.1) + String::spec_to_stream(v.2)
            + RVConnectionData::spec_to_stream(v.3)
    }

    fn to_stream(&self, stream: &mut WriteStream) -> (n: usize) {
        let start = stream.len();
        self.result.to_stream(stream);
        self.pid_principal.to_stream(stream);
        self.str_return_msg.to_stream(stream);
        self.p_connection_data.to_stream(stream);
        assert(stream@ =~= old(stream)@ + Self::spec_to_stream(self.deep_view()));
        stream.len() - start
    }
}

/// The ticket granting protocol is protocol 10, and its methods are
/// numbered 1 to 6: Login, LoginEx, RequestTicket, GetPID, GetName,
/// LoginWithContext; no other number names a method.
pub proof fn lemma_ticket_granting_numbering(m: TicketGrantingProtocolMethod)
    ensures
        TICKET_GRANTING_PROTOCOL_ID == 10,
        m.spec_number() == match m {
            TicketGrantingProtocolMethod::Login => 1u32,
            TicketGrantingProtocolMethod::LoginEx => 2u32,
            TicketGrantingProtocolMethod::RequestTicket => 3u32,
            TicketGrantingProtocolMethod::GetPID => 4u32,
            TicketGrantingProtocolMethod::GetName => 5u32,
            TicketGrantingProtocolMethod::LoginWithContext => 6u32,
        },
{
}

} // verus!
