use quazal::rmc::protocols::{
    LoginExRequest, TicketGrantingProtocol, TicketGrantingProtocolMethod, UbiAuthenticationLoginCustomData,
    UNKNOWN_ERROR_CODE,
};
use quazal::rmc::basic::{FromStream, ToStream};
use quazal::rmc::result::Error as ResultError;
use quazal::rmc::types::Any;
use quazal::rmc::{rvsec_request, rvsec_response, Error, Packet, Request, Response, ResponseData, ResponseError};

#[test]
fn test_response() {
    assert_eq!(
        Response {
            protocol_id: 1,
            result: Ok(ResponseData {
                call_id: 2,
                method_id: 3,
                data: b"Hello".to_vec(),
            }),
        }
        .to_bytes(),
        b"\x0f\x00\x00\x00\x01\x01\x02\x00\x00\x00\x03\x80\x00\x00Hello".to_vec()
    );

    assert_eq!(
        Response {
            protocol_id: 1,
            result: Err(ResponseError {
                call_id: 2,
                error_code: 3,
            }),
        }
        .to_bytes(),
        b"\x0a\x00\x00\x00\x01\x00\x03\x00\x00\x00\x02\x00\x00\x00".to_vec()
    );
}

#[test]
fn test_request() {
    let data = [
        0x48, 0x00, 0x00, 0x00, 0x8a, 0x08, 0x00, 0x00, 0x00, 0x02, 0x00, 0x00, 0x00, 0x03, 0x00, 0x77, 0x76, 0x00,
        0x21, 0x00, 0x55, 0x62, 0x69, 0x41, 0x75, 0x74, 0x68, 0x65, 0x6e, 0x74, 0x69, 0x63, 0x61, 0x74, 0x69, 0x6f,
        0x6e, 0x4c, 0x6f, 0x67, 0x69, 0x6e, 0x43, 0x75, 0x73, 0x74, 0x6f, 0x6d, 0x44, 0x61, 0x74, 0x61, 0x00, 0x13,
        0x00, 0x00, 0x00, 0x0f, 0x00, 0x00, 0x00, 0x03, 0x00, 0x77, 0x76, 0x00, 0x01, 0x00, 0x00, 0x05, 0x00, 0x74,
        0x65, 0x73, 0x74, 0x00,
    ];

    let _req = Request::from_bytes(&data).unwrap();
}

#[test]
fn request_fields_and_round_trip() {
    let req = Request { protocol_id: 10, call_id: 8, method_id: 2, parameters: vec![1, 2, 3] };
    let bytes = req.to_bytes();
    assert_eq!(bytes, vec![12, 0, 0, 0, 0x8a, 8, 0, 0, 0, 2, 0, 0, 0, 1, 2, 3]);
    let back = Request::from_bytes(&bytes).unwrap();
    assert_eq!(back.protocol_id, 10);
    assert_eq!(back.call_id, 8);
    assert_eq!(back.method_id, 2);
    assert_eq!(back.parameters, vec![1, 2, 3]);
}

#[test]
fn request_with_long_protocol_id() {
    let req = Request { protocol_id: 0x1234, call_id: 1, method_id: 1, parameters: vec![] };
    let bytes = req.to_bytes();
    assert_eq!(bytes[4], 0xff);
    let back = Request::from_bytes(&bytes).unwrap();
    assert_eq!(back.protocol_id, 0x1234);
}

#[test]
fn request_protocol_7f_does_not_survive() {
    // A one-byte protocol id of 0x7f is written as 0xff, the long-form marker.
    let req = Request { protocol_id: 0x7f, call_id: 1, method_id: 1, parameters: vec![9, 9, 9, 9] };
    let bytes = req.to_bytes();
    let back = Request::from_bytes(&bytes);
    assert!(back.map(|r| r.protocol_id != 0x7f).unwrap_or(true));
}

#[test]
fn response_round_trip() {
    let resp = Response {
        protocol_id: 300,
        result: Ok(ResponseData { call_id: 5, method_id: 7, data: vec![4, 5] }),
    };
    let bytes = resp.to_bytes();
    match Packet::from_bytes(&bytes).unwrap() {
        Packet::Response(r) => {
            assert_eq!(r.protocol_id, 300);
            let d = r.result.unwrap();
            assert_eq!(d.call_id, 5);
            assert_eq!(d.method_id, 7);
            assert_eq!(d.data, vec![4, 5]);
        }
        Packet::Request(_) => panic!("expected a response"),
    }
}

#[test]
fn packet_too_short_is_missing_data() {
    assert!(matches!(Packet::from_bytes(&[1, 0, 0]), Err(Error::MissingData(5, 3))));
}

#[test]
fn error_codes_round_trip() {
    for e in [
        Error::UnknownProtocol,
        Error::UnimplementedMethod,
        Error::AccessDenied,
        Error::ParsingError,
        Error::InternalError,
    ] {
        let code = e.to_error_code();
        assert_eq!(code & 0x8000_0000, 0x8000_0000);
        assert_eq!(Error::from_error_code(code), Ok(e));
    }
    assert_eq!(Error::UnknownMethod.to_error_code(), 0x8001_0001);
    assert_eq!(Error::MissingData(3, 4).to_error_code(), 0x8001_0009);
    assert_eq!(Error::from_error_code(0x8001_0009), Ok(Error::MissingData(0, 0)));
    assert_eq!(Error::from_error_code(0x0001_0001), Err(0x0001_0001));
    assert_eq!(Error::from_error_code(0x8001_0099), Err(0x0001_0099));
}

#[test]
fn result_error_codes_round_trip() {
    for code in [0x8001_0002u32, 0x8003_0002, 0x8002_0002, 0x8001_0003] {
        let e = ResultError::try_from_code(code).unwrap();
        assert_eq!(e.to_code(), code);
    }
    assert!(ResultError::try_from_code(0x8001_ffff).is_err());
    assert!(ResultError::try_from_code(0x0001_0001).is_err());
}

#[test]
fn rvsec_serves_requests_only() {
    let req = Request { protocol_id: 10, call_id: 3, method_id: 2, parameters: vec![7] };
    let parsed = rvsec_request(&req.to_bytes()).unwrap();
    assert_eq!(parsed.call_id, 3);

    let resp = Response { protocol_id: 10, result: Err(ResponseError { error_code: 1, call_id: 3 }) };
    assert!(matches!(rvsec_request(&resp.to_bytes()), Err(quazal::prudp::packet::Error::Unimplemented)));
    assert!(matches!(
        rvsec_request(&[0, 0]),
        Err(quazal::prudp::packet::Error::StreamHandler(Error::MissingData(5, 2)))
    ));
}

#[test]
fn rvsec_response_bytes() {
    let req = Request { protocol_id: 10, call_id: 3, method_id: 2, parameters: vec![] };
    let ok = rvsec_response(&req, Some(Ok(vec![0xaa])));
    let expected = Response {
        protocol_id: 10,
        result: Ok(ResponseData { call_id: 3, method_id: 2, data: vec![0xaa] }),
    }
    .to_bytes();
    assert_eq!(ok, expected);

    let missing = rvsec_response(&req, None);
    let expected = Response { protocol_id: 10, result: Err(ResponseError { error_code: 0x8001_0001, call_id: 3 }) }.to_bytes();
    assert_eq!(missing, expected);

    let denied = rvsec_response(&req, Some(Err(Error::AccessDenied)));
    let expected = Response { protocol_id: 10, result: Err(ResponseError { error_code: 0x8001_0006, call_id: 3 }) }.to_bytes();
    assert_eq!(denied, expected);
}

#[test]
fn ticket_granting_answers_unknown_error() {
    let p = TicketGrantingProtocol;
    assert_eq!(p.id(), 10);
    assert_eq!(p.name(), "TicketGrantingProtocol");
    assert_eq!(p.num_methods(), 6);
    assert_eq!(p.method_name(2).as_deref(), Some("LoginEx"));
    assert_eq!(p.method_name(4).as_deref(), Some("GetPID"));
    assert_eq!(p.method_name(7), None);
    assert_eq!(TicketGrantingProtocolMethod::from_number(6), Some(TicketGrantingProtocolMethod::LoginWithContext));

    let req = Request { protocol_id: 10, call_id: 42, method_id: 2, parameters: vec![] };
    let resp = p.handle(&req);
    assert_eq!(resp.protocol_id, 10);
    let err = resp.result.unwrap_err();
    assert_eq!(err.error_code, UNKNOWN_ERROR_CODE);
    assert_eq!(err.call_id, 42);
}

#[test]
fn login_ex_request_round_trip() {
    let custom = UbiAuthenticationLoginCustomData {
        user_name: "sam".to_string(),
        online_key: "AAAA-BBBB-CCCC".to_string(),
        password: "pw".to_string(),
    };
    let req = LoginExRequest {
        str_user_name: "sam".to_string(),
        o_extra_data: Any::new("UbiAuthenticationLoginCustomData".to_string(), custom.to_bytes()),
    };
    let bytes = req.to_bytes();
    let back = LoginExRequest::from_bytes(&bytes).unwrap();
    assert_eq!(back.str_user_name, "sam");
    assert_eq!(back.o_extra_data.class_name(), "UbiAuthenticationLoginCustomData");
    let inner = UbiAuthenticationLoginCustomData::from_bytes(back.o_extra_data.data()).unwrap();
    assert_eq!(inner.user_name, "sam");
    assert_eq!(inner.online_key, "AAAA-BBBB-CCCC");
    assert_eq!(inner.password, "pw");
}
