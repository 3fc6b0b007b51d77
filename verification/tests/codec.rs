use code_open_server::request::{
    decode_request, encode_request, CodeOpenInfo, CodeOpenRequest, ProtocolError,
};

fn open(host: &str, dir: &str) -> CodeOpenRequest {
    CodeOpenRequest::Open(CodeOpenInfo::new(host.to_string(), dir.to_string()))
}

#[test]
fn round_trip_simple() {
    let req = open("actual-host.example.com", "/home/user/project");
    let bytes = encode_request(&req);
    assert_eq!(decode_request(&bytes), Ok(req));
}

#[test]
fn round_trip_empty_strings() {
    let req = open("", "");
    let bytes = encode_request(&req);
    assert_eq!(decode_request(&bytes), Ok(req));
}

#[test]
fn round_trip_unicode() {
    let req = open("héte.example.com", "/home/ユーザ/プロジェクト");
    let bytes = encode_request(&req);
    assert_eq!(decode_request(&bytes), Ok(req));
}

#[test]
fn wire_format_is_tag_then_length_prefixed_fields() {
    let req = open("h", "/d");
    let bytes = encode_request(&req);
    assert_eq!(
        bytes,
        vec![
            0, // tag of Open
            1, 0, 0, 0, 0, 0, 0, 0, // host length
            b'h', // host bytes
            2, 0, 0, 0, 0, 0, 0, 0, // dir length
            b'/', b'd', // dir bytes
        ]
    );
}

#[test]
fn decode_rejects_unknown_tag() {
    let mut bytes = encode_request(&open("h", "/d"));
    bytes[0] = 1;
    assert_eq!(decode_request(&bytes), Err(ProtocolError::Decode));
}

#[test]
fn decode_rejects_truncated_payload() {
    let mut bytes = encode_request(&open("h", "/d"));
    bytes.pop();
    assert_eq!(decode_request(&bytes), Err(ProtocolError::Decode));
}

#[test]
fn decode_rejects_trailing_bytes() {
    let mut bytes = encode_request(&open("h", "/d"));
    bytes.push(0);
    assert_eq!(decode_request(&bytes), Err(ProtocolError::Decode));
}

#[test]
fn decode_rejects_short_input() {
    assert_eq!(decode_request(&vec![]), Err(ProtocolError::Decode));
    assert_eq!(decode_request(&vec![0]), Err(ProtocolError::Decode));
    assert_eq!(
        decode_request(&vec![0, 1, 0, 0, 0, 0, 0, 0]),
        Err(ProtocolError::Decode)
    );
}

#[test]
fn decode_rejects_invalid_utf8_field() {
    // tag, host length 1, one byte that is not UTF-8, dir length 0
    let bytes = vec![0, 1, 0, 0, 0, 0, 0, 0, 0, 0xFF, 0, 0, 0, 0, 0, 0, 0, 0];
    assert_eq!(decode_request(&bytes), Err(ProtocolError::Decode));
}

#[test]
fn decode_rejects_host_length_past_end() {
    let bytes = vec![0, 200, 0, 0, 0, 0, 0, 0, 0, b'h'];
    assert_eq!(decode_request(&bytes), Err(ProtocolError::Decode));
}
