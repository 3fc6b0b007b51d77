//! The request model and its wire encoding.
//!
//! A request is encoded as a tag byte naming the operation, followed by the
//! operation's fields; each string field travels as an 8-byte little-endian
//! length prefix and the string's UTF-8 bytes. The tag of an existing variant
//! never changes, so adding a variant later leaves old encodings valid.

use vstd::prelude::*;
use vstd::bytes::*;
use vstd::utf8::*;
use vstd::string::StrSliceExecFns;
use vstd::slice::{slice_subrange, slice_to_vec};

verus! {

/// The payload of an open request: which remote host to open, and which
/// absolute directory on it. Immutable once built; resolution constructs a
/// new value rather than mutating one. Any string is accepted as a path:
/// this layer does not validate well-formedness.
#[derive(Debug)]
pub struct CodeOpenInfo {
    pub remote_host_name: String,
    pub remote_dir_full_path: String,
}

impl CodeOpenInfo {
    pub fn new(remote_host_name: String, remote_dir_full_path: String) -> (r: CodeOpenInfo)
        ensures
            r.remote_host_name@ == remote_host_name@,
            r.remote_dir_full_path@ == remote_dir_full_path@,
    {
        CodeOpenInfo { remote_host_name, remote_dir_full_path }
    }
}

impl Clone for CodeOpenInfo {
    fn clone(&self) -> (r: CodeOpenInfo)
        ensures
            r.remote_host_name@ == self.remote_host_name@,
            r.remote_dir_full_path@ == self.remote_dir_full_path@,
    {
        CodeOpenInfo {
            remote_host_name: self.remote_host_name.clone(),
            remote_dir_full_path: self.remote_dir_full_path.clone(),
        }
    }
}

impl PartialEq for CodeOpenInfo {
    fn eq(&self, other: &CodeOpenInfo) -> (r: bool)
    {
        self.remote_host_name == other.remote_host_name
            && self.remote_dir_full_path == other.remote_dir_full_path
    }
}

impl vstd::std_specs::cmp::PartialEqSpecImpl for CodeOpenInfo {
    open spec fn obeys_eq_spec() -> bool {
        true
    }

    open spec fn eq_spec(&self, other: &CodeOpenInfo) -> bool {
        self.remote_host_name@ == other.remote_host_name@
            && self.remote_dir_full_path@ == other.remote_dir_full_path@
    }
}

/// The closed set of operations a client can request. Each variant carries a
/// stable wire tag, so adding a variant later does not disturb the encoding
/// of the existing ones.
#[derive(Debug)]
pub enum CodeOpenRequest {
    Open(CodeOpenInfo),
}

impl PartialEq for CodeOpenRequest {
    fn eq(&self, other: &CodeOpenRequest) -> (r: bool)
    {
        match (self, other) {
            (CodeOpenRequest::Open(a), CodeOpenRequest::Open(b)) => a == b,
        }
    }
}

impl vstd::std_specs::cmp::PartialEqSpecImpl for CodeOpenRequest {
    open spec fn obeys_eq_spec() -> bool {
        true
    }

    open spec fn eq_spec(&self, other: &CodeOpenRequest) -> bool {
        match (self, other) {
            (CodeOpenRequest::Open(a), CodeOpenRequest::Open(b)) => {
                a.remote_host_name@ == b.remote_host_name@
                    && a.remote_dir_full_path@ == b.remote_dir_full_path@
            },
        }
    }
}

/// Where the server listens: an address and a port, fixed for the run and
/// supplied from outside the library.
pub struct CodeOpenConfig {
    pub ip: String,
    pub port: u16,
}

/// What went wrong while turning bytes into a request: the frame itself was
/// inconsistent, or a complete frame's payload did not have the shape of any
/// known request.
#[derive(Clone, Copy, PartialEq, Eq, Structural, Debug)]
pub enum ProtocolError {
    Framing,
    Decode,
}

/// The wire tag of `CodeOpenRequest::Open`.
pub const OPEN_TAG: u8 = 0;

/// The encoding of one string field: 8-byte little-endian byte length, then
/// the UTF-8 bytes.
pub open spec fn spec_encode_str(s: Seq<char>) -> Seq<u8> {
    spec_u64_to_le_bytes(encode_utf8(s).len() as u64) + encode_utf8(s)
}

/// The encoded byte lengths of both fields fit the 8-byte length prefixes.
pub open spec fn spec_info_encodable(info: CodeOpenInfo) -> bool {
    encode_utf8(info.remote_host_name@).len() <= u64::MAX
        && encode_utf8(info.remote_dir_full_path@).len() <= u64::MAX
}

/// The full encoding of a request: the variant's tag byte, then its fields.
pub open spec fn spec_encode_request(req: CodeOpenRequest) -> Seq<u8> {
    match req {
        CodeOpenRequest::Open(info) => seq![OPEN_TAG]
            + spec_encode_str(info.remote_host_name@)
            + spec_encode_str(info.remote_dir_full_path@),
    }
}

/// What a payload decodes to: the views of the two string fields of an open
/// request, or nothing if the bytes are not exactly one well-formed request.
pub open spec fn spec_decode_request(bytes: Seq<u8>) -> Option<(Seq<char>, Seq<char>)> {
    if bytes.len() < 9 {
        None
    } else if bytes[0] != OPEN_TAG {
        None
    } else {
        let hlen = spec_u64_from_le_bytes(bytes.subrange(1, 9)) as int;
        if bytes.len() - 9 < hlen {
            None
        } else {
            let host = bytes.subrange(9, 9 + hlen);
            if bytes.len() - 9 - hlen < 8 {
                None
            } else {
                let dlen = spec_u64_from_le_bytes(bytes.subrange(9 + hlen, 17 + hlen)) as int;
                if bytes.len() - 17 - hlen != dlen {
                    None
                } else {
                    let dir = bytes.subrange(17 + hlen, 17 + hlen + dlen);
                    if valid_utf8(host) && valid_utf8(dir) {
                        Some((decode_utf8(host), decode_utf8(dir)))
                    } else {
                        None
                    }
                }
            }
        }
    }
}

/// Relies on `String::from_utf8`: it returns the string made of exactly the
/// given bytes when they are valid UTF-8, and an error otherwise.
#[verifier::external_body]
pub(crate) fn string_from_utf8(v: Vec<u8>) -> (r: Option<String>)
    ensures
        r is Some <==> valid_utf8(v@),
        r matches Some(s) ==> encode_utf8(s@) == v@ && s@ == decode_utf8(v@),
{
    String::from_utf8(v).ok()
}

/// Encodes a request for the wire.
pub fn encode_request(req: &CodeOpenRequest) -> (r: Vec<u8>)
    ensures
        r@ == spec_encode_request(*req),
{
    match req {
        CodeOpenRequest::Open(info) => {
            let mut out: Vec<u8> = Vec::new();
            out.push(OPEN_TAG);
            let host_bytes = info.remote_host_name.as_str().as_bytes_vec();
            let mut hlen = u64_to_le_bytes(host_bytes.len() as u64);
            out.append(&mut hlen);
            let mut host_bytes = host_bytes;
            out.append(&mut host_bytes);
            let dir_bytes = info.remote_dir_full_path.as_str().as_bytes_vec();
            let mut dlen = u64_to_le_bytes(dir_bytes.len() as u64);
            out.append(&mut dlen);
            let mut dir_bytes = dir_bytes;
            out.append(&mut dir_bytes);
            assert(out@ =~= spec_encode_request(*req));
            out
        },
    }
}

/// Decodes a complete payload back into a request, reporting a decode error
/// exactly when the bytes are not one well-formed request.
pub fn decode_request(bytes: &Vec<u8>) -> (r: Result<CodeOpenRequest, ProtocolError>)
    ensures
        r is Ok <==> spec_decode_request(bytes@) is Some,
        r matches Ok(req) ==> (req matches CodeOpenRequest::Open(info)
            && spec_decode_request(bytes@) == Some(
            (info.remote_host_name@, info.remote_dir_full_path@),
        )),
        r matches Err(e) ==> e == ProtocolError::Decode,
{
    let n = bytes.len();
    if n < 9 {
        return Err(ProtocolError::Decode);
    }
    if bytes[0] != OPEN_TAG {
        return Err(ProtocolError::Decode);
    }
    let hlen64 = u64_from_le_bytes(slice_subrange(bytes.as_slice(), 1, 9));
    if ((n - 9) as u64) < hlen64 || hlen64 > usize::MAX as u64 {
        assert(bytes@.len() - 9 < spec_u64_from_le_bytes(bytes@.subrange(1, 9)) as int);
        return Err(ProtocolError::Decode);
    }
    let hlen = hlen64 as usize;
    let host_bytes = slice_to_vec(slice_subrange(bytes.as_slice(), 9, 9 + hlen));
    if n - 9 - hlen < 8 {
        return Err(ProtocolError::Decode);
    }
    let dlen64 = u64_from_le_bytes(slice_subrange(bytes.as_slice(), 9 + hlen, 17 + hlen));
    if ((n - 17 - hlen) as u64) != dlen64 {
        assert(bytes@.len() - 17 - hlen != spec_u64_from_le_bytes(
            bytes@.subrange(9 + hlen, 17 + hlen),
        ) as int);
        return Err(ProtocolError::Decode);
    }
    let dlen = dlen64 as usize;
    let dir_bytes = slice_to_vec(slice_subrange(bytes.as_slice(), 17 + hlen, 17 + hlen + dlen));
    let host = string_from_utf8(host_bytes);
    let dir = string_from_utf8(dir_bytes);
    match (host, dir) {
        (Some(h), Some(d)) => Ok(CodeOpenRequest::Open(CodeOpenInfo {
            remote_host_name: h,
            remote_dir_full_path: d,
        })),
        _ => Err(ProtocolError::Decode),
    }
}

/// Round trip of the wire encoding: decoding an encoded open request yields
/// the request's own field contents, for every request whose encoded fields
/// fit the length prefixes.
pub proof fn lemma_request_round_trip(info: CodeOpenInfo)
    requires
        spec_info_encodable(info),
    ensures
        spec_decode_request(spec_encode_request(CodeOpenRequest::Open(info))) == Some(
            (info.remote_host_name@, info.remote_dir_full_path@),
        ),
{
    broadcast use vstd::utf8::encode_utf8_valid_utf8;
    broadcast use vstd::utf8::encode_utf8_decode_utf8;

    lemma_auto_spec_u64_to_from_le_bytes();
    let host = encode_utf8(info.remote_host_name@);
    let dir = encode_utf8(info.remote_dir_full_path@);
    let b = spec_encode_request(CodeOpenRequest::Open(info));
    assert(b.len() == 17 + host.len() + dir.len());
    assert(b[0] == OPEN_TAG);
    assert(b.subrange(1, 9) =~= spec_u64_to_le_bytes(host.len() as u64));
    let hlen = spec_u64_from_le_bytes(b.subrange(1, 9)) as int;
    assert(hlen == host.len());
    assert(b.subrange(9, 9 + hlen) =~= host);
    assert(b.subrange(9 + hlen, 17 + hlen) =~= spec_u64_to_le_bytes(dir.len() as u64));
    let dlen = spec_u64_from_le_bytes(b.subrange(9 + hlen, 17 + hlen)) as int;
    assert(dlen == dir.len());
    assert(b.subrange(17 + hlen, 17 + hlen + dlen) =~= dir);
}

} // verus!
