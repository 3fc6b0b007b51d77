//! The serialization envelope: a length-prefixed frame that carries exactly
//! one serialized value over a byte stream.
//!
//! Framing is separate from decoding: a reader first gathers a complete frame
//! (8-byte little-endian payload length, then that many payload bytes) and
//! only then interprets the payload, so a partial read never turns into a
//! partial parse.

use vstd::prelude::*;
use vstd::bytes::*;
use vstd::slice::{slice_subrange, slice_to_vec};
use crate::request::{
    spec_decode_request, spec_encode_request, decode_request, encode_request, CodeOpenRequest,
    ProtocolError,
};

verus! {

/// The number of bytes of the length prefix that opens every frame.
pub const HEADER_SIZE: usize = 8;

/// A self-describing container for one serialized value: the payload bytes
/// together with their recorded length.
pub struct SerializedDataContainer {
    size: usize,
    data: Vec<u8>,
}

/// One whole frame: the payload's length as 8 little-endian bytes, then the
/// payload itself.
pub open spec fn spec_frame(payload: Seq<u8>) -> Seq<u8> {
    spec_u64_to_le_bytes(payload.len() as u64) + payload
}

/// What a byte sequence unframes to: its payload, provided the sequence is
/// long enough for a header and the header's length matches the remainder
/// exactly.
pub open spec fn spec_unframe(bytes: Seq<u8>) -> Option<Seq<u8>> {
    if bytes.len() < 8 {
        None
    } else if spec_u64_from_le_bytes(bytes.subrange(0, 8)) as int == bytes.len() - 8 {
        Some(bytes.subrange(8, bytes.len() as int))
    } else {
        None
    }
}

impl SerializedDataContainer {
    /// The container's invariant: the recorded length is the payload's length.
    pub closed spec fn wf(&self) -> bool {
        self.size == self.data@.len()
    }

    /// The payload the container carries.
    pub closed spec fn payload(&self) -> Seq<u8> {
        self.data@
    }

    /// Wraps payload bytes in a container.
    pub fn new(data: Vec<u8>) -> (r: SerializedDataContainer)
        ensures
            r.wf(),
            r.payload() == data@,
    {
        let size = data.len();
        SerializedDataContainer { size, data }
    }

    /// The recorded payload length.
    pub fn size(&self) -> (r: usize)
        requires
            self.wf(),
        ensures
            r == self.payload().len(),
    {
        self.size
    }

    /// Serializes the whole frame: header then payload.
    pub fn to_one_vec(&self) -> (r: Vec<u8>)
        requires
            self.wf(),
        ensures
            r@ == spec_frame(self.payload()),
    {
        let mut out = u64_to_le_bytes(self.size as u64);
        let mut payload = slice_to_vec(self.data.as_slice());
        out.append(&mut payload);
        assert(out@ =~= spec_frame(self.payload()));
        out
    }

    /// Rebuilds a container from one whole frame, failing with a framing
    /// error exactly when the bytes are not a single consistent frame.
    pub fn from_one_vec(bytes: &Vec<u8>) -> (r: Result<SerializedDataContainer, ProtocolError>)
        ensures
            r is Ok <==> spec_unframe(bytes@) is Some,
            r matches Ok(c) ==> c.wf() && spec_unframe(bytes@) == Some(c.payload()),
            r matches Err(e) ==> e == ProtocolError::Framing,
    {
        let n = bytes.len();
        if n < 8 {
            return Err(ProtocolError::Framing);
        }
        let len64 = u64_from_le_bytes(slice_subrange(bytes.as_slice(), 0, 8));
        if len64 != (n - 8) as u64 {
            return Err(ProtocolError::Framing);
        }
        let data = slice_to_vec(slice_subrange(bytes.as_slice(), 8, n));
        Ok(SerializedDataContainer::new(data))
    }

    /// Reassembles a container from a header and a payload read separately
    /// from a stream, failing exactly when the pieces are inconsistent: the
    /// header must be whole and must announce the payload's length.
    pub fn from_reader_parts(header: &Vec<u8>, payload: Vec<u8>) -> (r: Result<
        SerializedDataContainer,
        ProtocolError,
    >)
        ensures
            r is Ok <==> (header@.len() == 8 && payload@.len() == spec_u64_from_le_bytes(header@)),
            r matches Ok(c) ==> c.wf() && c.payload() == payload@ && spec_unframe(
                header@ + payload@,
            ) == Some(payload@),
            r matches Err(e) ==> e == ProtocolError::Framing,
    {
        if header.len() != 8 {
            return Err(ProtocolError::Framing);
        }
        let len64 = u64_from_le_bytes(header.as_slice());
        if payload.len() as u64 != len64 {
            return Err(ProtocolError::Framing);
        }
        let ghost whole = header@ + payload@;
        assert(whole.subrange(0, 8) =~= header@);
        assert(whole.subrange(8, whole.len() as int) =~= payload@);
        Ok(SerializedDataContainer::new(payload))
    }

    /// The payload length a frame header announces, or a framing error if the
    /// header does not have exactly the header size.
    pub fn payload_len_of_header(header: &Vec<u8>) -> (r: Result<u64, ProtocolError>)
        ensures
            r is Ok <==> header@.len() == 8,
            r matches Ok(len) ==> len == spec_u64_from_le_bytes(header@),
            r matches Err(e) ==> e == ProtocolError::Framing,
    {
        if header.len() != 8 {
            return Err(ProtocolError::Framing);
        }
        Ok(u64_from_le_bytes(header.as_slice()))
    }

    /// Wraps an encoded request in a container, as a sending client does.
    pub fn from_open_request(req: &CodeOpenRequest) -> (r: SerializedDataContainer)
        ensures
            r.wf(),
            r.payload() == spec_encode_request(*req),
    {
        SerializedDataContainer::new(encode_request(req))
    }

    /// Interprets the payload as a request, failing with a decode error
    /// exactly when the payload is not one well-formed request.
    pub fn to_open_request(&self) -> (r: Result<CodeOpenRequest, ProtocolError>)
        ensures
            r is Ok <==> spec_decode_request(self.payload()) is Some,
            r matches Ok(req) ==> (req matches CodeOpenRequest::Open(info)
                && spec_decode_request(self.payload()) == Some(
                (info.remote_host_name@, info.remote_dir_full_path@),
            )),
            r matches Err(e) ==> e == ProtocolError::Decode,
    {
        decode_request(&self.data)
    }
}

/// Round trip of the framing: unframing a written frame yields the payload,
/// for every payload whose length fits the 8-byte header.
pub proof fn lemma_frame_round_trip(payload: Seq<u8>)
    requires
        payload.len() <= u64::MAX,
    ensures
        spec_unframe(spec_frame(payload)) == Some(payload),
{
    lemma_auto_spec_u64_to_from_le_bytes();
    let b = spec_frame(payload);
    assert(b.subrange(0, 8) =~= spec_u64_to_le_bytes(payload.len() as u64));
    assert(b.subrange(8, b.len() as int) =~= payload);
}

} // verus!
