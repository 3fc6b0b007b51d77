use code_open_server::envelope::{SerializedDataContainer, HEADER_SIZE};
use code_open_server::request::{CodeOpenInfo, CodeOpenRequest, ProtocolError};

#[test]
fn frame_is_little_endian_length_then_payload() {
    let sdc = SerializedDataContainer::new(vec![9, 8, 7]);
    assert_eq!(sdc.to_one_vec(), vec![3, 0, 0, 0, 0, 0, 0, 0, 9, 8, 7]);
}

#[test]
fn frame_round_trip() {
    let sdc = SerializedDataContainer::new(vec![1, 2, 3, 4, 5]);
    let wire = sdc.to_one_vec();
    let back = SerializedDataContainer::from_one_vec(&wire).unwrap();
    assert_eq!(back.to_one_vec(), wire);
    assert_eq!(back.size(), 5);
}

#[test]
fn empty_payload_frame_round_trip() {
    let sdc = SerializedDataContainer::new(vec![]);
    let wire = sdc.to_one_vec();
    assert_eq!(wire, vec![0; HEADER_SIZE]);
    let back = SerializedDataContainer::from_one_vec(&wire).unwrap();
    assert_eq!(back.size(), 0);
}

#[test]
fn unframe_rejects_short_input() {
    assert_eq!(
        SerializedDataContainer::from_one_vec(&vec![]).err(),
        Some(ProtocolError::Framing)
    );
    assert_eq!(
        SerializedDataContainer::from_one_vec(&vec![1, 0, 0]).err(),
        Some(ProtocolError::Framing)
    );
}

#[test]
fn unframe_rejects_inconsistent_length() {
    // header says 4, but only 3 payload bytes follow
    let wire = vec![4, 0, 0, 0, 0, 0, 0, 0, 1, 2, 3];
    assert_eq!(
        SerializedDataContainer::from_one_vec(&wire).err(),
        Some(ProtocolError::Framing)
    );
    // header says 2, but 3 payload bytes follow
    let wire = vec![2, 0, 0, 0, 0, 0, 0, 0, 1, 2, 3];
    assert_eq!(
        SerializedDataContainer::from_one_vec(&wire).err(),
        Some(ProtocolError::Framing)
    );
}

#[test]
fn reader_parts_accept_matching_header() {
    let header = vec![3, 0, 0, 0, 0, 0, 0, 0];
    let sdc = SerializedDataContainer::from_reader_parts(&header, vec![7, 8, 9]).unwrap();
    assert_eq!(sdc.to_one_vec(), vec![3, 0, 0, 0, 0, 0, 0, 0, 7, 8, 9]);
}

#[test]
fn reader_parts_reject_short_header_or_wrong_length() {
    // a connection closed before any bytes arrive yields an empty header
    assert_eq!(
        SerializedDataContainer::from_reader_parts(&vec![], vec![]).err(),
        Some(ProtocolError::Framing)
    );
    let header = vec![3, 0, 0, 0, 0, 0, 0, 0];
    assert_eq!(
        SerializedDataContainer::from_reader_parts(&header, vec![7, 8]).err(),
        Some(ProtocolError::Framing)
    );
}

#[test]
fn header_length_readback() {
    let header = vec![0x10, 0x20, 0, 0, 0, 0, 0, 0];
    assert_eq!(
        SerializedDataContainer::payload_len_of_header(&header),
        Ok(0x2010)
    );
    assert_eq!(
        SerializedDataContainer::payload_len_of_header(&vec![1, 2, 3]),
        Err(ProtocolError::Framing)
    );
}

#[test]
fn container_round_trip_of_request() {
    let req = CodeOpenRequest::Open(CodeOpenInfo::new(
        "some-host".to_string(),
        "/work/dir".to_string(),
    ));
    let sdc = SerializedDataContainer::from_open_request(&req);
    let wire = sdc.to_one_vec();
    let back = SerializedDataContainer::from_one_vec(&wire).unwrap();
    assert_eq!(back.to_open_request(), Ok(req));
}
