use code_open_server::envelope::SerializedDataContainer;
use code_open_server::request::{CodeOpenInfo, CodeOpenRequest, ProtocolError};
use code_open_server::server::{editor_binary_name, handle_frame, process_request};
use code_open_server::table::{table_from_file_contents, NameTable};

fn frame_for(host: &str, dir: &str) -> Vec<u8> {
    let req = CodeOpenRequest::Open(CodeOpenInfo::new(host.to_string(), dir.to_string()));
    SerializedDataContainer::from_open_request(&req).to_one_vec()
}

#[test]
fn mapped_host_is_dispatched_under_its_alias() {
    // the table file maps the actual host to a configured alias
    let contents = b"{\"actual-host.example.com\": \"my-alias\"}".to_vec();
    let (table, _) = table_from_file_contents(Some(&contents));
    let wire = frame_for("actual-host.example.com", "/home/user/project");
    let inv = handle_frame(&wire, &table).unwrap();
    assert_eq!(inv.remote_flag, "--remote");
    assert_eq!(inv.remote_target, "ssh-remote+my-alias");
    assert_eq!(inv.remote_dir_full_path, "/home/user/project");
}

#[test]
fn unmapped_host_is_dispatched_as_sent() {
    // no table file: the run starts from the empty table
    let (table, needs_init) = table_from_file_contents(None);
    assert!(needs_init);
    let wire = frame_for("unknown-host", "/tmp");
    let inv = handle_frame(&wire, &table).unwrap();
    assert_eq!(inv.remote_flag, "--remote");
    assert_eq!(inv.remote_target, "ssh-remote+unknown-host");
    assert_eq!(inv.remote_dir_full_path, "/tmp");
}

#[test]
fn inconsistent_frame_is_a_framing_error() {
    let table = NameTable::new();
    assert_eq!(
        handle_frame(&vec![1, 2, 3], &table).err(),
        Some(ProtocolError::Framing)
    );
    let mut wire = frame_for("h", "/d");
    wire.pop();
    assert_eq!(handle_frame(&wire, &table).err(), Some(ProtocolError::Framing));
}

#[test]
fn well_framed_garbage_is_a_decode_error() {
    let table = NameTable::new();
    let wire = SerializedDataContainer::new(vec![9, 9, 9]).to_one_vec();
    assert_eq!(handle_frame(&wire, &table).err(), Some(ProtocolError::Decode));
}

#[test]
fn container_step_resolves_like_the_frame_step() {
    let mut table = NameTable::new();
    table.insert("a".to_string(), "b".to_string());
    let req = CodeOpenRequest::Open(CodeOpenInfo::new("a".to_string(), "/d".to_string()));
    let sdc = SerializedDataContainer::from_open_request(&req);
    let inv = process_request(&sdc, &table).unwrap();
    assert_eq!(inv.remote_target, "ssh-remote+b");
}

#[test]
fn editor_binary_name_by_family() {
    assert_eq!(editor_binary_name(true), "code.cmd");
    assert_eq!(editor_binary_name(false), "code");
}
