//! The per-connection work of the server, minus the socket itself.
//!
//! A connection delivers one frame. Its payload is decoded into a request,
//! the request's host name is resolved through the table, and the result is
//! the exact argument values for the external editor invocation. Reading the
//! bytes, spawning the editor and the accept loop live outside the library;
//! they hand bytes in and carry the computed invocation out.

use vstd::prelude::*;
use vstd::string::StringExecFns;
use crate::envelope::{spec_frame, spec_unframe, SerializedDataContainer};
use crate::request::{spec_decode_request, spec_encode_request, spec_info_encodable, CodeOpenInfo, CodeOpenRequest, ProtocolError};
use crate::table::{resolve_host_name_to_local_configured_name, spec_resolved_host, NameTable};

verus! {

/// The exact arguments of one editor invocation: the remote flag, the remote
/// target it takes, and the directory to open.
pub struct EditorInvocation {
    pub remote_flag: String,
    pub remote_target: String,
    pub remote_dir_full_path: String,
}

/// The argument values the editor is invoked with for an open request.
pub fn editor_invocation_for(info: &CodeOpenInfo) -> (r: EditorInvocation)
    ensures
        r.remote_flag@ == "--remote"@,
        r.remote_target@ == "ssh-remote+"@ + info.remote_host_name@,
        r.remote_dir_full_path@ == info.remote_dir_full_path@,
{
    let mut target = "ssh-remote+".to_owned();
    target.append(info.remote_host_name.as_str());
    EditorInvocation {
        remote_flag: "--remote".to_owned(),
        remote_target: target,
        remote_dir_full_path: info.remote_dir_full_path.clone(),
    }
}

/// The editor binary's name by operating system family.
pub fn editor_binary_name(windows_family: bool) -> (r: String)
    ensures
        windows_family ==> r@ == "code.cmd"@,
        !windows_family ==> r@ == "code"@,
{
    if windows_family {
        "code.cmd".to_owned()
    } else {
        "code".to_owned()
    }
}

/// Decodes a received container's payload and resolves it into the editor
/// invocation to dispatch, failing with a decode error exactly when the
/// payload is not one well-formed request.
pub fn process_request(sdc: &SerializedDataContainer, table: &NameTable) -> (r: Result<
    EditorInvocation,
    ProtocolError,
>)
    requires
        table.wf(),
    ensures
        r is Ok <==> spec_decode_request(sdc.payload()) is Some,
        r matches Ok(inv) ==> (spec_decode_request(sdc.payload()) matches Some(p)
            && inv.remote_flag@ == "--remote"@ && inv.remote_target@ == "ssh-remote+"@
            + spec_resolved_host(p.0, table.as_map()) && inv.remote_dir_full_path@ == p.1),
        r matches Err(e) ==> e == ProtocolError::Decode,
{
    match sdc.to_open_request() {
        Ok(CodeOpenRequest::Open(info)) => {
            let resolved = resolve_host_name_to_local_configured_name(info, table);
            Ok(editor_invocation_for(&resolved))
        },
        Err(e) => Err(e),
    }
}

/// One whole connection's computation: unframes the received bytes, decodes
/// the request, resolves it, and yields the editor invocation. The error
/// tells a framing failure from a decode failure.
pub fn handle_frame(frame: &Vec<u8>, table: &NameTable) -> (r: Result<
    EditorInvocation,
    ProtocolError,
>)
    requires
        table.wf(),
    ensures
        r is Ok <==> (spec_unframe(frame@) matches Some(pl) && spec_decode_request(pl) is Some),
        r matches Ok(inv) ==> (spec_unframe(frame@) matches Some(pl) && spec_decode_request(pl)
            matches Some(p) && inv.remote_flag@ == "--remote"@ && inv.remote_target@
            == "ssh-remote+"@ + spec_resolved_host(p.0, table.as_map())
            && inv.remote_dir_full_path@ == p.1),
        spec_unframe(frame@) is None ==> r == Err::<EditorInvocation, ProtocolError>(
            ProtocolError::Framing,
        ),
        (spec_unframe(frame@) matches Some(pl) && spec_decode_request(pl) is None) ==> r
            == Err::<EditorInvocation, ProtocolError>(ProtocolError::Decode),
{
    match SerializedDataContainer::from_one_vec(frame) {
        Ok(sdc) => process_request(&sdc, table),
        Err(e) => Err(e),
    }
}

/// What a client sends is what the server acts on: a framed encoded open
/// request unframes and decodes back to the request's own field contents,
/// for every request whose encoding fits the length prefixes. Together with
/// the contract of `handle_frame`, the connection's outcome is the editor
/// invocation for the resolved host and the unchanged directory.
pub proof fn lemma_sent_request_reaches_dispatch(info: CodeOpenInfo)
    requires
        spec_info_encodable(info),
        spec_encode_request(CodeOpenRequest::Open(info)).len() <= u64::MAX,
    ensures
        spec_unframe(spec_frame(spec_encode_request(CodeOpenRequest::Open(info)))) == Some(
            spec_encode_request(CodeOpenRequest::Open(info)),
        ),
        spec_decode_request(spec_encode_request(CodeOpenRequest::Open(info))) == Some(
            (info.remote_host_name@, info.remote_dir_full_path@),
        ),
{
    crate::envelope::lemma_frame_round_trip(spec_encode_request(CodeOpenRequest::Open(info)));
    crate::request::lemma_request_round_trip(info);
}

} // verus!
