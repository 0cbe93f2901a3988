use vstd::prelude::*;

use crate::codec::{lemma_be_bytes_len, pack, wire_concat, Tpm2StructIn, Tpm2StructOut};
use crate::commands::{CommandHeader, ResponseHeader, TPM_RC_SUCCESS};
use crate::errors::{TpmError, TransportError};
use crate::st::TpmSt;
use crate::tcg::{Handle, TpmsAuthCommand};
use crate::wire::{wire_data, wire_rest, wire_rpos, WireBuffer};

verus! {

/// The capability one TPM device connection provides: a single blocking
/// request/response exchange, one command in flight at a time.
/// Implementations live outside this library (a TCP link to a simulator, a
/// character device, a scripted replay in a test); nothing is assumed
/// about the bytes they return.
pub trait Transport {
    /// Sends one serialized command message and returns the device's raw
    /// response bytes, or a transport failure.
    fn exchange(&mut self, request: &Vec<u8>) -> Result<Vec<u8>, TransportError>;
}

/// The wire bytes of a command body: handles, then authorizations, then
/// parameters, in that order.
pub open spec fn body_wire<P: Tpm2StructOut>(
    handles: Seq<Handle>,
    auths: Seq<TpmsAuthCommand>,
    params: Seq<P>,
) -> Seq<u8> {
    wire_concat(handles) + wire_concat(auths) + wire_concat(params)
}

/// Serializes one full command message: handles, authorizations and
/// parameters behind a header whose size field equals the exact byte
/// length of the whole message. A body too large for the 4-byte size
/// field is an input-parameter error, found before any transport work.
pub fn build_command<P: Tpm2StructOut>(
    tag: TpmSt,
    command_code: u32,
    handles: &Vec<Handle>,
    auths: &Vec<TpmsAuthCommand>,
    params: &Vec<P>,
) -> (r: Result<Vec<u8>, TpmError>)
    requires
        forall|i: int| 0 <= i < auths@.len() ==> #[trigger] auths@[i].wf(),
        forall|i: int| 0 <= i < params@.len() ==> #[trigger] params@[i].wf(),
    ensures
        match r {
            Ok(bytes) => 10 + body_wire(handles@, auths@, params@).len() <= u32::MAX
                && bytes@ == (CommandHeader {
                    tag,
                    command_size: (10 + body_wire(handles@, auths@, params@).len()) as u32,
                    command_code,
                }).wire() + body_wire(handles@, auths@, params@)
                && bytes@.len() == 10 + body_wire(handles@, auths@, params@).len(),
            Err(e) => e == TpmError::InputParameter
                && 10 + body_wire(handles@, auths@, params@).len() > u32::MAX,
        },
{
    let mut body = WireBuffer::new();
    pack(handles.as_slice(), &mut body);
    pack(auths.as_slice(), &mut body);
    pack(params.as_slice(), &mut body);
    proof {
        assert(wire_data(body) =~= body_wire(handles@, auths@, params@));
    }
    let body_len = body.len();
    if body_len as u64 > (u32::MAX as u64) - 10 {
        return Err(TpmError::InputParameter);
    }
    let size = (body_len as u32) + 10;
    let header = CommandHeader::new(tag, size, command_code);
    let mut msg = WireBuffer::new();
    header.pack(&mut msg);
    let body_bytes = body.to_vec();
    msg.write(body_bytes.as_slice());
    let out = msg.to_vec();
    proof {
        lemma_be_bytes_len(crate::st::st_code(tag) as int, 2);
        lemma_be_bytes_len(size as int, 4);
        lemma_be_bytes_len(command_code as int, 4);
        assert(out@ =~= header.wire() + body_wire(handles@, auths@, params@));
    }
    Ok(out)
}

/// Interprets the raw bytes one exchange returned: the response header is
/// decoded from the front, and everything after it is surfaced only when
/// the response code reports success. A non-success code is returned as a
/// command error carrying that code, and the payload bytes are discarded
/// undecoded.
pub fn accept_response(response: Vec<u8>) -> (r: Result<(ResponseHeader, Vec<u8>), TpmError>)
    ensures
        match ResponseHeader::dec(response@) {
            None => r == Err::<(ResponseHeader, Vec<u8>), TpmError>(TpmError::Decode),
            Some(hn) => if hn.0.response_code != TPM_RC_SUCCESS {
                r == Err::<(ResponseHeader, Vec<u8>), TpmError>(
                    TpmError::Command(hn.0.response_code),
                )
            } else {
                r is Ok && r->Ok_0.0 == hn.0 && r->Ok_0.1@ == response@.skip(hn.1)
            },
        },
{
    let ghost rv = response@;
    let mut buff = WireBuffer::from_vec(response);
    proof {
        assert(wire_rest(buff) =~= rv);
    }
    let mut header = ResponseHeader::new();
    header.unpack(&mut buff)?;
    if header.response_code != TPM_RC_SUCCESS {
        return Err(TpmError::Command(header.response_code));
    }
    let total = buff.len();
    let pos = buff.read_pos();
    let payload = buff.read(total - pos);
    proof {
        assert(payload@ =~= rv.skip(10));
    }
    Ok((header, payload))
}

/// Assembles one full command message, drives exactly one blocking
/// exchange through the transport, and decodes the response header,
/// gating the payload on the response code. On success the caller
/// receives the header and the undecoded payload bytes; a body too large
/// for the size field is rejected before any exchange; a transport
/// failure and a non-success response code are surfaced as their own
/// error kinds.
pub fn run_command<T: Transport, P: Tpm2StructOut>(
    tpm: &mut T,
    tag: TpmSt,
    command_code: u32,
    handles: &Vec<Handle>,
    auths: &Vec<TpmsAuthCommand>,
    params: &Vec<P>,
) -> (r: Result<(ResponseHeader, Vec<u8>), TpmError>)
    requires
        forall|i: int| 0 <= i < auths@.len() ==> #[trigger] auths@[i].wf(),
        forall|i: int| 0 <= i < params@.len() ==> #[trigger] params@[i].wf(),
    ensures
        r matches Ok(hp) ==> hp.0.response_code == TPM_RC_SUCCESS,
        r matches Err(e) ==> (e == TpmError::InputParameter || e == TpmError::Transport
            || e == TpmError::Decode || (e matches TpmError::Command(c) && c != TPM_RC_SUCCESS)),
        r == Err::<(ResponseHeader, Vec<u8>), TpmError>(TpmError::InputParameter)
            <==> 10 + body_wire(handles@, auths@, params@).len() > u32::MAX,
{
    let request = match build_command(tag, command_code, handles, auths, params) {
        Ok(bytes) => bytes,
        Err(e) => {
            return Err(e);
        },
    };
    let response = match tpm.exchange(&request) {
        Ok(bytes) => bytes,
        Err(_) => {
            return Err(TpmError::Transport);
        },
    };
    accept_response(response)
}

} // verus!
