use vstd::prelude::*;

use crate::codec::{be_bytes, be_val, push_be, read_be, Tpm2StructIn, Tpm2StructOut};
use crate::errors::TpmError;
use crate::st::{st_code, TpmSt};
use crate::wire::{wire_data, wire_rest, wire_rpos, WireBuffer};

verus! {

/// The response code the TPM returns for a command that succeeded.
pub const TPM_RC_SUCCESS: u32 = 0;

/// The header that starts every command message: a session tag, the size
/// of the whole serialized message, and the opcode. Its invariant — the
/// size field equals the exact length of header plus body — is established
/// where the message is assembled (`run::build_command`).
#[derive(Debug, Copy, Clone, PartialEq, Eq, Structural)]
pub struct CommandHeader {
    pub tag: TpmSt,
    pub command_size: u32,
    pub command_code: u32,
}

impl CommandHeader {
    /// A header with the given tag, total message size and opcode.
    pub fn new(tag: TpmSt, command_size: u32, command_code: u32) -> (r: Self)
        ensures
            r == (CommandHeader { tag, command_size, command_code }),
    {
        CommandHeader { tag, command_size, command_code }
    }
}

impl Tpm2StructOut for CommandHeader {
    open spec fn wire(&self) -> Seq<u8> {
        be_bytes(st_code(self.tag) as int, 2) + be_bytes(self.command_size as int, 4)
            + be_bytes(self.command_code as int, 4)
    }

    open spec fn wf(&self) -> bool {
        true
    }

    fn pack(&self, buff: &mut WireBuffer) {
        self.tag.pack(buff);
        push_be(buff, self.command_size as u64, 4);
        push_be(buff, self.command_code as u64, 4);
        proof {
            assert(wire_data(*old(buff)) + be_bytes(st_code(self.tag) as int, 2)
                + be_bytes(self.command_size as int, 4) + be_bytes(self.command_code as int, 4)
                =~= wire_data(*old(buff)) + self.wire());
        }
    }
}

/// The header that starts every response message; decoded first, its
/// response code decides whether the rest of the bytes are interpreted at
/// all.
#[derive(Debug, Copy, Clone, PartialEq, Eq, Structural)]
pub struct ResponseHeader {
    pub tag: TpmSt,
    pub response_size: u32,
    pub response_code: u32,
}

impl ResponseHeader {
    /// A fresh header to decode into: null tag, zero size, success.
    pub fn new() -> (r: Self)
        ensures
            r == (ResponseHeader {
                tag: TpmSt::Null,
                response_size: 0,
                response_code: TPM_RC_SUCCESS,
            }),
    {
        ResponseHeader { tag: TpmSt::Null, response_size: 0, response_code: TPM_RC_SUCCESS }
    }
}

impl DeepView for ResponseHeader {
    type V = ResponseHeader;

    open spec fn deep_view(&self) -> ResponseHeader {
        *self
    }
}

impl Tpm2StructIn for ResponseHeader {
    open spec fn dec(s: Seq<u8>) -> Option<(ResponseHeader, int)> {
        match TpmSt::dec(s) {
            None => None,
            Some(tn) => if s.len() < 10 {
                None
            } else {
                Some(
                    (
                        ResponseHeader {
                            tag: tn.0,
                            response_size: be_val(s.subrange(2, 6)) as u32,
                            response_code: be_val(s.subrange(6, 10)) as u32,
                        },
                        10,
                    ),
                )
            },
        }
    }

    fn unpack(&mut self, buff: &mut WireBuffer) -> (r: Result<(), TpmError>) {
        let ghost entry = wire_rest(*buff);
        let mut tag = TpmSt::Null;
        tag.unpack(buff)?;
        let ghost after_tag = wire_rest(*buff);
        let size = read_be(buff, 4)?;
        let ghost after_size = wire_rest(*buff);
        let code = read_be(buff, 4)?;
        proof {
            assert(after_tag =~= entry.skip(2));
            assert(after_size =~= entry.skip(6));
            assert(after_tag.take(4) =~= entry.subrange(2, 6));
            assert(after_size.take(4) =~= entry.subrange(6, 10));
        }
        self.tag = tag;
        self.response_size = size as u32;
        self.response_code = code as u32;
        Ok(())
    }
}

} // verus!
