use tpm2_proto::algid::TpmAlgId;
use tpm2_proto::codec::Tpm2StructOut;
use tpm2_proto::commands::TPM_RC_SUCCESS;
use tpm2_proto::errors::{TpmError, TransportError};
use tpm2_proto::pcrread::{tpm2_pcr_read, PcrReadCommand, PcrReadResponse};
use tpm2_proto::pcrs::{PCRSelection, PlatformConfigurationRegisters};
use tpm2_proto::run::{accept_response, build_command, run_command, Transport};
use tpm2_proto::st::TpmSt;
use tpm2_proto::tcg::{Handle, Tpm2bDigest, TpmlDigest, TpmlPcrSelection, TpmsAuthCommand, TpmsPcrSelection};
use tpm2_proto::wire::WireBuffer;

/// A transport that records every request and replies from a script.
struct ScriptedTransport {
    requests: Vec<Vec<u8>>,
    responses: Vec<Vec<u8>>,
    next: usize,
}

impl ScriptedTransport {
    fn replying(responses: Vec<Vec<u8>>) -> ScriptedTransport {
        ScriptedTransport { requests: Vec::new(), responses, next: 0 }
    }
}

impl Transport for ScriptedTransport {
    fn exchange(&mut self, request: &Vec<u8>) -> Result<Vec<u8>, TransportError> {
        self.requests.push(request.clone());
        if self.next < self.responses.len() {
            let r = self.responses[self.next].clone();
            self.next += 1;
            Ok(r)
        } else {
            Err(TransportError::new())
        }
    }
}

/// A full success response to one PCR-read exchange: header, update
/// counter, the echoed selection, and the digests.
fn ok_pcr_response(alg: u16, bitmap: [u8; 3], digests: &[Vec<u8>]) -> Vec<u8> {
    let mut payload: Vec<u8> = Vec::new();
    payload.extend_from_slice(&0u32.to_be_bytes());
    payload.extend_from_slice(&1u32.to_be_bytes());
    payload.extend_from_slice(&alg.to_be_bytes());
    payload.push(3);
    payload.extend_from_slice(&bitmap);
    payload.extend_from_slice(&(digests.len() as u32).to_be_bytes());
    for d in digests {
        payload.extend_from_slice(&(d.len() as u16).to_be_bytes());
        payload.extend_from_slice(d);
    }
    let mut resp: Vec<u8> = Vec::new();
    resp.extend_from_slice(&0x8001u16.to_be_bytes());
    resp.extend_from_slice(&((10 + payload.len()) as u32).to_be_bytes());
    resp.extend_from_slice(&TPM_RC_SUCCESS.to_be_bytes());
    resp.extend(payload);
    resp
}

fn error_response(code: u32) -> Vec<u8> {
    let mut resp: Vec<u8> = Vec::new();
    resp.extend_from_slice(&0x8001u16.to_be_bytes());
    resp.extend_from_slice(&10u32.to_be_bytes());
    resp.extend_from_slice(&code.to_be_bytes());
    resp
}

fn sample_digests(n: usize) -> Vec<Vec<u8>> {
    (0..n).map(|i| vec![0xA0 + i as u8, 0x01, i as u8]).collect()
}

const SHA256_CODE: u16 = 0x000B;

#[test]
fn eight_registers_take_one_exchange() {
    // Registers 0..=7 for one bank: one chunk, bitmap 0xFF 0x00 0x00, and
    // bit n maps to register n.
    let digests = sample_digests(8);
    let mut tpm = ScriptedTransport::replying(vec![ok_pcr_response(
        SHA256_CODE,
        [0xFF, 0x00, 0x00],
        &digests,
    )]);
    let selection = vec![PCRSelection::new(TpmAlgId::SHA256, (0..8).collect())];
    let pcrs = tpm2_pcr_read(&mut tpm, &selection).unwrap();
    assert_eq!(tpm.requests.len(), 1);
    // The request is 10 bytes of header, then the selection list: count,
    // algorithm, sizeofSelect, and the three bitmap bytes.
    let req = &tpm.requests[0];
    assert_eq!(req.len(), 20);
    assert_eq!(&req[req.len() - 3..], &[0xFF, 0x00, 0x00]);
    assert_eq!(pcrs.len(), 8);
    for n in 0..8u32 {
        assert_eq!(pcrs.get(TpmAlgId::SHA256, n), Some(&digests[n as usize]));
    }
}

#[test]
fn ten_registers_take_two_exchanges() {
    // Registers 0..=9: chunk one covers 0..=7, chunk two covers 8 and 9.
    let first = sample_digests(8);
    let second = vec![vec![0xB8], vec![0xB9]];
    let mut tpm = ScriptedTransport::replying(vec![
        ok_pcr_response(SHA256_CODE, [0xFF, 0x00, 0x00], &first),
        ok_pcr_response(SHA256_CODE, [0x00, 0x03, 0x00], &second),
    ]);
    let selection = vec![PCRSelection::new(TpmAlgId::SHA256, (0..10).collect())];
    let pcrs = tpm2_pcr_read(&mut tpm, &selection).unwrap();
    assert_eq!(tpm.requests.len(), 2);
    assert_eq!(&tpm.requests[0][17..20], &[0xFF, 0x00, 0x00]);
    assert_eq!(&tpm.requests[1][17..20], &[0x00, 0x03, 0x00]);
    assert_eq!(pcrs.len(), 10);
    assert_eq!(pcrs.get(TpmAlgId::SHA256, 8), Some(&vec![0xB8]));
    assert_eq!(pcrs.get(TpmAlgId::SHA256, 9), Some(&vec![0xB9]));
    assert_eq!(pcrs.get(TpmAlgId::SHA256, 10), None);
}

#[test]
fn out_of_range_register_issues_no_exchange() {
    // Register 25 is beyond the supported maximum of 23.
    let mut tpm = ScriptedTransport::replying(vec![]);
    let selection = vec![PCRSelection::new(TpmAlgId::SHA256, vec![25])];
    let r = tpm2_pcr_read(&mut tpm, &selection);
    assert_eq!(r.unwrap_err(), TpmError::InputParameter);
    assert_eq!(tpm.requests.len(), 0);
}

#[test]
fn command_error_carries_the_response_code() {
    // The device reports failure: the code is surfaced verbatim and no
    // payload is decoded into the accumulator.
    let mut tpm = ScriptedTransport::replying(vec![error_response(0x0000_0902)]);
    let selection = vec![PCRSelection::new(TpmAlgId::SHA256, vec![0, 1])];
    let r = tpm2_pcr_read(&mut tpm, &selection);
    assert_eq!(r.unwrap_err(), TpmError::Command(0x0000_0902));
    assert_eq!(tpm.requests.len(), 1);
}

#[test]
fn missing_digests_are_a_structural_error() {
    // Five bits set, only three digests returned: the whole operation
    // fails with a structural-format error and yields nothing.
    let digests = sample_digests(3);
    let mut tpm = ScriptedTransport::replying(vec![ok_pcr_response(
        SHA256_CODE,
        [0x1F, 0x00, 0x00],
        &digests,
    )]);
    let selection = vec![PCRSelection::new(TpmAlgId::SHA256, (0..5).collect())];
    let r = tpm2_pcr_read(&mut tpm, &selection);
    assert_eq!(r.unwrap_err(), TpmError::StructuralFormat);
}

#[test]
fn transport_failure_is_surfaced() {
    let mut tpm = ScriptedTransport::replying(vec![]);
    let selection = vec![PCRSelection::new(TpmAlgId::SHA256, vec![0])];
    let r = tpm2_pcr_read(&mut tpm, &selection);
    assert_eq!(r.unwrap_err(), TpmError::Transport);
}

#[test]
fn two_banks_accumulate_under_their_own_keys() {
    let sha_digests = vec![vec![0x11]];
    let sha1_digests = vec![vec![0x22]];
    let mut tpm = ScriptedTransport::replying(vec![
        ok_pcr_response(SHA256_CODE, [0x01, 0x00, 0x00], &sha_digests),
        ok_pcr_response(0x0004, [0x01, 0x00, 0x00], &sha1_digests),
    ]);
    let selection = vec![
        PCRSelection::new(TpmAlgId::SHA256, vec![0]),
        PCRSelection::new(TpmAlgId::SHA1, vec![0]),
    ];
    let pcrs = tpm2_pcr_read(&mut tpm, &selection).unwrap();
    assert_eq!(pcrs.len(), 2);
    assert_eq!(pcrs.get(TpmAlgId::SHA256, 0), Some(&vec![0x11]));
    assert_eq!(pcrs.get(TpmAlgId::SHA1, 0), Some(&vec![0x22]));
}

#[test]
fn authorization_block_packs_after_handles() {
    let auth = TpmsAuthCommand {
        session_handle: 0x0200_0001,
        nonce: Tpm2bDigest { buffer: vec![0xAA] },
        session_attributes: 0x01,
        hmac: Tpm2bDigest { buffer: vec![] },
    };
    let handles: Vec<Handle> = vec![0x8100_0000];
    let params: Vec<u32> = Vec::new();
    let bytes = build_command(TpmSt::Sessions, 0x153, &handles, &auths_of(auth), &params).unwrap();
    let size = u32::from_be_bytes([bytes[2], bytes[3], bytes[4], bytes[5]]);
    assert_eq!(size as usize, bytes.len());
    // Header, one handle, then the authorization block: session handle,
    // sized nonce, attributes, sized hmac.
    assert_eq!(
        &bytes[10..],
        &[
            0x81, 0x00, 0x00, 0x00, // handle
            0x02, 0x00, 0x00, 0x01, // session handle
            0x00, 0x01, 0xAA, // nonce
            0x01, // attributes
            0x00, 0x00, // empty hmac
        ]
    );
}

fn auths_of(a: TpmsAuthCommand) -> Vec<TpmsAuthCommand> {
    vec![a]
}

#[test]
fn build_command_sets_the_exact_size() {
    let params = vec![TpmlPcrSelection {
        pcr_selections: vec![TpmsPcrSelection {
            hash: TpmAlgId::SHA256,
            pcr_select: vec![0xFF, 0x00, 0x00],
        }],
    }];
    let handles: Vec<Handle> = vec![0x4000_000B];
    let auths: Vec<TpmsAuthCommand> = Vec::new();
    let bytes = build_command(TpmSt::NoSessions, 0x17E, &handles, &auths, &params).unwrap();
    // The embedded size field equals the length of the whole message.
    let size = u32::from_be_bytes([bytes[2], bytes[3], bytes[4], bytes[5]]);
    assert_eq!(size as usize, bytes.len());
    assert_eq!(bytes.len(), 10 + 4 + 10);
    assert_eq!(&bytes[0..2], &[0x80, 0x01]);
    assert_eq!(&bytes[6..10], &[0x00, 0x00, 0x01, 0x7E]);
    // Handles come before parameters.
    assert_eq!(&bytes[10..14], &[0x40, 0x00, 0x00, 0x0B]);
}

#[test]
fn accept_response_gates_payload_on_the_code() {
    let mut ok = error_response(TPM_RC_SUCCESS);
    ok.extend_from_slice(&[0xDE, 0xAD]);
    let (header, payload) = accept_response(ok).unwrap();
    assert_eq!(header.response_code, TPM_RC_SUCCESS);
    assert_eq!(payload, vec![0xDE, 0xAD]);

    let mut failed = error_response(0x184);
    failed.extend_from_slice(&[0xDE, 0xAD]);
    assert_eq!(accept_response(failed).unwrap_err(), TpmError::Command(0x184));

    assert_eq!(accept_response(vec![0x80]).unwrap_err(), TpmError::Decode);
}

#[test]
fn run_command_surfaces_transport_failure() {
    let mut tpm = ScriptedTransport::replying(vec![]);
    let handles: Vec<Handle> = Vec::new();
    let auths: Vec<TpmsAuthCommand> = Vec::new();
    let params: Vec<u32> = vec![7];
    let r = run_command(&mut tpm, TpmSt::NoSessions, 0x144, &handles, &auths, &params);
    assert_eq!(r.unwrap_err(), TpmError::Transport);
    assert_eq!(tpm.requests[0].len(), 14);
}

#[test]
fn pcr_read_command_size_covers_header_and_selection() {
    let selection = TpmlPcrSelection {
        pcr_selections: vec![TpmsPcrSelection {
            hash: TpmAlgId::SHA256,
            pcr_select: vec![0xFF, 0xFF, 0xFF],
        }],
    };
    let cmd = PcrReadCommand::new(TpmSt::NoSessions, selection).unwrap();
    // 10 bytes of header plus a one-entry selection list of 10 bytes.
    assert_eq!(cmd.header.command_size, 20);
    let mut buff = WireBuffer::new();
    cmd.pack(&mut buff);
    assert_eq!(buff.to_vec().len(), 20);
}

#[test]
fn pcr_read_command_rejects_malformed_selection() {
    let selection = TpmlPcrSelection {
        pcr_selections: vec![TpmsPcrSelection {
            hash: TpmAlgId::SHA256,
            pcr_select: vec![0xFF],
        }],
    };
    let r = PcrReadCommand::new(TpmSt::NoSessions, selection);
    assert_eq!(r.unwrap_err(), TpmError::InputParameter);
}

#[test]
fn response_payload_decodes_and_maps_digests() {
    let digests = sample_digests(2);
    let full = ok_pcr_response(SHA256_CODE, [0x05, 0x00, 0x00], &digests);
    let (_, payload) = accept_response(full).unwrap();
    let mut buff = WireBuffer::from_vec(payload);
    let resp = PcrReadResponse::new(&mut buff).unwrap();
    assert_eq!(resp.pcr_update_counter, 0);
    let pcrs = resp.to_pcr_values().unwrap();
    // Bits 0 and 2 were set: the digests land on registers 0 and 2.
    assert_eq!(pcrs.get(TpmAlgId::SHA256, 0), Some(&digests[0]));
    assert_eq!(pcrs.get(TpmAlgId::SHA256, 2), Some(&digests[1]));
    assert_eq!(pcrs.get(TpmAlgId::SHA256, 1), None);
}

#[test]
fn accumulator_add_get_and_merge() {
    let mut a = PlatformConfigurationRegisters::new();
    a.add(TpmAlgId::SHA256, 1, vec![0x01]);
    a.add(TpmAlgId::SHA256, 2, vec![0x02]);
    let mut b = PlatformConfigurationRegisters::new();
    b.add(TpmAlgId::SHA256, 2, vec![0x22]);
    b.add(TpmAlgId::SHA1, 3, vec![0x03]);
    a.merge(&b);
    // The later record wins on the shared key; keys stay unique.
    assert_eq!(a.len(), 3);
    assert_eq!(a.get(TpmAlgId::SHA256, 1), Some(&vec![0x01]));
    assert_eq!(a.get(TpmAlgId::SHA256, 2), Some(&vec![0x22]));
    assert_eq!(a.get(TpmAlgId::SHA1, 3), Some(&vec![0x03]));
    assert_eq!(a.get(TpmAlgId::SHA1, 2), None);
}

#[test]
fn digest_list_capacity_guard() {
    let list = TpmlDigest {
        digests: vec![Tpm2bDigest { buffer: vec![0x42] }],
    };
    assert_eq!(list.num_digests(), 1);
    assert_eq!(list.get_digest(1).unwrap_err(), TpmError::StructuralFormat);
}

#[test]
fn selection_accessors_report_the_request() {
    let sel = PCRSelection::new(TpmAlgId::SHA1, vec![4, 5, 6]);
    assert_eq!(sel.get_algo(), TpmAlgId::SHA1);
    assert_eq!(sel.get_pcrs(), &vec![4, 5, 6]);
}
