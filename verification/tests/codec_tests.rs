use tpm2_proto::algid::TpmAlgId;
use tpm2_proto::codec::{pack, Tpm2StructIn, Tpm2StructOut};
use tpm2_proto::commands::{CommandHeader, ResponseHeader, TPM_RC_SUCCESS};
use tpm2_proto::errors::TpmError;
use tpm2_proto::st::TpmSt;
use tpm2_proto::tcg::{Tpm2bDigest, TpmlDigest, TpmlPcrSelection, TpmsPcrSelection};
use tpm2_proto::wire::WireBuffer;

fn packed<T: Tpm2StructOut>(v: &T) -> Vec<u8> {
    let mut buff = WireBuffer::new();
    v.pack(&mut buff);
    buff.to_vec()
}

#[test]
fn u16_packs_big_endian() {
    assert_eq!(packed(&0x1234u16), vec![0x12, 0x34]);
    assert_eq!(packed(&0x00FFu16), vec![0x00, 0xFF]);
}

#[test]
fn u32_packs_big_endian() {
    assert_eq!(packed(&0xDEADBEEFu32), vec![0xDE, 0xAD, 0xBE, 0xEF]);
}

#[test]
fn u64_packs_big_endian() {
    assert_eq!(
        packed(&0x0102030405060708u64),
        vec![1, 2, 3, 4, 5, 6, 7, 8]
    );
}

#[test]
fn primitive_round_trip() {
    let mut buff = WireBuffer::new();
    0x7Fu8.pack(&mut buff);
    0xABCDu16.pack(&mut buff);
    0x11223344u32.pack(&mut buff);
    0x55667788_99AABBCCu64.pack(&mut buff);
    let mut b: u8 = 0;
    let mut w: u16 = 0;
    let mut d: u32 = 0;
    let mut q: u64 = 0;
    b.unpack(&mut buff).unwrap();
    w.unpack(&mut buff).unwrap();
    d.unpack(&mut buff).unwrap();
    q.unpack(&mut buff).unwrap();
    assert_eq!(b, 0x7F);
    assert_eq!(w, 0xABCD);
    assert_eq!(d, 0x11223344);
    assert_eq!(q, 0x55667788_99AABBCC);
}

#[test]
fn short_buffer_is_decode_error_not_a_crash() {
    // A 2-byte enumeration field against a single remaining byte.
    let mut buff = WireBuffer::from_vec(vec![0x00]);
    let mut alg = TpmAlgId::Error;
    assert_eq!(alg.unpack(&mut buff), Err(TpmError::Decode));
}

#[test]
fn alg_id_code_table_round_trip() {
    assert_eq!(packed(&TpmAlgId::SHA256), vec![0x00, 0x0B]);
    assert_eq!(packed(&TpmAlgId::SHA1), vec![0x00, 0x04]);
    let mut buff = WireBuffer::from_vec(vec![0x00, 0x0B]);
    let mut alg = TpmAlgId::Error;
    alg.unpack(&mut buff).unwrap();
    assert_eq!(alg, TpmAlgId::SHA256);
}

#[test]
fn alg_id_unknown_code_is_decode_error() {
    let mut buff = WireBuffer::from_vec(vec![0x99, 0x99]);
    let mut alg = TpmAlgId::Error;
    assert_eq!(alg.unpack(&mut buff), Err(TpmError::Decode));
}

#[test]
fn session_tag_code_table_round_trip() {
    assert_eq!(packed(&TpmSt::NoSessions), vec![0x80, 0x01]);
    assert_eq!(packed(&TpmSt::RspCommand), vec![0x00, 0xC4]);
    let mut buff = WireBuffer::from_vec(vec![0x80, 0x02]);
    let mut tag = TpmSt::Null;
    tag.unpack(&mut buff).unwrap();
    assert_eq!(tag, TpmSt::Sessions);
}

#[test]
fn session_tag_unknown_code_is_decode_error() {
    let mut buff = WireBuffer::from_vec(vec![0x80, 0x03]);
    let mut tag = TpmSt::Null;
    assert_eq!(tag.unpack(&mut buff), Err(TpmError::Decode));
}

#[test]
fn sized_buffer_round_trip() {
    let digest = Tpm2bDigest { buffer: vec![0xAA, 0xBB, 0xCC] };
    let bytes = packed(&digest);
    assert_eq!(bytes, vec![0x00, 0x03, 0xAA, 0xBB, 0xCC]);
    let mut buff = WireBuffer::from_vec(bytes);
    let mut back = Tpm2bDigest::new();
    back.unpack(&mut buff).unwrap();
    assert_eq!(back.get_buffer(), &vec![0xAA, 0xBB, 0xCC]);
}

#[test]
fn sized_buffer_truncated_is_decode_error() {
    // The length field promises five bytes; only two remain.
    let mut buff = WireBuffer::from_vec(vec![0x00, 0x05, 0x01, 0x02]);
    let mut back = Tpm2bDigest::new();
    assert_eq!(back.unpack(&mut buff), Err(TpmError::Decode));
}

#[test]
fn pcr_selection_round_trip() {
    let sel = TpmsPcrSelection { hash: TpmAlgId::SHA1, pcr_select: vec![0xFF, 0x00, 0x00] };
    let bytes = packed(&sel);
    assert_eq!(bytes, vec![0x00, 0x04, 0x03, 0xFF, 0x00, 0x00]);
    let mut buff = WireBuffer::from_vec(bytes);
    let mut back = TpmsPcrSelection::new();
    back.unpack(&mut buff).unwrap();
    assert_eq!(back.hash, TpmAlgId::SHA1);
    assert_eq!(back.pcr_select, vec![0xFF, 0x00, 0x00]);
}

#[test]
fn selection_list_round_trip() {
    let list = TpmlPcrSelection {
        pcr_selections: vec![
            TpmsPcrSelection { hash: TpmAlgId::SHA256, pcr_select: vec![0x01, 0x02, 0x03] },
            TpmsPcrSelection { hash: TpmAlgId::SHA1, pcr_select: vec![0x0F, 0x00, 0x00] },
        ],
    };
    let bytes = packed(&list);
    assert_eq!(
        bytes,
        vec![
            0x00, 0x00, 0x00, 0x02, // count
            0x00, 0x0B, 0x03, 0x01, 0x02, 0x03, // SHA256 entry
            0x00, 0x04, 0x03, 0x0F, 0x00, 0x00, // SHA1 entry
        ]
    );
    let mut buff = WireBuffer::from_vec(bytes);
    let mut back = TpmlPcrSelection::new();
    back.unpack(&mut buff).unwrap();
    assert_eq!(back.pcr_selections.len(), 2);
    assert_eq!(back.pcr_selections[0].hash, TpmAlgId::SHA256);
    assert_eq!(back.pcr_selections[1].pcr_select, vec![0x0F, 0x00, 0x00]);
}

#[test]
fn digest_list_round_trip() {
    let list = TpmlDigest {
        digests: vec![
            Tpm2bDigest { buffer: vec![0x01] },
            Tpm2bDigest { buffer: vec![0x02, 0x03] },
        ],
    };
    let bytes = packed(&list);
    assert_eq!(
        bytes,
        vec![0x00, 0x00, 0x00, 0x02, 0x00, 0x01, 0x01, 0x00, 0x02, 0x02, 0x03]
    );
    let mut buff = WireBuffer::from_vec(bytes);
    let mut back = TpmlDigest::new();
    back.unpack(&mut buff).unwrap();
    assert_eq!(back.num_digests(), 2);
    assert_eq!(back.get_digest(0).unwrap().get_buffer(), &vec![0x01]);
    assert_eq!(back.get_digest(1).unwrap().get_buffer(), &vec![0x02, 0x03]);
    assert_eq!(back.get_digest(2).unwrap_err(), TpmError::StructuralFormat);
}

#[test]
fn digest_list_over_capacity_is_decode_error() {
    // A count of nine digests exceeds the eight one exchange can carry.
    let mut bytes = vec![0x00, 0x00, 0x00, 0x09];
    for _ in 0..9 {
        bytes.extend_from_slice(&[0x00, 0x01, 0xEE]);
    }
    let mut buff = WireBuffer::from_vec(bytes);
    let mut back = TpmlDigest::new();
    assert_eq!(back.unpack(&mut buff), Err(TpmError::Decode));
}

#[test]
fn command_header_packs_ten_bytes() {
    let header = CommandHeader::new(TpmSt::NoSessions, 20, 0x17E);
    let bytes = packed(&header);
    assert_eq!(
        bytes,
        vec![0x80, 0x01, 0x00, 0x00, 0x00, 0x14, 0x00, 0x00, 0x01, 0x7E]
    );
}

#[test]
fn response_header_unpacks() {
    let mut buff = WireBuffer::from_vec(vec![
        0x80, 0x01, 0x00, 0x00, 0x00, 0x0A, 0x00, 0x00, 0x01, 0x01,
    ]);
    let mut header = ResponseHeader::new();
    header.unpack(&mut buff).unwrap();
    assert_eq!(header.tag, TpmSt::NoSessions);
    assert_eq!(header.response_size, 10);
    assert_eq!(header.response_code, 0x101);
    assert_ne!(header.response_code, TPM_RC_SUCCESS);
}

#[test]
fn response_header_rejects_unknown_tag() {
    let mut buff = WireBuffer::from_vec(vec![
        0x12, 0x34, 0x00, 0x00, 0x00, 0x0A, 0x00, 0x00, 0x00, 0x00,
    ]);
    let mut header = ResponseHeader::new();
    assert_eq!(header.unpack(&mut buff), Err(TpmError::Decode));
}

#[test]
fn pack_row_appends_fields_in_order() {
    let mut buff = WireBuffer::new();
    let fields: Vec<u16> = vec![0x0102, 0x0304];
    pack(fields.as_slice(), &mut buff);
    assert_eq!(buff.to_vec(), vec![0x01, 0x02, 0x03, 0x04]);
}
