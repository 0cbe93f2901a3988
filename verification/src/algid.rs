use vstd::prelude::*;

use crate::codec::{
    be_bytes, dec_be, pow256, read_be, push_be, Tpm2RoundTrip, Tpm2StructIn, Tpm2StructOut,
};
use crate::codec::{lemma_be_bytes_len, round_trip_be};
use crate::errors::TpmError;
use crate::wire::{wire_data, wire_rest, wire_rpos, WireBuffer};

verus! {

/// TPM_ALG_ID: the closed enumeration of algorithm identifiers. An
/// unrecognized code on the wire is a decode error, never a default.
#[allow(non_camel_case_types)]
#[derive(Clone, Copy, Debug, PartialEq, Eq, Hash, Structural)]
pub enum TpmAlgId {
    Error,
    RSA,
    TDES,
    SHA1,
    HMAC,
    AES,
    MGF1,
    KeyedHash,
    XOR,
    SHA256,
    SHA384,
    SHA512,
    Null,
    SM3_256,
    SM4,
    RSASSA,
    RSAES,
    RSAPSS,
    OAEP,
    ECDH,
    ECDAA,
    SM2,
    ECSCHNORR,
    ECMQV,
    KDF1_SP800_56A,
    KDF2,
    KDF1_SP800_108,
    ECC,
    SymCipher,
    Camellia,
    SHA3_256,
    SHA3_384,
    SHA3_512,
    CTR,
    OFB,
    CBC,
    CFB,
    ECB,
}

impl DeepView for TpmAlgId {
    type V = TpmAlgId;

    open spec fn deep_view(&self) -> TpmAlgId {
        *self
    }
}

/// The wire code of each algorithm identifier.
pub open spec fn alg_code(a: TpmAlgId) -> u16 {
    match a {
        TpmAlgId::Error => 0x0000,
        TpmAlgId::RSA => 0x0001,
        TpmAlgId::TDES => 0x0003,
        TpmAlgId::SHA1 => 0x0004,
        TpmAlgId::HMAC => 0x0005,
        TpmAlgId::AES => 0x0006,
        TpmAlgId::MGF1 => 0x0007,
        TpmAlgId::KeyedHash => 0x0008,
        TpmAlgId::XOR => 0x000A,
        TpmAlgId::SHA256 => 0x000B,
        TpmAlgId::SHA384 => 0x000C,
        TpmAlgId::SHA512 => 0x000D,
        TpmAlgId::Null => 0x0010,
        TpmAlgId::SM3_256 => 0x0012,
        TpmAlgId::SM4 => 0x0013,
        TpmAlgId::RSASSA => 0x0014,
        TpmAlgId::RSAES => 0x0015,
        TpmAlgId::RSAPSS => 0x0016,
        TpmAlgId::OAEP => 0x0017,
        TpmAlgId::ECDH => 0x0019,
        TpmAlgId::ECDAA => 0x001A,
        TpmAlgId::SM2 => 0x001B,
        TpmAlgId::ECSCHNORR => 0x001C,
        TpmAlgId::ECMQV => 0x001D,
        TpmAlgId::KDF1_SP800_56A => 0x0020,
        TpmAlgId::KDF2 => 0x0021,
        TpmAlgId::KDF1_SP800_108 => 0x0022,
        TpmAlgId::ECC => 0x0023,
        TpmAlgId::SymCipher => 0x0025,
        TpmAlgId::Camellia => 0x0026,
        TpmAlgId::SHA3_256 => 0x0027,
        TpmAlgId::SHA3_384 => 0x0028,
        TpmAlgId::SHA3_512 => 0x0029,
        TpmAlgId::CTR => 0x0040,
        TpmAlgId::OFB => 0x0041,
        TpmAlgId::CBC => 0x0042,
        TpmAlgId::CFB => 0x0043,
        TpmAlgId::ECB => 0x0044,
    }
}

/// The inverse direction of the code table: `None` for any code no
/// algorithm identifier carries.
pub open spec fn alg_of_code(c: u16) -> Option<TpmAlgId> {
    if c == 0x0000 {
        Some(TpmAlgId::Error)
    } else if c == 0x0001 {
        Some(TpmAlgId::RSA)
    } else if c == 0x0003 {
        Some(TpmAlgId::TDES)
    } else if c == 0x0004 {
        Some(TpmAlgId::SHA1)
    } else if c == 0x0005 {
        Some(TpmAlgId::HMAC)
    } else if c == 0x0006 {
        Some(TpmAlgId::AES)
    } else if c == 0x0007 {
        Some(TpmAlgId::MGF1)
    } else if c == 0x0008 {
        Some(TpmAlgId::KeyedHash)
    } else if c == 0x000A {
        Some(TpmAlgId::XOR)
    } else if c == 0x000B {
        Some(TpmAlgId::SHA256)
    } else if c == 0x000C {
        Some(TpmAlgId::SHA384)
    } else if c == 0x000D {
        Some(TpmAlgId::SHA512)
    } else if c == 0x0010 {
        Some(TpmAlgId::Null)
    } else if c == 0x0012 {
        Some(TpmAlgId::SM3_256)
    } else if c == 0x0013 {
        Some(TpmAlgId::SM4)
    } else if c == 0x0014 {
        Some(TpmAlgId::RSASSA)
    } else if c == 0x0015 {
        Some(TpmAlgId::RSAES)
    } else if c == 0x0016 {
        Some(TpmAlgId::RSAPSS)
    } else if c == 0x0017 {
        Some(TpmAlgId::OAEP)
    } else if c == 0x0019 {
        Some(TpmAlgId::ECDH)
    } else if c == 0x001A {
        Some(TpmAlgId::ECDAA)
    } else if c == 0x001B {
        Some(TpmAlgId::SM2)
    } else if c == 0x001C {
        Some(TpmAlgId::ECSCHNORR)
    } else if c == 0x001D {
        Some(TpmAlgId::ECMQV)
    } else if c == 0x0020 {
        Some(TpmAlgId::KDF1_SP800_56A)
    } else if c == 0x0021 {
        Some(TpmAlgId::KDF2)
    } else if c == 0x0022 {
        Some(TpmAlgId::KDF1_SP800_108)
    } else if c == 0x0023 {
        Some(TpmAlgId::ECC)
    } else if c == 0x0025 {
        Some(TpmAlgId::SymCipher)
    } else if c == 0x0026 {
        Some(TpmAlgId::Camellia)
    } else if c == 0x0027 {
        Some(TpmAlgId::SHA3_256)
    } else if c == 0x0028 {
        Some(TpmAlgId::SHA3_384)
    } else if c == 0x0029 {
        Some(TpmAlgId::SHA3_512)
    } else if c == 0x0040 {
        Some(TpmAlgId::CTR)
    } else if c == 0x0041 {
        Some(TpmAlgId::OFB)
    } else if c == 0x0042 {
        Some(TpmAlgId::CBC)
    } else if c == 0x0043 {
        Some(TpmAlgId::CFB)
    } else if c == 0x0044 {
        Some(TpmAlgId::ECB)
    } else {
        None
    }
}

/// The two directions of the code table agree.
pub proof fn lemma_alg_table(a: TpmAlgId)
    ensures
        alg_of_code(alg_code(a)) == Some(a),
{
}

impl TpmAlgId {
    /// The wire code of this identifier.
    pub fn to_code(&self) -> (r: u16)
        ensures
            r == alg_code(*self),
    {
        match *self {
            TpmAlgId::Error => 0x0000,
            TpmAlgId::RSA => 0x0001,
            TpmAlgId::TDES => 0x0003,
            TpmAlgId::SHA1 => 0x0004,
            TpmAlgId::HMAC => 0x0005,
            TpmAlgId::AES => 0x0006,
            TpmAlgId::MGF1 => 0x0007,
            TpmAlgId::KeyedHash => 0x0008,
            TpmAlgId::XOR => 0x000A,
            TpmAlgId::SHA256 => 0x000B,
            TpmAlgId::SHA384 => 0x000C,
            TpmAlgId::SHA512 => 0x000D,
            TpmAlgId::Null => 0x0010,
            TpmAlgId::SM3_256 => 0x0012,
            TpmAlgId::SM4 => 0x0013,
            TpmAlgId::RSASSA => 0x0014,
            TpmAlgId::RSAES => 0x0015,
            TpmAlgId::RSAPSS => 0x0016,
            TpmAlgId::OAEP => 0x0017,
            TpmAlgId::ECDH => 0x0019,
            TpmAlgId::ECDAA => 0x001A,
            TpmAlgId::SM2 => 0x001B,
            TpmAlgId::ECSCHNORR => 0x001C,
            TpmAlgId::ECMQV => 0x001D,
            TpmAlgId::KDF1_SP800_56A => 0x0020,
            TpmAlgId::KDF2 => 0x0021,
            TpmAlgId::KDF1_SP800_108 => 0x0022,
            TpmAlgId::ECC => 0x0023,
            TpmAlgId::SymCipher => 0x0025,
            TpmAlgId::Camellia => 0x0026,
            TpmAlgId::SHA3_256 => 0x0027,
            TpmAlgId::SHA3_384 => 0x0028,
            TpmAlgId::SHA3_512 => 0x0029,
            TpmAlgId::CTR => 0x0040,
            TpmAlgId::OFB => 0x0041,
            TpmAlgId::CBC => 0x0042,
            TpmAlgId::CFB => 0x0043,
            TpmAlgId::ECB => 0x0044,
        }
    }

    /// Looks a wire code up in the table.
    pub fn from_code(c: u16) -> (r: Option<TpmAlgId>)
        ensures
            r == alg_of_code(c),
    {
        match c {
            0x0000 => Some(TpmAlgId::Error),
            0x0001 => Some(TpmAlgId::RSA),
            0x0003 => Some(TpmAlgId::TDES),
            0x0004 => Some(TpmAlgId::SHA1),
            0x0005 => Some(TpmAlgId::HMAC),
            0x0006 => Some(TpmAlgId::AES),
            0x0007 => Some(TpmAlgId::MGF1),
            0x0008 => Some(TpmAlgId::KeyedHash),
            0x000A => Some(TpmAlgId::XOR),
            0x000B => Some(TpmAlgId::SHA256),
            0x000C => Some(TpmAlgId::SHA384),
            0x000D => Some(TpmAlgId::SHA512),
            0x0010 => Some(TpmAlgId::Null),
            0x0012 => Some(TpmAlgId::SM3_256),
            0x0013 => Some(TpmAlgId::SM4),
            0x0014 => Some(TpmAlgId::RSASSA),
            0x0015 => Some(TpmAlgId::RSAES),
            0x0016 => Some(TpmAlgId::RSAPSS),
            0x0017 => Some(TpmAlgId::OAEP),
            0x0019 => Some(TpmAlgId::ECDH),
            0x001A => Some(TpmAlgId::ECDAA),
            0x001B => Some(TpmAlgId::SM2),
            0x001C => Some(TpmAlgId::ECSCHNORR),
            0x001D => Some(TpmAlgId::ECMQV),
            0x0020 => Some(TpmAlgId::KDF1_SP800_56A),
            0x0021 => Some(TpmAlgId::KDF2),
            0x0022 => Some(TpmAlgId::KDF1_SP800_108),
            0x0023 => Some(TpmAlgId::ECC),
            0x0025 => Some(TpmAlgId::SymCipher),
            0x0026 => Some(TpmAlgId::Camellia),
            0x0027 => Some(TpmAlgId::SHA3_256),
            0x0028 => Some(TpmAlgId::SHA3_384),
            0x0029 => Some(TpmAlgId::SHA3_512),
            0x0040 => Some(TpmAlgId::CTR),
            0x0041 => Some(TpmAlgId::OFB),
            0x0042 => Some(TpmAlgId::CBC),
            0x0043 => Some(TpmAlgId::CFB),
            0x0044 => Some(TpmAlgId::ECB),
            _ => None,
        }
    }
}

impl Tpm2StructOut for TpmAlgId {
    open spec fn wire(&self) -> Seq<u8> {
        be_bytes(alg_code(*self) as int, 2)
    }

    open spec fn wf(&self) -> bool {
        true
    }

    fn pack(&self, buff: &mut WireBuffer) {
        push_be(buff, self.to_code() as u64, 2);
    }
}

impl Tpm2StructIn for TpmAlgId {
    open spec fn dec(s: Seq<u8>) -> Option<(TpmAlgId, int)> {
        match dec_be(s, 2) {
            Some(vn) => match alg_of_code(vn.0 as u16) {
                Some(a) => Some((a, vn.1)),
                None => None,
            },
            None => None,
        }
    }

    fn unpack(&mut self, buff: &mut WireBuffer) -> (r: Result<(), TpmError>) {
        let v = read_be(buff, 2)?;
        match TpmAlgId::from_code(v as u16) {
            Some(a) => {
                *self = a;
                Ok(())
            },
            None => Err(TpmError::Decode),
        }
    }
}

impl Tpm2RoundTrip for TpmAlgId {
    proof fn lemma_round_trip(v: Self, rest: Seq<u8>) {
        reveal_with_fuel(pow256, 3);
        round_trip_be(alg_code(v) as int, 2, rest);
        lemma_be_bytes_len(alg_code(v) as int, 2);
        lemma_alg_table(v);
    }
}

} // verus!
