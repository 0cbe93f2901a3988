use vstd::prelude::*;

use crate::codec::{
    be_bytes, dec_be, lemma_be_bytes_len, pow256, push_be, read_be, round_trip_be, Tpm2RoundTrip,
    Tpm2StructIn, Tpm2StructOut,
};
use crate::errors::TpmError;
use crate::wire::{wire_data, wire_rest, wire_rpos, WireBuffer};

verus! {

/// TPM_ST: the closed enumeration of structure and session tags. An
/// unrecognized code on the wire is a decode error, never a default.
#[allow(non_camel_case_types)]
#[derive(Clone, Copy, Debug, PartialEq, Eq, Hash, Structural)]
pub enum TpmSt {
    RspCommand,
    Null,
    NoSessions,
    Sessions,
    AttestNv,
    AttestCommandAudit,
    AttestSessionAudit,
    AttestCertify,
    AttestQuote,
    AttestTime,
    AttestCreation,
    Attest_nvDigest,
    Creation,
    Verified,
    AuthSecret,
    HashCheck,
    AuthSigned,
    FuManifest,
}

impl DeepView for TpmSt {
    type V = TpmSt;

    open spec fn deep_view(&self) -> TpmSt {
        *self
    }
}

/// The wire code of each tag.
pub open spec fn st_code(t: TpmSt) -> u16 {
    match t {
        TpmSt::RspCommand => 0x00c4,
        TpmSt::Null => 0x8000,
        TpmSt::NoSessions => 0x8001,
        TpmSt::Sessions => 0x8002,
        TpmSt::AttestNv => 0x8014,
        TpmSt::AttestCommandAudit => 0x8015,
        TpmSt::AttestSessionAudit => 0x8016,
        TpmSt::AttestCertify => 0x8017,
        TpmSt::AttestQuote => 0x8018,
        TpmSt::AttestTime => 0x8019,
        TpmSt::AttestCreation => 0x801a,
        TpmSt::Attest_nvDigest => 0x801c,
        TpmSt::Creation => 0x8021,
        TpmSt::Verified => 0x8022,
        TpmSt::AuthSecret => 0x8023,
        TpmSt::HashCheck => 0x8024,
        TpmSt::AuthSigned => 0x8025,
        TpmSt::FuManifest => 0x8029,
    }
}

/// The inverse direction of the code table: `None` for any code no tag
/// carries.
pub open spec fn st_of_code(c: u16) -> Option<TpmSt> {
    if c == 0x00c4 {
        Some(TpmSt::RspCommand)
    } else if c == 0x8000 {
        Some(TpmSt::Null)
    } else if c == 0x8001 {
        Some(TpmSt::NoSessions)
    } else if c == 0x8002 {
        Some(TpmSt::Sessions)
    } else if c == 0x8014 {
        Some(TpmSt::AttestNv)
    } else if c == 0x8015 {
        Some(TpmSt::AttestCommandAudit)
    } else if c == 0x8016 {
        Some(TpmSt::AttestSessionAudit)
    } else if c == 0x8017 {
        Some(TpmSt::AttestCertify)
    } else if c == 0x8018 {
        Some(TpmSt::AttestQuote)
    } else if c == 0x8019 {
        Some(TpmSt::AttestTime)
    } else if c == 0x801a {
        Some(TpmSt::AttestCreation)
    } else if c == 0x801c {
        Some(TpmSt::Attest_nvDigest)
    } else if c == 0x8021 {
        Some(TpmSt::Creation)
    } else if c == 0x8022 {
        Some(TpmSt::Verified)
    } else if c == 0x8023 {
        Some(TpmSt::AuthSecret)
    } else if c == 0x8024 {
        Some(TpmSt::HashCheck)
    } else if c == 0x8025 {
        Some(TpmSt::AuthSigned)
    } else if c == 0x8029 {
        Some(TpmSt::FuManifest)
    } else {
        None
    }
}

/// The two directions of the code table agree.
pub proof fn lemma_st_table(t: TpmSt)
    ensures
        st_of_code(st_code(t)) == Some(t),
{
}

impl TpmSt {
    /// The wire code of this tag.
    pub fn to_code(&self) -> (r: u16)
        ensures
            r == st_code(*self),
    {
        match *self {
            TpmSt::RspCommand => 0x00c4,
            TpmSt::Null => 0x8000,
            TpmSt::NoSessions => 0x8001,
            TpmSt::Sessions => 0x8002,
            TpmSt::AttestNv => 0x8014,
            TpmSt::AttestCommandAudit => 0x8015,
            TpmSt::AttestSessionAudit => 0x8016,
            TpmSt::AttestCertify => 0x8017,
            TpmSt::AttestQuote => 0x8018,
            TpmSt::AttestTime => 0x8019,
            TpmSt::AttestCreation => 0x801a,
            TpmSt::Attest_nvDigest => 0x801c,
            TpmSt::Creation => 0x8021,
            TpmSt::Verified => 0x8022,
            TpmSt::AuthSecret => 0x8023,
            TpmSt::HashCheck => 0x8024,
            TpmSt::AuthSigned => 0x8025,
            TpmSt::FuManifest => 0x8029,
        }
    }

    /// Looks a wire code up in the table.
    pub fn from_code(c: u16) -> (r: Option<TpmSt>)
        ensures
            r == st_of_code(c),
    {
        match c {
            0x00c4 => Some(TpmSt::RspCommand),
            0x8000 => Some(TpmSt::Null),
            0x8001 => Some(TpmSt::NoSessions),
            0x8002 => Some(TpmSt::Sessions),
            0x8014 => Some(TpmSt::AttestNv),
            0x8015 => Some(TpmSt::AttestCommandAudit),
            0x8016 => Some(TpmSt::AttestSessionAudit),
            0x8017 => Some(TpmSt::AttestCertify),
            0x8018 => Some(TpmSt::AttestQuote),
            0x8019 => Some(TpmSt::AttestTime),
            0x801a => Some(TpmSt::AttestCreation),
            0x801c => Some(TpmSt::Attest_nvDigest),
            0x8021 => Some(TpmSt::Creation),
            0x8022 => Some(TpmSt::Verified),
            0x8023 => Some(TpmSt::AuthSecret),
            0x8024 => Some(TpmSt::HashCheck),
            0x8025 => Some(TpmSt::AuthSigned),
            0x8029 => Some(TpmSt::FuManifest),
            _ => None,
        }
    }
}

impl Tpm2StructOut for TpmSt {
    open spec fn wire(&self) -> Seq<u8> {
        be_bytes(st_code(*self) as int, 2)
    }

    open spec fn wf(&self) -> bool {
        true
    }

    fn pack(&self, buff: &mut WireBuffer) {
        push_be(buff, self.to_code() as u64, 2);
        proof {
            assert(wire_data(*buff) =~= wire_data(*old(buff)) + self.wire());
        }
    }
}

impl Tpm2StructIn for TpmSt {
    open spec fn dec(s: Seq<u8>) -> Option<(TpmSt, int)> {
        match dec_be(s, 2) {
            Some(vn) => match st_of_code(vn.0 as u16) {
                Some(t) => Some((t, vn.1)),
                None => None,
            },
            None => None,
        }
    }

    fn unpack(&mut self, buff: &mut WireBuffer) -> (r: Result<(), TpmError>) {
        let v = read_be(buff, 2)?;
        match TpmSt::from_code(v as u16) {
            Some(t) => {
                *self = t;
                Ok(())
            },
            None => Err(TpmError::Decode),
        }
    }
}

impl Tpm2RoundTrip for TpmSt {
    proof fn lemma_round_trip(v: Self, rest: Seq<u8>) {
        reveal_with_fuel(pow256, 3);
        round_trip_be(st_code(v) as int, 2, rest);
        lemma_be_bytes_len(st_code(v) as int, 2);
        lemma_st_table(v);
    }
}

} // verus!
