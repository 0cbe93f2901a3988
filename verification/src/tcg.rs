use vstd::prelude::*;

use crate::algid::{alg_code, TpmAlgId};
use crate::codec::{
    be_bytes, be_val, dec_be, dec_fits, dec_list, lemma_be_bytes_len, pow256, push_be, read_be,
    round_trip_be, round_trip_list, unpack_count, wire_concat, Tpm2RoundTrip, Tpm2StructIn,
    Tpm2StructOut,
};
use crate::errors::TpmError;
use crate::wire::{wire_data, wire_rest, wire_rpos, WireBuffer};

verus! {

/// An opaque 4-byte reference to a TPM-resident object or resource.
pub type Handle = u32;

/// The opcode of the TPM2_PCR_Read command.
pub const TPM_CC_PCR_READ: u32 = 0x17E;

/// TPM2B_DIGEST: the sized-buffer shape, a 2-byte length followed by
/// exactly that many raw bytes.
#[derive(Clone, Debug)]
pub struct Tpm2bDigest {
    pub buffer: Vec<u8>,
}

impl DeepView for Tpm2bDigest {
    type V = Seq<u8>;

    open spec fn deep_view(&self) -> Seq<u8> {
        self.buffer@
    }
}

impl Tpm2bDigest {
    /// An empty digest buffer.
    pub fn new() -> (r: Tpm2bDigest)
        ensures
            r.deep_view() == Seq::<u8>::empty(),
            r.wf(),
    {
        let r = Tpm2bDigest { buffer: Vec::new() };
        proof {
            assert(r.buffer@ =~= Seq::<u8>::empty());
        }
        r
    }

    /// The raw bytes this digest carries.
    pub fn get_buffer(&self) -> (r: &Vec<u8>)
        ensures
            r@ == self.deep_view(),
    {
        &self.buffer
    }
}

impl Tpm2StructOut for Tpm2bDigest {
    open spec fn wire(&self) -> Seq<u8> {
        be_bytes(self.buffer@.len() as int, 2) + self.buffer@
    }

    open spec fn wf(&self) -> bool {
        self.buffer@.len() <= 0xFFFF
    }

    fn pack(&self, buff: &mut WireBuffer) {
        push_be(buff, self.buffer.len() as u64, 2);
        buff.write(self.buffer.as_slice());
        proof {
            assert(wire_data(*old(buff)) + be_bytes(self.buffer@.len() as int, 2) + self.buffer@
                =~= wire_data(*old(buff)) + self.wire());
        }
    }
}

impl Tpm2StructIn for Tpm2bDigest {
    open spec fn dec(s: Seq<u8>) -> Option<(Seq<u8>, int)> {
        match dec_be(s, 2) {
            None => None,
            Some(vn) => if s.len() < 2 + vn.0 {
                None
            } else {
                Some((s.subrange(2, 2 + vn.0), 2 + vn.0))
            },
        }
    }

    fn unpack(&mut self, buff: &mut WireBuffer) -> (r: Result<(), TpmError>) {
        let ghost entry = wire_rest(*buff);
        let size = read_be(buff, 2)?;
        proof {
            reveal_with_fuel(pow256, 3);
            dec_fits(entry, 2);
        }
        let total = buff.len();
        let pos = buff.read_pos();
        if ((total - pos) as u64) < size {
            return Err(TpmError::Decode);
        }
        let bytes = buff.read(size as usize);
        proof {
            assert(bytes@ =~= entry.subrange(2, 2 + size as int));
        }
        self.buffer = bytes;
        Ok(())
    }
}

impl Tpm2RoundTrip for Tpm2bDigest {
    proof fn lemma_round_trip(v: Self, rest: Seq<u8>) {
        reveal_with_fuel(pow256, 3);
        let n: int = v.buffer@.len() as int;
        round_trip_be(n, 2, v.buffer@ + rest);
        lemma_be_bytes_len(n, 2);
        let s = v.wire() + rest;
        assert(s =~= be_bytes(n, 2) + (v.buffer@ + rest));
        assert(s.take(2) =~= (be_bytes(n, 2) + (v.buffer@ + rest)).take(2));
        assert(dec_be(s, 2) == Some((n, 2int)));
        assert(s.subrange(2, 2 + n) =~= v.buffer@);
    }
}

/// The mathematical shape of a `TpmsPcrSelection`: the hash algorithm and
/// the three bitmap bytes of its register selection.
pub struct PcrSelectionShape {
    pub hash: TpmAlgId,
    pub pcr_select: Seq<u8>,
}

/// TPMS_PCR_SELECTION: one hash algorithm with a fixed 3-byte bitmap over
/// the 24 addressable registers; bit `n` of byte `i` selects register
/// `8 * i + n`.
#[derive(Clone, Debug)]
pub struct TpmsPcrSelection {
    pub hash: TpmAlgId,
    pub pcr_select: Vec<u8>,
}

impl DeepView for TpmsPcrSelection {
    type V = PcrSelectionShape;

    open spec fn deep_view(&self) -> PcrSelectionShape {
        PcrSelectionShape { hash: self.hash, pcr_select: self.pcr_select@ }
    }
}

impl TpmsPcrSelection {
    /// A selection of no registers for the null algorithm.
    pub fn new() -> (r: TpmsPcrSelection)
        ensures
            r.wf(),
            r.deep_view().hash == TpmAlgId::Null,
            r.deep_view().pcr_select =~= seq![0u8, 0u8, 0u8],
    {
        let mut zeroes: Vec<u8> = Vec::new();
        zeroes.push(0);
        zeroes.push(0);
        zeroes.push(0);
        proof {
            assert(zeroes@ =~= seq![0u8, 0u8, 0u8]);
        }
        TpmsPcrSelection { hash: TpmAlgId::Null, pcr_select: zeroes }
    }
}

impl Tpm2StructOut for TpmsPcrSelection {
    open spec fn wire(&self) -> Seq<u8> {
        be_bytes(alg_code(self.hash) as int, 2) + seq![3u8] + self.pcr_select@
    }

    open spec fn wf(&self) -> bool {
        self.pcr_select@.len() == 3
    }

    fn pack(&self, buff: &mut WireBuffer) {
        self.hash.pack(buff);
        push_be(buff, 3, 1);
        buff.write(self.pcr_select.as_slice());
        proof {
            assert(be_bytes(0, 0) =~= Seq::<u8>::empty());
            assert(be_bytes(3, 1) =~= seq![3u8]);
            assert(wire_data(*old(buff)) + be_bytes(alg_code(self.hash) as int, 2) + seq![3u8]
                + self.pcr_select@ =~= wire_data(*old(buff)) + self.wire());
        }
    }
}

impl Tpm2StructIn for TpmsPcrSelection {
    open spec fn dec(s: Seq<u8>) -> Option<(PcrSelectionShape, int)> {
        match TpmAlgId::dec(s) {
            None => None,
            Some(an) => if s.len() < 6 || s[2] != 3 {
                None
            } else {
                Some((PcrSelectionShape { hash: an.0, pcr_select: s.subrange(3, 6) }, 6))
            },
        }
    }

    fn unpack(&mut self, buff: &mut WireBuffer) -> (r: Result<(), TpmError>) {
        let ghost entry = wire_rest(*buff);
        let mut hash = TpmAlgId::Error;
        hash.unpack(buff)?;
        let ghost after_hash = wire_rest(*buff);
        let size_of_select = read_be(buff, 1)?;
        proof {
            assert(after_hash =~= entry.skip(2));
            assert(after_hash.take(1).drop_last() =~= Seq::<u8>::empty());
            assert(be_val(Seq::<u8>::empty()) == 0);
            assert(be_val(after_hash.take(1)) == after_hash[0]);
            assert(after_hash[0] == entry[2]);
        }
        if size_of_select != 3 {
            return Err(TpmError::Decode);
        }
        let total = buff.len();
        let pos = buff.read_pos();
        if total - pos < 3 {
            return Err(TpmError::Decode);
        }
        let bytes = buff.read(3);
        proof {
            assert(bytes@ =~= entry.subrange(3, 6));
        }
        self.hash = hash;
        self.pcr_select = bytes;
        Ok(())
    }
}

impl Tpm2RoundTrip for TpmsPcrSelection {
    proof fn lemma_round_trip(v: Self, rest: Seq<u8>) {
        let s = v.wire() + rest;
        let tail = seq![3u8] + v.pcr_select@ + rest;
        lemma_be_bytes_len(alg_code(v.hash) as int, 2);
        assert(s =~= be_bytes(alg_code(v.hash) as int, 2) + tail);
        TpmAlgId::lemma_round_trip(v.hash, tail);
        assert(s.len() == 6 + rest.len());
        assert(s[2] == 3);
        assert(s.subrange(3, 6) =~= v.pcr_select@);
    }
}

/// TPML_PCR_SELECTION: the counted-list shape over `TpmsPcrSelection`, a
/// 4-byte count followed by that many selections.
#[derive(Clone, Debug)]
pub struct TpmlPcrSelection {
    pub pcr_selections: Vec<TpmsPcrSelection>,
}

impl DeepView for TpmlPcrSelection {
    type V = Seq<PcrSelectionShape>;

    open spec fn deep_view(&self) -> Seq<PcrSelectionShape> {
        self.pcr_selections.deep_view()
    }
}

impl TpmlPcrSelection {
    /// A list of no selections.
    pub fn new() -> (r: TpmlPcrSelection)
        ensures
            r.deep_view() =~= Seq::<PcrSelectionShape>::empty(),
            r.wf(),
    {
        TpmlPcrSelection { pcr_selections: Vec::new() }
    }
}

impl Tpm2StructOut for TpmlPcrSelection {
    open spec fn wire(&self) -> Seq<u8> {
        be_bytes(self.pcr_selections@.len() as int, 4) + wire_concat(self.pcr_selections@)
    }

    open spec fn wf(&self) -> bool {
        self.pcr_selections@.len() <= 0xFFFF_FFFF && forall|i: int|
            0 <= i < self.pcr_selections@.len() ==> #[trigger] self.pcr_selections@[i].wf()
    }

    fn pack(&self, buff: &mut WireBuffer) {
        push_be(buff, self.pcr_selections.len() as u64, 4);
        crate::codec::pack(self.pcr_selections.as_slice(), buff);
        proof {
            assert(wire_data(*old(buff)) + be_bytes(self.pcr_selections@.len() as int, 4)
                + wire_concat(self.pcr_selections@) =~= wire_data(*old(buff)) + self.wire());
        }
    }
}

impl Tpm2StructIn for TpmlPcrSelection {
    open spec fn dec(s: Seq<u8>) -> Option<(Seq<PcrSelectionShape>, int)> {
        match dec_be(s, 4) {
            None => None,
            Some(vn) => match dec_list::<TpmsPcrSelection>(s.skip(4), vn.0 as nat) {
                None => None,
                Some(ln) => Some((ln.0, 4 + ln.1)),
            },
        }
    }

    fn unpack(&mut self, buff: &mut WireBuffer) -> (r: Result<(), TpmError>) {
        let ghost entry = wire_rest(*buff);
        let count = read_be(buff, 4)?;
        proof {
            reveal_with_fuel(pow256, 5);
            dec_fits(entry, 4);
            assert(wire_rest(*buff) =~= entry.skip(4));
        }
        let template = TpmsPcrSelection::new();
        let elems = unpack_count::<TpmsPcrSelection>(&template, count as usize, buff)?;
        self.pcr_selections = elems;
        Ok(())
    }
}

impl Tpm2RoundTrip for TpmlPcrSelection {
    proof fn lemma_round_trip(v: Self, rest: Seq<u8>) {
        reveal_with_fuel(pow256, 5);
        let elems = v.pcr_selections@;
        let n: int = elems.len() as int;
        round_trip_be(n, 4, wire_concat(elems) + rest);
        lemma_be_bytes_len(n, 4);
        let s = v.wire() + rest;
        assert(s =~= be_bytes(n, 4) + (wire_concat(elems) + rest));
        assert(s.take(4) =~= (be_bytes(n, 4) + (wire_concat(elems) + rest)).take(4));
        round_trip_list(elems, rest);
        assert(s.skip(4) =~= wire_concat(elems) + rest);
        assert(Seq::new(elems.len() as nat, |i: int| elems[i].deep_view())
            =~= v.deep_view());
    }
}

/// TPML_DIGEST: the counted-list shape over `Tpm2bDigest`. A single
/// response can carry at most 8 digests; a larger count is outside the
/// protocol and fails to decode.
#[derive(Clone, Debug)]
pub struct TpmlDigest {
    pub digests: Vec<Tpm2bDigest>,
}

impl DeepView for TpmlDigest {
    type V = Seq<Seq<u8>>;

    open spec fn deep_view(&self) -> Seq<Seq<u8>> {
        self.digests.deep_view()
    }
}

impl TpmlDigest {
    /// A list of no digests.
    pub fn new() -> (r: TpmlDigest)
        ensures
            r.deep_view() =~= Seq::<Seq<u8>>::empty(),
            r.wf(),
    {
        TpmlDigest { digests: Vec::new() }
    }

    /// How many digests the response carried.
    pub fn num_digests(&self) -> (r: u32)
        requires
            self.digests@.len() <= 0xFFFF_FFFF,
        ensures
            r == self.digests@.len(),
    {
        self.digests.len() as u32
    }

    /// The digest at `n`, or a structural-format error where the response
    /// carried no digest there.
    pub fn get_digest(&self, n: u32) -> (r: Result<&Tpm2bDigest, TpmError>)
        ensures
            match r {
                Ok(d) => n < self.digests@.len() && d.deep_view() == self.deep_view()[n as int],
                Err(e) => e == TpmError::StructuralFormat && n >= self.digests@.len(),
            },
    {
        if (n as usize) < self.digests.len() {
            Ok(&self.digests[n as usize])
        } else {
            Err(TpmError::StructuralFormat)
        }
    }
}

impl Tpm2StructOut for TpmlDigest {
    open spec fn wire(&self) -> Seq<u8> {
        be_bytes(self.digests@.len() as int, 4) + wire_concat(self.digests@)
    }

    open spec fn wf(&self) -> bool {
        self.digests@.len() <= 8 && forall|i: int|
            0 <= i < self.digests@.len() ==> #[trigger] self.digests@[i].wf()
    }

    fn pack(&self, buff: &mut WireBuffer) {
        push_be(buff, self.digests.len() as u64, 4);
        crate::codec::pack(self.digests.as_slice(), buff);
        proof {
            assert(wire_data(*old(buff)) + be_bytes(self.digests@.len() as int, 4)
                + wire_concat(self.digests@) =~= wire_data(*old(buff)) + self.wire());
        }
    }
}

impl Tpm2StructIn for TpmlDigest {
    open spec fn dec(s: Seq<u8>) -> Option<(Seq<Seq<u8>>, int)> {
        match dec_be(s, 4) {
            None => None,
            Some(vn) => if vn.0 > 8 {
                None
            } else {
                match dec_list::<Tpm2bDigest>(s.skip(4), vn.0 as nat) {
                    None => None,
                    Some(ln) => Some((ln.0, 4 + ln.1)),
                }
            },
        }
    }

    fn unpack(&mut self, buff: &mut WireBuffer) -> (r: Result<(), TpmError>) {
        let ghost entry = wire_rest(*buff);
        let count = read_be(buff, 4)?;
        if count > 8 {
            return Err(TpmError::Decode);
        }
        proof {
            reveal_with_fuel(pow256, 5);
            dec_fits(entry, 4);
            assert(wire_rest(*buff) =~= entry.skip(4));
        }
        let template = Tpm2bDigest::new();
        let elems = unpack_count::<Tpm2bDigest>(&template, count as usize, buff)?;
        self.digests = elems;
        Ok(())
    }
}

impl Tpm2RoundTrip for TpmlDigest {
    proof fn lemma_round_trip(v: Self, rest: Seq<u8>) {
        reveal_with_fuel(pow256, 5);
        let elems = v.digests@;
        let n: int = elems.len() as int;
        round_trip_be(n, 4, wire_concat(elems) + rest);
        lemma_be_bytes_len(n, 4);
        let s = v.wire() + rest;
        assert(s =~= be_bytes(n, 4) + (wire_concat(elems) + rest));
        assert(s.take(4) =~= (be_bytes(n, 4) + (wire_concat(elems) + rest)).take(4));
        round_trip_list(elems, rest);
        assert(s.skip(4) =~= wire_concat(elems) + rest);
        assert(Seq::new(elems.len() as nat, |i: int| elems[i].deep_view())
            =~= v.deep_view());
    }
}

/// TPMS_AUTH_COMMAND: a per-command session and authorization descriptor,
/// serialized after the handles.
#[derive(Clone, Debug)]
pub struct TpmsAuthCommand {
    pub session_handle: Handle,
    pub nonce: Tpm2bDigest,
    pub session_attributes: u8,
    pub hmac: Tpm2bDigest,
}

impl Tpm2StructOut for TpmsAuthCommand {
    open spec fn wire(&self) -> Seq<u8> {
        be_bytes(self.session_handle as int, 4) + self.nonce.wire()
            + be_bytes(self.session_attributes as int, 1) + self.hmac.wire()
    }

    open spec fn wf(&self) -> bool {
        self.nonce.wf() && self.hmac.wf()
    }

    fn pack(&self, buff: &mut WireBuffer) {
        push_be(buff, self.session_handle as u64, 4);
        self.nonce.pack(buff);
        push_be(buff, self.session_attributes as u64, 1);
        self.hmac.pack(buff);
        proof {
            assert(wire_data(*old(buff)) + be_bytes(self.session_handle as int, 4)
                + self.nonce.wire() + be_bytes(self.session_attributes as int, 1)
                + self.hmac.wire() =~= wire_data(*old(buff)) + self.wire());
        }
    }
}

} // verus!
