use vstd::prelude::*;

use crate::algid::TpmAlgId;
use crate::codec::{lemma_be_bytes_len, wire_concat, Tpm2StructIn, Tpm2StructOut};
use crate::commands::CommandHeader;
use crate::errors::TpmError;
use crate::pcrs::{
    bit_selected, chunk_bitmaps, chunk_count, chunk_ok, selected_regs, selected_upto,
    PlatformConfigurationRegisters, PCRSelection, MAX_PCR,
};
use crate::run::{body_wire, run_command, Transport};
use crate::st::TpmSt;
use crate::tcg::{
    Handle, PcrSelectionShape, TpmlDigest, TpmlPcrSelection, TpmsAuthCommand, TpmsPcrSelection,
    TPM_CC_PCR_READ,
};
use crate::wire::{wire_data, wire_rest, wire_rpos, WireBuffer};

verus! {

/// When a PCR-read command can be built: its selection is within the wire
/// shape's bounds, and the whole message fits the 4-byte size field.
pub open spec fn pcr_read_cmd_ok(sel: TpmlPcrSelection) -> bool {
    sel.wf() && 10 + sel.wire().len() <= u32::MAX
}

/// The TPM2_PCR_Read command: a header and the selection of registers to
/// read, serialized as one message.
#[derive(Clone, Debug)]
pub struct PcrReadCommand {
    pub header: CommandHeader,
    pub pcr_selection_in: TpmlPcrSelection,
}

impl PcrReadCommand {
    /// Builds a PCR-read command around the given selection, its size
    /// field set to the exact serialized length of header plus selection.
    /// A selection that does not fit the wire shape is an input-parameter
    /// error, found before anything is sent.
    pub fn new(tag: TpmSt, pcr_selection: TpmlPcrSelection) -> (r: Result<
        PcrReadCommand,
        TpmError,
    >)
        ensures
            match r {
                Ok(c) => pcr_read_cmd_ok(pcr_selection) && c.wf() && c == (PcrReadCommand {
                    header: CommandHeader {
                        tag,
                        command_size: (10 + pcr_selection.wire().len()) as u32,
                        command_code: TPM_CC_PCR_READ,
                    },
                    pcr_selection_in: pcr_selection,
                }) && c.header.command_size as int == c.wire().len(),
                Err(e) => e == TpmError::InputParameter && !pcr_read_cmd_ok(pcr_selection),
            },
    {
        let mut i: usize = 0;
        while i < pcr_selection.pcr_selections.len()
            invariant
                i <= pcr_selection.pcr_selections@.len(),
                forall|t: int|
                    0 <= t < i ==> (#[trigger] pcr_selection.pcr_selections@[t]).pcr_select@.len()
                        == 3,
            decreases pcr_selection.pcr_selections@.len() - i,
        {
            if pcr_selection.pcr_selections[i].pcr_select.len() != 3 {
                proof {
                    assert(!pcr_selection.pcr_selections@[i as int].wf());
                }
                return Err(TpmError::InputParameter);
            }
            i = i + 1;
        }
        if pcr_selection.pcr_selections.len() as u64 > u32::MAX as u64 {
            return Err(TpmError::InputParameter);
        }
        let mut probe = WireBuffer::new();
        pcr_selection.pack(&mut probe);
        let sel_len = probe.len();
        if sel_len as u64 > u32::MAX as u64 - 10 {
            return Err(TpmError::InputParameter);
        }
        let size = (sel_len as u32) + 10;
        let header = CommandHeader::new(tag, size, TPM_CC_PCR_READ);
        proof {
            assert(Seq::<u8>::empty() + pcr_selection.wire() =~= pcr_selection.wire());
            lemma_be_bytes_len(crate::st::st_code(tag) as int, 2);
            lemma_be_bytes_len(size as int, 4);
            lemma_be_bytes_len(TPM_CC_PCR_READ as int, 4);
        }
        Ok(PcrReadCommand { header, pcr_selection_in: pcr_selection })
    }
}

impl Tpm2StructOut for PcrReadCommand {
    open spec fn wire(&self) -> Seq<u8> {
        self.header.wire() + self.pcr_selection_in.wire()
    }

    open spec fn wf(&self) -> bool {
        self.pcr_selection_in.wf()
    }

    fn pack(&self, buff: &mut WireBuffer) {
        self.header.pack(buff);
        self.pcr_selection_in.pack(buff);
        proof {
            assert(wire_data(*old(buff)) + self.header.wire() + self.pcr_selection_in.wire()
                =~= wire_data(*old(buff)) + self.wire());
        }
    }
}

/// The mathematical shape of a PCR-read response: the update counter, the
/// selection the device echoed, and the digests it returned.
pub struct PcrReadResponseShape {
    pub pcr_update_counter: u32,
    pub pcr_selection_in: Seq<PcrSelectionShape>,
    pub pcr_values: Seq<Seq<u8>>,
}

/// The payload of a TPM2_PCR_Read response: an update counter, the
/// selection being reported, and the digests, in the selection's bit
/// order.
#[derive(Clone, Debug)]
pub struct PcrReadResponse {
    pub pcr_update_counter: u32,
    pub pcr_selection_in: TpmlPcrSelection,
    pub pcr_values: TpmlDigest,
}

impl DeepView for PcrReadResponse {
    type V = PcrReadResponseShape;

    open spec fn deep_view(&self) -> PcrReadResponseShape {
        PcrReadResponseShape {
            pcr_update_counter: self.pcr_update_counter,
            pcr_selection_in: self.pcr_selection_in.deep_view(),
            pcr_values: self.pcr_values.deep_view(),
        }
    }
}

impl Tpm2StructIn for PcrReadResponse {
    open spec fn dec(s: Seq<u8>) -> Option<(PcrReadResponseShape, int)> {
        match u32::dec(s) {
            None => None,
            Some(cn) => match TpmlPcrSelection::dec(s.skip(4)) {
                None => None,
                Some(sn) => match TpmlDigest::dec(s.skip(4 + sn.1)) {
                    None => None,
                    Some(dn) => Some(
                        (
                            PcrReadResponseShape {
                                pcr_update_counter: cn.0,
                                pcr_selection_in: sn.0,
                                pcr_values: dn.0,
                            },
                            4 + sn.1 + dn.1,
                        ),
                    ),
                },
            },
        }
    }

    fn unpack(&mut self, buff: &mut WireBuffer) -> (r: Result<(), TpmError>) {
        let ghost entry = wire_rest(*buff);
        let mut counter: u32 = 0;
        counter.unpack(buff)?;
        proof {
            assert(wire_rest(*buff) =~= entry.skip(4));
        }
        let ghost r1 = wire_rest(*buff);
        let mut sels = TpmlPcrSelection::new();
        sels.unpack(buff)?;
        proof {
            let sn = TpmlPcrSelection::dec(r1)->Some_0;
            assert(wire_rest(*buff) =~= entry.skip(4 + sn.1));
        }
        let mut digs = TpmlDigest::new();
        digs.unpack(buff)?;
        self.pcr_update_counter = counter;
        self.pcr_selection_in = sels;
        self.pcr_values = digs;
        Ok(())
    }
}

/// The mapping one selection entry contributes, walked up to bit position
/// `p`: every selected register, keyed by algorithm and index, to the
/// digest at its rank among the selected.
pub open spec fn entry_map(
    hash: TpmAlgId,
    bm: Seq<u8>,
    digs: Seq<Seq<u8>>,
    p: nat,
) -> Map<(TpmAlgId, u32), Seq<u8>>
    decreases p,
{
    if p == 0 {
        Map::empty()
    } else {
        let m = entry_map(hash, bm, digs, (p - 1) as nat);
        if bit_selected(bm, p - 1) {
            m.insert((hash, (p - 1) as u32), digs[selected_upto(bm, (p - 1) as nat).len() as int])
        } else {
            m
        }
    }
}

/// The mapping a whole response stands for: selection entries in order,
/// digests consumed across entries in bit order, on top of `acc`; `None`
/// when an entry selects more registers than digests remain.
pub open spec fn response_map(
    acc: Map<(TpmAlgId, u32), Seq<u8>>,
    entries: Seq<PcrSelectionShape>,
    digs: Seq<Seq<u8>>,
) -> Option<Map<(TpmAlgId, u32), Seq<u8>>>
    decreases entries.len(),
{
    if entries.len() == 0 {
        Some(acc)
    } else {
        let e = entries[0];
        let need = selected_regs(e.pcr_select).len();
        if digs.len() < need {
            None
        } else {
            response_map(
                acc.union_prefer_right(entry_map(e.hash, e.pcr_select, digs, 24)),
                entries.skip(1),
                digs.skip(need as int),
            )
        }
    }
}

/// Walking more bit positions never selects fewer registers.
pub proof fn lemma_selected_upto_mono(bm: Seq<u8>, p: nat, q: nat)
    requires
        p <= q,
    ensures
        selected_upto(bm, p).len() <= selected_upto(bm, q).len(),
    decreases q,
{
    if p < q {
        lemma_selected_upto_mono(bm, p, (q - 1) as nat);
    }
}

/// The keys an entry's mapping holds: exactly the selected registers
/// below `p`, under the entry's algorithm.
pub proof fn lemma_entry_map_dom(
    hash: TpmAlgId,
    bm: Seq<u8>,
    digs: Seq<Seq<u8>>,
    p: nat,
    k: (TpmAlgId, u32),
)
    ensures
        entry_map(hash, bm, digs, p).contains_key(k) <==> (k.0 == hash && k.1 < p && bit_selected(
            bm,
            k.1 as int,
        )),
    decreases p,
{
    if p > 0 {
        lemma_entry_map_dom(hash, bm, digs, (p - 1) as nat, k);
    }
}

impl PcrReadResponse {
    /// Decodes a whole PCR-read response payload from a buffer.
    pub fn new(buff: &mut WireBuffer) -> (r: Result<PcrReadResponse, TpmError>)
        requires
            0 <= wire_rpos(*old(buff)) <= wire_data(*old(buff)).len(),
        ensures
            wire_data(*final(buff)) == wire_data(*old(buff)),
            wire_rpos(*old(buff)) <= wire_rpos(*final(buff)) <= wire_data(*old(buff)).len(),
            match PcrReadResponse::dec(wire_rest(*old(buff))) {
                Some(vn) => r is Ok && r->Ok_0.deep_view() == vn.0,
                None => r == Err::<PcrReadResponse, TpmError>(TpmError::Decode),
            },
    {
        let mut resp = PcrReadResponse {
            pcr_update_counter: 0,
            pcr_selection_in: TpmlPcrSelection::new(),
            pcr_values: TpmlDigest::new(),
        };
        resp.unpack(buff)?;
        Ok(resp)
    }

    /// Turns a response into the per-register digests it reports: the
    /// reported selection is walked bit by bit in ascending register
    /// order, and every set bit consumes the next digest from the list.
    /// A response carrying fewer digests than selected registers is a
    /// structural-format error and yields no partial mapping.
    pub fn to_pcr_values(&self) -> (r: Result<PlatformConfigurationRegisters, TpmError>)
        requires
            forall|i: int|
                0 <= i < self.pcr_selection_in.pcr_selections@.len() ==> (
                #[trigger] self.pcr_selection_in.pcr_selections@[i]).pcr_select@.len() == 3,
            self.pcr_values.digests@.len() <= 0xFFFF_FFFF,
        ensures
            match response_map(
                Map::empty(),
                self.pcr_selection_in.deep_view(),
                self.pcr_values.deep_view(),
            ) {
                Some(m) => r is Ok && r->Ok_0@ == m && r->Ok_0.wf(),
                None => r == Err::<PlatformConfigurationRegisters, TpmError>(
                    TpmError::StructuralFormat,
                ),
            },
    {
        let ghost entries = self.pcr_selection_in.deep_view();
        let ghost all_digs = self.pcr_values.deep_view();
        let mut pcrs = PlatformConfigurationRegisters::new();
        let total = self.pcr_values.num_digests();
        let mut used: u32 = 0;
        let mut i: usize = 0;
        proof {
            assert(entries.skip(0) =~= entries);
            assert(all_digs.skip(0) =~= all_digs);
        }
        while i < self.pcr_selection_in.pcr_selections.len()
            invariant
                i <= entries.len(),
                entries == self.pcr_selection_in.deep_view(),
                all_digs == self.pcr_values.deep_view(),
                forall|t: int|
                    0 <= t < self.pcr_selection_in.pcr_selections@.len() ==> (
                    #[trigger] self.pcr_selection_in.pcr_selections@[t]).pcr_select@.len() == 3,
                self.pcr_values.digests@.len() <= 0xFFFF_FFFF,
                total == all_digs.len(),
                used <= total,
                pcrs.wf(),
                response_map(Map::empty(), entries, all_digs) == response_map(
                    pcrs@,
                    entries.skip(i as int),
                    all_digs.skip(used as int),
                ),
            decreases entries.len() - i,
        {
            let entry = &self.pcr_selection_in.pcr_selections[i];
            let ghost e = entries[i as int];
            let ghost digs_rem = all_digs.skip(used as int);
            let ghost acc0 = pcrs@;
            let ghost used0 = used;
            let mut p: usize = 0;
            while p < 24
                invariant
                    p <= 24,
                    i < entries.len(),
                    entries == self.pcr_selection_in.deep_view(),
                    e == entries[i as int],
                    response_map(Map::empty(), entries, all_digs) == response_map(
                        acc0,
                        entries.skip(i as int),
                        digs_rem,
                    ),
                    entry == &self.pcr_selection_in.pcr_selections@[i as int],
                    entry.pcr_select@.len() == 3,
                    entry.pcr_select@ == e.pcr_select,
                    entry.hash == e.hash,
                    all_digs == self.pcr_values.deep_view(),
                    self.pcr_values.digests@.len() <= 0xFFFF_FFFF,
                    total == all_digs.len(),
                    used0 <= used <= total,
                    used == used0 + selected_upto(e.pcr_select, p as nat).len(),
                    digs_rem == all_digs.skip(used0 as int),
                    pcrs.wf(),
                    pcrs@ == acc0.union_prefer_right(
                        entry_map(e.hash, e.pcr_select, digs_rem, p as nat),
                    ),
                decreases 24 - p,
            {
                let byte_idx = p / 8;
                let bit_idx = (p % 8) as u8;
                if ((entry.pcr_select[byte_idx] >> bit_idx) & 1) == 1 {
                    proof {
                        assert(bit_selected(e.pcr_select, p as int));
                    }
                    if used >= total {
                        proof {
                            lemma_selected_upto_mono(e.pcr_select, (p + 1) as nat, 24);
                            assert(selected_regs(e.pcr_select).len() > digs_rem.len());
                            assert(entries.skip(i as int)[0] == e);
                            assert(response_map(pcrs@, entries.skip(i as int), digs_rem) is None);
                        }
                        return Err(TpmError::StructuralFormat);
                    }
                    let digest = match self.pcr_values.get_digest(used) {
                        Ok(d) => d,
                        Err(missing) => {
                            proof {
                                assert(false);
                            }
                            return Err(missing);
                        },
                    };
                    pcrs.add(entry.hash, p as u32, digest.get_buffer().clone());
                    proof {
                        let rank = selected_upto(e.pcr_select, p as nat).len() as int;
                        assert(digs_rem[rank] == all_digs[used as int]);
                        assert(digest.deep_view() == all_digs[used as int]);
                        assert(pcrs@ =~= acc0.union_prefer_right(
                            entry_map(e.hash, e.pcr_select, digs_rem, (p + 1) as nat),
                        ));
                    }
                    used = used + 1;
                } else {
                    proof {
                        assert(!bit_selected(e.pcr_select, p as int));
                        assert(entry_map(e.hash, e.pcr_select, digs_rem, (p + 1) as nat)
                            == entry_map(e.hash, e.pcr_select, digs_rem, p as nat));
                    }
                }
                p = p + 1;
            }
            proof {
                assert(entries.skip(i as int)[0] == e);
                assert(entries.skip(i as int).skip(1) =~= entries.skip(i as int + 1));
                assert(selected_regs(e.pcr_select).len() == used - used0);
                assert(digs_rem.skip((used - used0) as int) =~= all_digs.skip(used as int));
            }
            i = i + 1;
        }
        proof {
            assert(entries.skip(entries.len() as int) =~= Seq::<PcrSelectionShape>::empty());
        }
        Ok(pcrs)
    }
}

/// The keys the first `m` requested indices of one pair ask for.
pub open spec fn pair_keys_upto(sel: PCRSelection, m: int) -> Set<(TpmAlgId, u32)> {
    Set::new(
        |k: (TpmAlgId, u32)|
            k.0 == sel.algo && exists|t: int|
                0 <= t < m && t < sel.pcrs@.len() && sel.pcrs@[t] as int == k.1 as int,
    )
}

/// The keys one `(algorithm, registers)` pair asks for.
pub open spec fn pair_keys(sel: PCRSelection) -> Set<(TpmAlgId, u32)> {
    pair_keys_upto(sel, sel.pcrs@.len() as int)
}

/// Every `(algorithm, register)` key a request asks for.
pub open spec fn requested_keys(sels: Seq<PCRSelection>) -> Set<(TpmAlgId, u32)>
    decreases sels.len(),
{
    if sels.len() == 0 {
        Set::empty()
    } else {
        requested_keys(sels.drop_last()).union(pair_keys(sels.last()))
    }
}

/// Every requested index is within the supported register range.
pub open spec fn all_indices_valid(sels: Seq<PCRSelection>) -> bool {
    forall|s: int, t: int|
        0 <= s < sels.len() && 0 <= t < sels[s].pcrs@.len() ==> (#[trigger] sels[s].pcrs@[t])
            <= MAX_PCR
}

/// Reads the requested registers of every requested bank, splitting each
/// pair's registers into capacity-bounded chunks of at most 8, issuing
/// one exchange per chunk through the framing pipeline, and merging every
/// chunk's digests into one accumulator. Any index beyond the supported
/// range fails the whole request, before any exchange is issued; any
/// chunk failure discards all accumulated digests. On success the
/// accumulator holds exactly the requested `(algorithm, register)` keys.
pub fn tpm2_pcr_read<T: Transport>(tpm: &mut T, selection: &[PCRSelection]) -> (r: Result<
    PlatformConfigurationRegisters,
    TpmError,
>)
    ensures
        (r == Err::<PlatformConfigurationRegisters, TpmError>(TpmError::InputParameter))
            <==> !all_indices_valid(selection@),
        r matches Ok(pcrs) ==> pcrs.wf() && pcrs@.dom() == requested_keys(selection@),
{
    let mut s: usize = 0;
    while s < selection.len()
        invariant
            s <= selection@.len(),
            forall|a: int, t: int|
                0 <= a < s && 0 <= t < selection@[a].pcrs@.len() ==> (
                #[trigger] selection@[a].pcrs@[t]) <= MAX_PCR,
        decreases selection@.len() - s,
    {
        let pair = &selection[s];
        let mut t: usize = 0;
        while t < pair.pcrs.len()
            invariant
                t <= pair.pcrs@.len(),
                s < selection@.len(),
                pair == &selection@[s as int],
                forall|u: int| 0 <= u < t ==> (#[trigger] pair.pcrs@[u]) <= MAX_PCR,
            decreases pair.pcrs@.len() - t,
        {
            if pair.pcrs[t] as u32 > MAX_PCR {
                proof {
                    assert(selection@[s as int].pcrs@[t as int] > MAX_PCR);
                }
                return Err(TpmError::InputParameter);
            }
            t = t + 1;
        }
        s = s + 1;
    }
    let mut all = PlatformConfigurationRegisters::new();
    proof {
        assert(all@.dom() =~= requested_keys(selection@.take(0)));
    }
    let mut s: usize = 0;
    while s < selection.len()
        invariant
            s <= selection@.len(),
            all_indices_valid(selection@),
            all.wf(),
            all@.dom() == requested_keys(selection@.take(s as int)),
        decreases selection@.len() - s,
    {
        let pair = &selection[s];
        let ghost sel_s = selection@[s as int];
        let ghost n = sel_s.pcrs@.len() as int;
        proof {
            assert(forall|t: int|
                0 <= t < sel_s.pcrs@.len() ==> (#[trigger] sel_s.pcrs@[t]) <= MAX_PCR);
        }
        let chunks = chunk_bitmaps(&pair.pcrs);
        let mut k: usize = 0;
        proof {
            assert(all@.dom() =~= requested_keys(selection@.take(s as int)).union(
                pair_keys_upto(sel_s, 0),
            ));
        }
        while k < chunks.len()
            invariant
                k <= chunks@.len(),
                s < selection@.len(),
                pair == &selection@[s as int],
                sel_s == selection@[s as int],
                n == sel_s.pcrs@.len(),
                all_indices_valid(selection@),
                chunks@.len() == chunk_count(n),
                forall|c: int|
                    0 <= c < chunks@.len() ==> chunk_ok(
                        #[trigger] chunks@[c]@,
                        sel_s.pcrs@,
                        8 * c,
                        if 8 * c + 8 <= n {
                            8 * c + 8
                        } else {
                            n
                        },
                    ),
                all.wf(),
                all@.dom() == requested_keys(selection@.take(s as int)).union(
                    pair_keys_upto(
                        sel_s,
                        if 8 * (k as int) <= n {
                            8 * (k as int)
                        } else {
                            n
                        },
                    ),
                ),
            decreases chunks@.len() - k,
        {
            let ghost lo = 8 * (k as int);
            let ghost hi = if lo + 8 <= n {
                lo + 8
            } else {
                n
            };
            proof {
                assert(chunk_ok(chunks@[k as int]@, sel_s.pcrs@, lo, hi));
                vstd::arithmetic::div_mod::lemma_fundamental_div_mod(n + 7, 8);
            }
            let algo = pair.get_algo();
            let bitmap = chunks[k].clone();
            let sel_entry = TpmsPcrSelection { hash: algo, pcr_select: bitmap };
            let ghost bm = sel_entry.pcr_select@;
            let mut one_sel: Vec<TpmsPcrSelection> = Vec::new();
            one_sel.push(sel_entry);
            let sel_list = TpmlPcrSelection { pcr_selections: one_sel };
            let mut params: Vec<TpmlPcrSelection> = Vec::new();
            params.push(sel_list);
            let handles: Vec<Handle> = Vec::new();
            let auths: Vec<TpmsAuthCommand> = Vec::new();
            proof {
                assert(bm == chunks@[k as int]@);
                assert(bm.len() == 3);
                assert(params@[0].wf());
                let pv = params@;
                assert(pv.drop_last() =~= Seq::<TpmlPcrSelection>::empty());
                assert(wire_concat(pv.drop_last()) =~= Seq::<u8>::empty());
                assert(wire_concat(pv) =~= pv.last().wire());
                let sv = pv.last().pcr_selections@;
                assert(sv.drop_last() =~= Seq::<TpmsPcrSelection>::empty());
                assert(wire_concat(sv.drop_last()) =~= Seq::<u8>::empty());
                assert(wire_concat(sv) =~= sv.last().wire());
                lemma_be_bytes_len(crate::algid::alg_code(algo) as int, 2);
                lemma_be_bytes_len(1, 4);
                assert(pv.last().wire().len() == 10);
                assert(wire_concat::<Handle>(handles@) =~= Seq::<u8>::empty());
                assert(wire_concat::<TpmsAuthCommand>(auths@) =~= Seq::<u8>::empty());
                assert(body_wire(handles@, auths@, params@).len() == 10);
            }
            let outcome = run_command(
                tpm,
                TpmSt::NoSessions,
                TPM_CC_PCR_READ,
                &handles,
                &auths,
                &params,
            );
            let (_header, payload) = match outcome {
                Ok(hp) => hp,
                Err(e) => {
                    proof {
                        assert(e != TpmError::InputParameter);
                    }
                    return Err(e);
                },
            };
            let mut pbuff = WireBuffer::from_vec(payload);
            let resp = match PcrReadResponse::new(&mut pbuff) {
                Ok(x) => x,
                Err(e) => {
                    return Err(e);
                },
            };
            if resp.pcr_selection_in.pcr_selections.len() != 1 {
                return Err(TpmError::StructuralFormat);
            }
            if resp.pcr_values.digests.len() as u64 > 0xFFFF_FFFFu64 {
                return Err(TpmError::StructuralFormat);
            }
            let echoed = &resp.pcr_selection_in.pcr_selections[0];
            if echoed.pcr_select.len() != 3 {
                return Err(TpmError::StructuralFormat);
            }
            if !(echoed.hash == algo) {
                return Err(TpmError::StructuralFormat);
            }
            let expected = &chunks[k];
            if echoed.pcr_select[0] != expected[0] || echoed.pcr_select[1] != expected[1]
                || echoed.pcr_select[2] != expected[2] {
                return Err(TpmError::StructuralFormat);
            }
            proof {
                assert(echoed.pcr_select@ =~= bm);
            }
            let chunk_pcrs = match resp.to_pcr_values() {
                Ok(cp) => cp,
                Err(e) => {
                    return Err(e);
                },
            };
            let ghost pre_dom = all@.dom();
            all.merge(&chunk_pcrs);
            proof {
                let digs = resp.pcr_values.deep_view();
                let entriesv = resp.pcr_selection_in.deep_view();
                assert(entriesv.len() == 1);
                assert(entriesv[0].hash == algo);
                assert(entriesv[0].pcr_select == bm);
                assert(entriesv.skip(1) =~= Seq::<PcrSelectionShape>::empty());
                let em = entry_map(algo, bm, digs, 24);
                let need = selected_regs(bm).len() as int;
                if digs.len() < need {
                    assert(response_map(Map::empty(), entriesv, digs) is None);
                    assert(false);
                }
                assert(response_map(
                    Map::<(TpmAlgId, u32), Seq<u8>>::empty().union_prefer_right(em),
                    entriesv.skip(1),
                    digs.skip(need),
                ) == Some(Map::<(TpmAlgId, u32), Seq<u8>>::empty().union_prefer_right(em)));
                assert(chunk_pcrs@ == Map::<(TpmAlgId, u32), Seq<u8>>::empty().union_prefer_right(
                    em,
                ));
                assert forall|key: (TpmAlgId, u32)| em.dom().contains(key) <==> (key.0 == algo
                    && exists|t: int|
                    lo <= t < hi && sel_s.pcrs@[t] as int == key.1 as int) by {
                    lemma_entry_map_dom(algo, bm, digs, 24, key);
                    assert(bit_selected(bm, key.1 as int) <==> exists|t: int|
                        lo <= t < hi && sel_s.pcrs@[t] as int == key.1 as int);
                    if key.0 == algo && exists|t: int|
                        lo <= t < hi && sel_s.pcrs@[t] as int == key.1 as int {
                        let t = choose|t: int|
                            lo <= t < hi && sel_s.pcrs@[t] as int == key.1 as int;
                        assert(sel_s.pcrs@[t] <= MAX_PCR);
                        assert(key.1 < 24);
                    }
                }
                let old_cov = if 8 * (k as int) <= n {
                    8 * (k as int)
                } else {
                    n
                };
                let new_cov = if 8 * (k as int + 1) <= n {
                    8 * (k as int + 1)
                } else {
                    n
                };
                assert(8 * (chunk_count(n) - 1) < n + 8);
                assert(old_cov == lo);
                assert(new_cov == hi);
                assert forall|key: (TpmAlgId, u32)| pair_keys_upto(sel_s, new_cov).contains(key)
                    <==> (pair_keys_upto(sel_s, old_cov).contains(key) || em.dom().contains(
                    key,
                )) by {
                    if pair_keys_upto(sel_s, new_cov).contains(key) {
                        let t = choose|t: int|
                            0 <= t < new_cov && t < sel_s.pcrs@.len() && sel_s.pcrs@[t] as int
                                == key.1 as int;
                        if t < old_cov {
                            assert(pair_keys_upto(sel_s, old_cov).contains(key));
                        } else {
                            assert(lo <= t < hi);
                        }
                    }
                }
                assert(all@.dom() =~= requested_keys(selection@.take(s as int)).union(
                    pair_keys_upto(sel_s, new_cov),
                ));
            }
            k = k + 1;
        }
        proof {
            vstd::arithmetic::div_mod::lemma_fundamental_div_mod(n + 7, 8);
            assert(8 * chunk_count(n) >= n);
            assert((if 8 * (chunks@.len() as int) <= n {
                8 * (chunks@.len() as int)
            } else {
                n
            }) == n);
            assert(pair_keys_upto(sel_s, n) == pair_keys(sel_s));
            assert(selection@.take(s as int + 1).drop_last() =~= selection@.take(s as int));
            assert(selection@.take(s as int + 1).last() == selection@[s as int]);
            assert(all@.dom() =~= requested_keys(selection@.take(s as int + 1)));
        }
        s = s + 1;
    }
    proof {
        assert(selection@.take(selection@.len() as int) =~= selection@);
    }
    Ok(all)
}

} // verus!
