use vstd::prelude::*;

use crate::algid::TpmAlgId;

verus! {

/// The highest register index a selection bitmap can address: registers
/// `0` to `23` fit the fixed 3-byte bitmap.
pub const MAX_PCR: u32 = 23;

/// A caller-level request: which registers to read from the bank of one
/// hash algorithm. The indices form a set: no index appears twice.
#[derive(Clone, Debug)]
pub struct PCRSelection {
    pub algo: TpmAlgId,
    pub pcrs: Vec<u8>,
}

impl PCRSelection {
    /// A selection of the given registers for the given algorithm.
    pub fn new(algo: TpmAlgId, pcrs: Vec<u8>) -> (r: PCRSelection)
        ensures
            r.algo == algo,
            r.pcrs@ == pcrs@,
    {
        PCRSelection { algo, pcrs }
    }

    /// The hash algorithm whose bank is selected.
    pub fn get_algo(&self) -> (r: TpmAlgId)
        ensures
            r == self.algo,
    {
        self.algo
    }

    /// The requested register indices, in request order.
    pub fn get_pcrs(&self) -> (r: &Vec<u8>)
        ensures
            r@ == self.pcrs@,
    {
        &self.pcrs
    }
}

/// Whether a 3-byte selection bitmap selects register `i`: bit `i % 8` of
/// byte `i / 8`.
pub open spec fn bit_selected(bm: Seq<u8>, i: int) -> bool {
    0 <= i < 24 && ((bm[i / 8] >> ((i % 8) as u8)) & 1u8) == 1u8
}

/// The registers a bitmap selects among the first `p`, in ascending order.
pub open spec fn selected_upto(bm: Seq<u8>, p: nat) -> Seq<u32>
    decreases p,
{
    if p == 0 {
        Seq::empty()
    } else {
        let prev = selected_upto(bm, (p - 1) as nat);
        if bit_selected(bm, p - 1) {
            prev.push((p - 1) as u32)
        } else {
            prev
        }
    }
}

/// Every register a bitmap selects, in ascending order: the order in
/// which the device returns their digests.
pub open spec fn selected_regs(bm: Seq<u8>) -> Seq<u32> {
    selected_upto(bm, 24)
}

/// One recorded register value: which bank, which register, its digest.
#[derive(Clone, Debug)]
pub struct PcrValue {
    pub algo: TpmAlgId,
    pub index: u32,
    pub digest: Vec<u8>,
}

/// The key under which a recorded value stands in the accumulator.
pub open spec fn pcr_key(v: PcrValue) -> (TpmAlgId, u32) {
    (v.algo, v.index)
}

/// The mapping a row of recorded values stands for, later records
/// overriding earlier ones with the same key.
pub open spec fn pcr_map_of(s: Seq<PcrValue>) -> Map<(TpmAlgId, u32), Seq<u8>>
    decreases s.len(),
{
    if s.len() == 0 {
        Map::empty()
    } else {
        pcr_map_of(s.drop_last()).insert(pcr_key(s.last()), s.last().digest@)
    }
}

/// A key stands in the mapping exactly when some record carries it.
pub proof fn lemma_pcr_map_contains(s: Seq<PcrValue>, k: (TpmAlgId, u32))
    ensures
        pcr_map_of(s).contains_key(k) <==> exists|i: int|
            0 <= i < s.len() && pcr_key(s[i]) == k,
    decreases s.len(),
{
    if s.len() > 0 {
        lemma_pcr_map_contains(s.drop_last(), k);
        if pcr_key(s.last()) == k {
            assert(pcr_key(s[s.len() - 1]) == k);
        } else if pcr_map_of(s).contains_key(k) {
            let i = choose|i: int| 0 <= i < s.drop_last().len() && pcr_key(s.drop_last()[i]) == k;
            assert(pcr_key(s[i]) == k);
        } else {
            assert(forall|i: int| 0 <= i < s.len() - 1 ==> s.drop_last()[i] == s[i]);
        }
    }
}

/// Under distinct keys, the mapping holds each record's own digest.
pub proof fn lemma_pcr_map_get(s: Seq<PcrValue>, i: int)
    requires
        0 <= i < s.len(),
        forall|a: int, b: int| 0 <= a < b < s.len() ==> pcr_key(#[trigger] s[a]) != pcr_key(
            #[trigger] s[b],
        ),
    ensures
        pcr_map_of(s).contains_key(pcr_key(s[i])),
        pcr_map_of(s)[pcr_key(s[i])] == s[i].digest@,
    decreases s.len(),
{
    if i == s.len() - 1 {
    } else {
        assert(forall|a: int| 0 <= a < s.len() - 1 ==> s.drop_last()[a] == s[a]);
        lemma_pcr_map_get(s.drop_last(), i);
        assert(pcr_key(s[i]) != pcr_key(s[s.len() - 1]));
    }
}

/// Overwriting the one record that carries a key updates the mapping at
/// that key alone.
proof fn lemma_pcr_map_update(s: Seq<PcrValue>, i: int, nv: PcrValue)
    requires
        0 <= i < s.len(),
        pcr_key(nv) == pcr_key(s[i]),
        forall|a: int, b: int| 0 <= a < b < s.len() ==> pcr_key(#[trigger] s[a]) != pcr_key(
            #[trigger] s[b],
        ),
    ensures
        pcr_map_of(s.update(i, nv)) == pcr_map_of(s).insert(pcr_key(nv), nv.digest@),
    decreases s.len(),
{
    let su = s.update(i, nv);
    if i == s.len() - 1 {
        assert(su.drop_last() =~= s.drop_last());
        assert(su.last() == nv);
        assert(pcr_map_of(su) =~= pcr_map_of(s).insert(pcr_key(nv), nv.digest@));
    } else {
        assert(forall|a: int| 0 <= a < s.len() - 1 ==> s.drop_last()[a] == s[a]);
        lemma_pcr_map_update(s.drop_last(), i, nv);
        assert(su.drop_last() =~= s.drop_last().update(i, nv));
        assert(su.last() == s.last());
        assert(pcr_key(nv) != pcr_key(s.last()));
        assert(pcr_map_of(su) =~= pcr_map_of(s).insert(pcr_key(nv), nv.digest@));
    }
}

/// The caller-owned accumulator of a chunked read: a mapping from
/// `(algorithm, register)` to digest bytes, keys unique, built by merging
/// each chunk's partial result.
#[derive(Clone, Debug)]
pub struct PlatformConfigurationRegisters {
    pub values: Vec<PcrValue>,
}

impl View for PlatformConfigurationRegisters {
    type V = Map<(TpmAlgId, u32), Seq<u8>>;

    open spec fn view(&self) -> Map<(TpmAlgId, u32), Seq<u8>> {
        pcr_map_of(self.values@)
    }
}

impl PlatformConfigurationRegisters {
    /// No two records carry the same `(algorithm, register)` key.
    pub open spec fn wf(&self) -> bool {
        forall|a: int, b: int| 0 <= a < b < self.values@.len() ==> pcr_key(
            #[trigger] self.values@[a],
        ) != pcr_key(#[trigger] self.values@[b])
    }

    /// An empty accumulator.
    pub fn new() -> (r: PlatformConfigurationRegisters)
        ensures
            r@ == Map::<(TpmAlgId, u32), Seq<u8>>::empty(),
            r.wf(),
            r.values@.len() == 0,
    {
        PlatformConfigurationRegisters { values: Vec::new() }
    }

    /// How many registers have been recorded.
    pub fn len(&self) -> (r: usize)
        ensures
            r == self.values@.len(),
    {
        self.values.len()
    }

    /// Records a digest for one register of one bank, replacing what an
    /// earlier record put there.
    pub fn add(&mut self, algo: TpmAlgId, index: u32, digest: Vec<u8>)
        requires
            old(self).wf(),
        ensures
            final(self).wf(),
            final(self)@ == old(self)@.insert((algo, index), digest@),
    {
        let nv = PcrValue { algo, index, digest };
        let mut i: usize = 0;
        while i < self.values.len()
            invariant
                i <= self.values@.len(),
                self == old(self),
                self.wf(),
                forall|a: int| 0 <= a < i ==> pcr_key(#[trigger] self.values@[a]) != pcr_key(nv),
                pcr_key(nv) == (algo, index),
                nv.digest@ == digest@,
            decreases self.values@.len() - i,
        {
            if self.values[i].algo == algo && self.values[i].index == index {
                proof {
                    lemma_pcr_map_update(self.values@, i as int, nv);
                }
                self.values[i] = nv;
                proof {
                    let s = old(self).values@;
                    let su = self.values@;
                    assert(su =~= s.update(i as int, nv));
                    assert(forall|a: int|
                        0 <= a < su.len() ==> pcr_key(#[trigger] su[a]) == pcr_key(s[a]));
                }
                return ;
            }
            i = i + 1;
        }
        proof {
            lemma_pcr_map_contains(old(self).values@, pcr_key(nv));
        }
        self.values.push(nv);
        proof {
            assert(self.values@.drop_last() =~= old(self).values@);
        }
    }

    /// The digest recorded for one register, where one is.
    pub fn get(&self, algo: TpmAlgId, index: u32) -> (r: Option<&Vec<u8>>)
        requires
            self.wf(),
        ensures
            match r {
                Some(d) => self@.contains_key((algo, index)) && d@ == self@[(algo, index)],
                None => !self@.contains_key((algo, index)),
            },
    {
        let mut i: usize = 0;
        while i < self.values.len()
            invariant
                i <= self.values@.len(),
                self.wf(),
                forall|a: int| 0 <= a < i ==> pcr_key(#[trigger] self.values@[a]) != (algo, index),
            decreases self.values@.len() - i,
        {
            if self.values[i].algo == algo && self.values[i].index == index {
                proof {
                    lemma_pcr_map_get(self.values@, i as int);
                }
                return Some(&self.values[i].digest);
            }
            i = i + 1;
        }
        proof {
            lemma_pcr_map_contains(self.values@, (algo, index));
        }
        None
    }

    /// Folds another accumulator into this one, record by record in its
    /// order; its records override records already here with the same key.
    pub fn merge(&mut self, other: &PlatformConfigurationRegisters)
        requires
            old(self).wf(),
        ensures
            final(self).wf(),
            final(self)@ == old(self)@.union_prefer_right(other@),
    {
        let mut i: usize = 0;
        proof {
            assert(self@ =~= old(self)@.union_prefer_right(pcr_map_of(other.values@.take(0))));
        }
        while i < other.values.len()
            invariant
                i <= other.values@.len(),
                self.wf(),
                self@ == old(self)@.union_prefer_right(pcr_map_of(other.values@.take(i as int))),
            decreases other.values@.len() - i,
        {
            let v = &other.values[i];
            self.add(v.algo, v.index, v.digest.clone());
            proof {
                let t1 = other.values@.take(i as int + 1);
                assert(t1.drop_last() =~= other.values@.take(i as int));
                assert(t1.last() == other.values@[i as int]);
                assert(self@ =~= old(self)@.union_prefer_right(pcr_map_of(t1)));
            }
            i = i + 1;
        }
        proof {
            assert(other.values@.take(other.values@.len() as int) =~= other.values@);
        }
    }
}

/// A bitmap with no bits set selects no registers.
proof fn lemma_selected_upto_empty(bm: Seq<u8>, p: nat)
    requires
        forall|j: int| !bit_selected(bm, j),
    ensures
        selected_upto(bm, p).len() == 0,
    decreases p,
{
    if p > 0 {
        lemma_selected_upto_empty(bm, (p - 1) as nat);
    }
}

/// Setting one more bit selects at most one more register.
proof fn lemma_selected_upto_one_more(bm1: Seq<u8>, bm2: Seq<u8>, x: int, p: nat)
    requires
        forall|j: int| #[trigger] bit_selected(bm2, j) <==> (bit_selected(bm1, j) || j == x),
    ensures
        selected_upto(bm2, p).len() == selected_upto(bm1, p).len() + (if 0 <= x < p
            && !bit_selected(bm1, x) {
            1int
        } else {
            0int
        }),
    decreases p,
{
    if p > 0 {
        lemma_selected_upto_one_more(bm1, bm2, x, (p - 1) as nat);
        assert(bit_selected(bm2, p - 1) <==> (bit_selected(bm1, p - 1) || p - 1 == x));
    }
}

/// How many capacity-bounded exchanges a request for `n` registers takes.
pub open spec fn chunk_count(n: int) -> int {
    (n + 7) / 8
}

/// One chunk's bitmap selects exactly the registers of its slice of the
/// request: positions `8k` up to `8k + 8`, or up to the end of the list.
pub open spec fn chunk_ok(bm: Seq<u8>, pcrs: Seq<u8>, lo: int, hi: int) -> bool {
    bm.len() == 3 && forall|j: int|
        #[trigger] bit_selected(bm, j) <==> exists|t: int| lo <= t < hi && pcrs[t] as int == j
}

/// Splits the registers of one selection, in request order, into bitmaps
/// of at most 8 set bits each: a chunk closes when it holds 8 registers
/// or when the list ends. A request for `n` registers yields exactly
/// `(n + 7) / 8` chunks.
pub fn chunk_bitmaps(pcrs: &Vec<u8>) -> (r: Vec<Vec<u8>>)
    requires
        forall|i: int| 0 <= i < pcrs@.len() ==> #[trigger] pcrs@[i] <= MAX_PCR,
    ensures
        r@.len() == chunk_count(pcrs@.len() as int),
        forall|k: int| #![trigger r@[k]] 0 <= k < r@.len() ==> selected_regs(r@[k]@).len() <= 8,
        forall|k: int| 0 <= k < r@.len() ==> chunk_ok(
            #[trigger] r@[k]@,
            pcrs@,
            8 * k,
            if 8 * k + 8 <= pcrs@.len() {
                8 * k + 8
            } else {
                pcrs@.len() as int
            },
        ),
{
    let n = pcrs.len();
    let mut chunks: Vec<Vec<u8>> = Vec::new();
    let mut bm: Vec<u8> = Vec::new();
    bm.push(0);
    bm.push(0);
    bm.push(0);
    let mut seg_start: usize = 0;
    let mut i: usize = 0;
    proof {
        assert(forall|t: u8| t < 8 ==> ((0u8 >> t) & 1u8) == 0u8) by (bit_vector);
        lemma_selected_upto_empty(bm@, 24);
    }
    while i < n
        invariant
            n == pcrs@.len(),
            i <= n,
            forall|t: int| 0 <= t < pcrs@.len() ==> #[trigger] pcrs@[t] <= MAX_PCR,
            bm@.len() == 3,
            i < n ==> selected_regs(bm@).len() <= i - seg_start,
            forall|k: int| #![trigger chunks@[k]] 0 <= k < chunks@.len() ==> selected_regs(
                chunks@[k]@,
            ).len() <= 8,
            i < n ==> seg_start == 8 * chunks@.len(),
            i < n ==> seg_start <= i < seg_start + 8,
            i == n ==> (n == 0 && chunks@.len() == 0) || (8 * (chunks@.len() - 1) < n
                <= 8 * chunks@.len()),
            forall|k: int| 0 <= k < chunks@.len() ==> chunk_ok(
                #[trigger] chunks@[k]@,
                pcrs@,
                8 * k,
                if 8 * k + 8 <= pcrs@.len() {
                    8 * k + 8
                } else {
                    pcrs@.len() as int
                },
            ),
            forall|j: int|
                #[trigger] bit_selected(bm@, j) <==> exists|t: int|
                    seg_start <= t < i && pcrs@[t] as int == j,
        decreases n - i,
    {
        let p = pcrs[i];
        let byte_idx: usize = (p / 8) as usize;
        let mask: u8 = 1u8 << (p % 8);
        let ghost bm_pre = bm@;
        bm[byte_idx] = bm[byte_idx] | mask;
        proof {
            assert(forall|x: u8, k: u8, j: u8|
                k < 8 && j < 8 ==> ((((x | (1u8 << k)) >> j) & 1u8) == 1u8 <==> (((x >> j) & 1u8)
                    == 1u8 || j == k))) by (bit_vector);
            let b = byte_idx as int;
            assert forall|j: int| #[trigger] bit_selected(bm@, j) <==> (bit_selected(bm_pre, j)
                || j == p as int) by {
                if 0 <= j < 24 {
                    let jt = (j % 8) as u8;
                    let kt = p % 8;
                    if j / 8 == b {
                        assert((((bm_pre[b] | (1u8 << kt)) >> jt) & 1u8) == 1u8 <==> (((bm_pre[b]
                            >> jt) & 1u8) == 1u8 || jt == kt));
                        assert(j == p as int <==> (j / 8 == p as int / 8 && j % 8 == p as int % 8));
                    } else {
                        assert(bm@[j / 8] == bm_pre[j / 8]);
                        assert(j != p as int);
                    }
                }
            }
            lemma_selected_upto_one_more(bm_pre, bm@, p as int, 24);
        }
        if i - seg_start == 7 || i == n - 1 {
            let ghost hi = i + 1;
            chunks.push(bm);
            bm = Vec::new();
            bm.push(0);
            bm.push(0);
            bm.push(0);
            proof {
                let lk = chunks@.len() - 1;
                assert(chunks@[lk]@.len() == 3);
                assert(8 * lk == seg_start);
                assert((if 8 * lk + 8 <= pcrs@.len() {
                    8 * lk + 8
                } else {
                    pcrs@.len() as int
                }) == hi);
                assert(chunk_ok(chunks@[lk]@, pcrs@, 8 * lk, hi));
                assert(selected_regs(chunks@[lk]@).len() <= 8);
                assert(forall|t: u8| t < 8 ==> ((0u8 >> t) & 1u8) == 0u8) by (bit_vector);
                assert(forall|j: int| !bit_selected(bm@, j));
                lemma_selected_upto_empty(bm@, 24);
            }
            seg_start = i + 1;
        }
        i = i + 1;
    }
    proof {
        if n > 0 {
            let lc = chunks@.len() as int;
            assert(8 * (lc - 1) < n <= 8 * lc);
            vstd::arithmetic::div_mod::lemma_fundamental_div_mod_converse(
                n as int + 7,
                8,
                lc,
                n as int + 7 - 8 * lc,
            );
        }
    }
    chunks
}

} // verus!
