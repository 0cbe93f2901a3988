use vstd::arithmetic::div_mod::lemma_fundamental_div_mod;
use vstd::prelude::*;

use crate::errors::TpmError;
use crate::wire::{wire_data, wire_rest, wire_rpos, WireBuffer};

verus! {

/// A value that serializes into the TPM's fixed big-endian wire format.
pub trait Tpm2StructOut {
    /// The exact bytes this value contributes to a message.
    spec fn wire(&self) -> Seq<u8>;

    /// The value fits the bounds its wire shape can carry (for instance, a
    /// sized buffer no longer than its length field can state).
    spec fn wf(&self) -> bool;

    /// Appends `self.wire()` to the buffer.
    fn pack(&self, buff: &mut WireBuffer)
        requires
            self.wf(),
        ensures
            wire_data(*final(buff)) == wire_data(*old(buff)) + self.wire(),
            wire_rpos(*final(buff)) == wire_rpos(*old(buff)),
    ;
}

/// A value that deserializes from the TPM's fixed big-endian wire format.
/// Decoding is stated over each type's mathematical shape (`DeepView`),
/// since a spec cannot build executable containers.
pub trait Tpm2StructIn: Sized + DeepView {
    /// How a value of this type reads from the front of `s`: the decoded
    /// value's shape and the count of bytes it consumes, or `None` when
    /// `s` does not begin with a valid encoding (too few bytes, or a code
    /// outside a closed enumeration's table).
    spec fn dec(s: Seq<u8>) -> Option<(Self::V, int)>;

    /// Consumes one encoding of `Self` from the read side of the buffer.
    /// Exactly when the remaining bytes do not begin with one, the result
    /// is a decode error; the held bytes are never changed and the read
    /// cursor never retreats or overruns.
    fn unpack(&mut self, buff: &mut WireBuffer) -> (r: Result<(), TpmError>)
        requires
            0 <= wire_rpos(*old(buff)) <= wire_data(*old(buff)).len(),
        ensures
            wire_data(*final(buff)) == wire_data(*old(buff)),
            wire_rpos(*old(buff)) <= wire_rpos(*final(buff))
                <= wire_data(*old(buff)).len(),
            match Self::dec(wire_rest(*old(buff))) {
                Some(vn) => r is Ok && final(self).deep_view() == vn.0
                    && wire_rpos(*final(buff)) == wire_rpos(*old(buff)) + vn.1,
                None => r == Err::<(), TpmError>(TpmError::Decode),
            },
    ;
}

/// The round-trip law of the codec: for every type that both encodes and
/// decodes, decoding a buffer that begins with the encoding of a value
/// yields that value back and consumes exactly its bytes, whatever follows.
pub trait Tpm2RoundTrip: Tpm2StructOut + Tpm2StructIn {
    proof fn lemma_round_trip(v: Self, rest: Seq<u8>)
        requires
            v.wf(),
        ensures
            Self::dec(v.wire() + rest) == Some((v.deep_view(), v.wire().len() as int)),
    ;
}

/// The big-endian bytes of `v` over `width` bytes, most significant first.
pub open spec fn be_bytes(v: int, width: nat) -> Seq<u8>
    decreases width,
{
    if width == 0 {
        Seq::empty()
    } else {
        be_bytes(v / 256, (width - 1) as nat).push((v % 256) as u8)
    }
}

/// The value a big-endian byte string stands for.
pub open spec fn be_val(s: Seq<u8>) -> int
    decreases s.len(),
{
    if s.len() == 0 {
        0
    } else {
        be_val(s.drop_last()) * 256 + s.last()
    }
}

/// 256 to the `width`: the count of values `width` bytes can carry.
pub open spec fn pow256(width: nat) -> int
    decreases width,
{
    if width == 0 {
        1
    } else {
        256 * pow256((width - 1) as nat)
    }
}

/// How a `width`-byte big-endian integer reads from the front of `s`.
pub open spec fn dec_be(s: Seq<u8>, width: nat) -> Option<(int, int)> {
    if s.len() < width {
        None
    } else {
        Some((be_val(s.take(width as int)), width as int))
    }
}

pub proof fn lemma_be_bytes_len(v: int, width: nat)
    ensures
        be_bytes(v, width).len() == width,
    decreases width,
{
    if width > 0 {
        lemma_be_bytes_len(v / 256, (width - 1) as nat);
    }
}

pub proof fn lemma_be_val_bound(s: Seq<u8>)
    ensures
        0 <= be_val(s) < pow256(s.len()),
    decreases s.len(),
{
    if s.len() > 0 {
        lemma_be_val_bound(s.drop_last());
        let p: int = pow256((s.len() - 1) as nat);
        assert(be_val(s.drop_last()) * 256 <= (p - 1) * 256) by (nonlinear_arith)
            requires
                be_val(s.drop_last()) <= p - 1,
        ;
    }
}

/// Decoding the bytes of `v` gives `v` back: the arithmetic core of the
/// round-trip law for every fixed-width integer.
pub proof fn lemma_be_val_be_bytes(v: int, width: nat)
    requires
        0 <= v < pow256(width),
    ensures
        be_val(be_bytes(v, width)) == v,
    decreases width,
{
    if width > 0 {
        let p: int = pow256((width - 1) as nat);
        lemma_fundamental_div_mod(v, 256);
        assert(v / 256 < p) by (nonlinear_arith)
            requires
                v == 256 * (v / 256) + v % 256,
                v < 256 * p,
                0 <= v % 256 < 256,
        ;
        assert(v / 256 >= 0) by (nonlinear_arith)
            requires
                v == 256 * (v / 256) + v % 256,
                v >= 0,
                0 <= v % 256 < 256,
                p >= 1,
        ;
        lemma_be_val_be_bytes(v / 256, (width - 1) as nat);
        let b = be_bytes(v / 256, (width - 1) as nat);
        assert(b.push((v % 256) as u8).drop_last() =~= b);
        assert(be_val(be_bytes(v, width)) == be_val(b) * 256 + v % 256);
    }
}

/// Appends the low `width` big-endian bytes of `v`, least significant
/// last, by recurring on the high bytes first.
pub fn push_be(buff: &mut WireBuffer, v: u64, width: usize)
    ensures
        wire_data(*final(buff)) == wire_data(*old(buff)) + be_bytes(v as int, width as nat),
        wire_rpos(*final(buff)) == wire_rpos(*old(buff)),
    decreases width,
{
    if width == 0 {
        proof {
            assert(wire_data(*buff) + be_bytes(v as int, 0) =~= wire_data(*buff));
        }
        return ;
    }
    push_be(buff, v / 256, width - 1);
    let mut low: Vec<u8> = Vec::new();
    low.push((v % 256) as u8);
    buff.write(low.as_slice());
    proof {
        assert((wire_data(*old(buff)) + be_bytes((v / 256) as int, (width - 1) as nat))
            + low@ =~= wire_data(*old(buff)) + be_bytes(v as int, width as nat));
    }
}

/// Consumes `width` bytes and returns the big-endian value they carry, or
/// a decode error when fewer than `width` bytes remain.
pub fn read_be(buff: &mut WireBuffer, width: usize) -> (r: Result<u64, TpmError>)
    requires
        width <= 8,
    ensures
        wire_data(*final(buff)) == wire_data(*old(buff)),
        wire_rpos(*old(buff)) <= wire_rpos(*final(buff)) <= wire_data(*old(buff)).len(),
        match dec_be(wire_rest(*old(buff)), width as nat) {
            Some(vn) => r is Ok && r->Ok_0 as int == vn.0
                && wire_rpos(*final(buff)) == wire_rpos(*old(buff)) + vn.1,
            None => r == Err::<u64, TpmError>(TpmError::Decode)
                && wire_rpos(*final(buff)) == wire_rpos(*old(buff)),
        },
{
    let total = buff.len();
    let pos = buff.read_pos();
    if total - pos < width {
        return Err(TpmError::Decode);
    }
    let bytes = buff.read(width);
    proof {
        assert(bytes@ =~= wire_rest(*old(buff)).take(width as int));
        reveal_with_fuel(pow256, 9);
    }
    let ghost taken = wire_rest(*old(buff)).take(width as int);
    let mut acc: u64 = 0;
    let mut i: usize = 0;
    while i < width
        invariant
            i <= width,
            width <= 8,
            bytes@ == taken,
            taken.len() == width,
            acc as int == be_val(taken.take(i as int)),
            (acc as int) < pow256(i as nat),
            pow256(width as nat) <= pow256(8),
            pow256(8) == 0x1_0000_0000_0000_0000,
        decreases width - i,
    {
        proof {
            assert(taken.take((i + 1) as int).drop_last() =~= taken.take(i as int));
            assert(taken.take((i + 1) as int).last() == taken[i as int]);
            assert(pow256(((i + 1)) as nat) == 256 * pow256(i as nat));
            assert(acc as int * 256 <= (pow256(i as nat) - 1) * 256) by (nonlinear_arith)
                requires
                    acc as int <= pow256(i as nat) - 1,
            ;
            assert(pow256((i + 1) as nat) <= pow256(8)) by {
                lemma_pow256_ordered((i + 1) as nat, 8);
            }
        }
        acc = acc * 256 + (bytes[i] as u64);
        i = i + 1;
    }
    proof {
        assert(taken.take(width as int) =~= taken);
    }
    Ok(acc)
}

pub proof fn lemma_pow256_ordered(a: nat, b: nat)
    requires
        a <= b,
    ensures
        pow256(a) <= pow256(b),
        pow256(a) >= 1,
    decreases b,
{
    if b > 0 {
        if a == b {
            lemma_pow256_ordered((a - 1) as nat, (b - 1) as nat);
        } else {
            lemma_pow256_ordered(a, (b - 1) as nat);
        }
    }
}

/// The wire bytes of a row of values, in order.
pub open spec fn wire_concat<T: Tpm2StructOut>(s: Seq<T>) -> Seq<u8>
    decreases s.len(),
{
    if s.len() == 0 {
        Seq::empty()
    } else {
        wire_concat(s.drop_last()) + s.last().wire()
    }
}

/// Serializes each field in order, as command and response structures do.
pub fn pack<T: Tpm2StructOut>(fields: &[T], buff: &mut WireBuffer)
    requires
        forall|i: int| 0 <= i < fields@.len() ==> #[trigger] fields@[i].wf(),
    ensures
        wire_data(*final(buff)) == wire_data(*old(buff)) + wire_concat(fields@),
        wire_rpos(*final(buff)) == wire_rpos(*old(buff)),
{
    let mut i: usize = 0;
    proof {
        assert(wire_data(*buff) + wire_concat(fields@.take(0)) =~= wire_data(*buff));
    }
    while i < fields.len()
        invariant
            i <= fields@.len(),
            forall|k: int| 0 <= k < fields@.len() ==> #[trigger] fields@[k].wf(),
            wire_data(*buff) == wire_data(*old(buff)) + wire_concat(fields@.take(i as int)),
            wire_rpos(*buff) == wire_rpos(*old(buff)),
        decreases fields@.len() - i,
    {
        let f = &fields[i];
        f.pack(buff);
        proof {
            assert(fields@.take((i + 1) as int).drop_last() =~= fields@.take(i as int));
            assert(fields@.take((i + 1) as int).last() == fields@[i as int]);
            assert(wire_data(*old(buff)) + wire_concat(fields@.take(i as int)) + fields@[i as int].wire()
                =~= wire_data(*old(buff)) + wire_concat(fields@.take((i + 1) as int)));
        }
        i = i + 1;
    }
    proof {
        assert(fields@.take(fields@.len() as int) =~= fields@);
    }
}

/// How `n` consecutive encodings of `T` read from the front of `s`: their
/// shapes in order and the total count of bytes consumed, or `None` when
/// any of the `n` fails to decode.
pub open spec fn dec_list<T: Tpm2StructIn>(s: Seq<u8>, n: nat) -> Option<(Seq<T::V>, int)>
    decreases n,
{
    if n == 0 {
        Some((Seq::empty(), 0))
    } else {
        match T::dec(s) {
            None => None,
            Some(vn) => match dec_list::<T>(s.skip(vn.1), (n - 1) as nat) {
                None => None,
                Some(ln) => Some((seq![vn.0] + ln.0, vn.1 + ln.1)),
            },
        }
    }
}

/// Consumes `count` consecutive encodings of `T`, as the counted-list
/// shape requires, failing with a decode error exactly when the remaining
/// bytes do not hold `count` of them.
pub fn unpack_count<T: Tpm2StructIn + Clone>(
    template: &T,
    count: usize,
    buff: &mut WireBuffer,
) -> (r: Result<Vec<T>, TpmError>)
    requires
        0 <= wire_rpos(*old(buff)) <= wire_data(*old(buff)).len(),
    ensures
        wire_data(*final(buff)) == wire_data(*old(buff)),
        wire_rpos(*old(buff)) <= wire_rpos(*final(buff)) <= wire_data(*old(buff)).len(),
        match dec_list::<T>(wire_rest(*old(buff)), count as nat) {
            Some(ln) => r is Ok && r->Ok_0.deep_view() == ln.0
                && wire_rpos(*final(buff)) == wire_rpos(*old(buff)) + ln.1,
            None => r == Err::<Vec<T>, TpmError>(TpmError::Decode),
        },
{
    let ghost entry = wire_rest(*old(buff));
    let mut out: Vec<T> = Vec::new();
    let mut i: usize = 0;
    let start = buff.read_pos();
    while i < count
        invariant
            i <= count,
            wire_data(*buff) == wire_data(*old(buff)),
            start == wire_rpos(*old(buff)),
            start <= wire_rpos(*buff) <= wire_data(*old(buff)).len(),
            entry == wire_rest(*old(buff)),
            out.deep_view().len() == i,
            dec_list::<T>(entry, count as nat) == (match dec_list::<T>(
                wire_rest(*buff),
                (count - i) as nat,
            ) {
                None => None::<(Seq<T::V>, int)>,
                Some(ln) => Some(
                    (
                        out.deep_view() + ln.0,
                        (wire_rpos(*buff) - wire_rpos(*old(buff))) + ln.1,
                    ),
                ),
            }),
        decreases count - i,
    {
        let ghost pre = *buff;
        let ghost rest_pre = wire_rest(*buff);
        let mut elem = template.clone();
        let res = elem.unpack(buff);
        match res {
            Err(_) => {
                proof {
                    assert(dec_list::<T>(rest_pre, (count - i) as nat) is None);
                }
                return Err(TpmError::Decode);
            },
            Ok(_) => {
                proof {
                    let vn = T::dec(rest_pre)->Some_0;
                    assert(wire_rest(*buff) =~= rest_pre.skip(vn.1));
                }
                let ghost old_out = out.deep_view();
                out.push(elem);
                proof {
                    let vn = T::dec(rest_pre)->Some_0;
                    assert(out.deep_view() =~= old_out.push(vn.0));
                    match dec_list::<T>(wire_rest(*buff), (count - i - 1) as nat) {
                        None => {},
                        Some(ln) => {
                            assert(old_out + (seq![vn.0] + ln.0) =~= out.deep_view() + ln.0);
                        },
                    }
                }
                i = i + 1;
            },
        }
    }
    proof {
        assert(out.deep_view() + Seq::<T::V>::empty() =~= out.deep_view());
    }
    Ok(out)
}

/// The wire bytes of a row are its first element's bytes, then the rest's.
pub proof fn lemma_wire_concat_first<T: Tpm2StructOut>(s: Seq<T>)
    requires
        s.len() > 0,
    ensures
        wire_concat(s) == s[0].wire() + wire_concat(s.skip(1)),
    decreases s.len(),
{
    if s.len() == 1 {
        assert(s.drop_last().len() == 0);
        assert(s.skip(1).len() == 0);
        assert(wire_concat(s.drop_last()) =~= Seq::<u8>::empty());
        assert(wire_concat(s) =~= s.last().wire());
        assert(s[0] == s.last());
        assert(s[0].wire() + wire_concat(s.skip(1)) =~= s[0].wire());
    } else {
        let mid = s.drop_last();
        lemma_wire_concat_first(mid);
        assert(s.skip(1).drop_last() =~= mid.skip(1));
        assert(s.skip(1).last() == s.last());
        assert(wire_concat(s.skip(1)) == wire_concat(mid.skip(1)) + s.last().wire());
        assert(mid[0] == s[0]);
        assert((s[0].wire() + wire_concat(mid.skip(1))) + s.last().wire() =~= s[0].wire()
            + (wire_concat(mid.skip(1)) + s.last().wire()));
    }
}

/// The round-trip law for a row of values: decoding the concatenation of
/// their encodings, with anything after it, yields their shapes in order.
pub proof fn round_trip_list<T: Tpm2RoundTrip>(elems: Seq<T>, rest: Seq<u8>)
    requires
        forall|i: int| 0 <= i < elems.len() ==> #[trigger] elems[i].wf(),
    ensures
        dec_list::<T>(wire_concat(elems) + rest, elems.len() as nat) == Some(
            (
                Seq::new(elems.len() as nat, |i: int| elems[i].deep_view()),
                wire_concat(elems).len() as int,
            ),
        ),
    decreases elems.len(),
{
    if elems.len() == 0 {
        assert(wire_concat(elems) + rest =~= rest);
        assert(Seq::new(0, |i: int| elems[i].deep_view()) =~= Seq::<T::V>::empty());
    } else {
        lemma_wire_concat_first(elems);
        let head = elems[0];
        let tail = elems.skip(1);
        let s = wire_concat(elems) + rest;
        assert(s =~= head.wire() + (wire_concat(tail) + rest));
        T::lemma_round_trip(head, wire_concat(tail) + rest);
        assert(forall|i: int| 0 <= i < tail.len() ==> #[trigger] tail[i].wf()) by {
            assert(forall|i: int| 0 <= i < tail.len() ==> tail[i] == elems[i + 1]);
        }
        round_trip_list(tail, rest);
        assert(s.skip(head.wire().len() as int) =~= wire_concat(tail) + rest);
        let tail_views = Seq::new(tail.len() as nat, |i: int| tail[i].deep_view());
        assert(seq![head.deep_view()] + tail_views =~= Seq::new(
            elems.len() as nat,
            |i: int| elems[i].deep_view(),
        ));
    }
}

impl Tpm2StructOut for u8 {
    open spec fn wire(&self) -> Seq<u8> {
        be_bytes(*self as int, 1)
    }

    open spec fn wf(&self) -> bool {
        true
    }

    fn pack(&self, buff: &mut WireBuffer) {
        push_be(buff, *self as u64, 1);
    }
}

impl Tpm2StructOut for u16 {
    open spec fn wire(&self) -> Seq<u8> {
        be_bytes(*self as int, 2)
    }

    open spec fn wf(&self) -> bool {
        true
    }

    fn pack(&self, buff: &mut WireBuffer) {
        push_be(buff, *self as u64, 2);
    }
}

impl Tpm2StructOut for u32 {
    open spec fn wire(&self) -> Seq<u8> {
        be_bytes(*self as int, 4)
    }

    open spec fn wf(&self) -> bool {
        true
    }

    fn pack(&self, buff: &mut WireBuffer) {
        push_be(buff, *self as u64, 4);
    }
}

impl Tpm2StructOut for u64 {
    open spec fn wire(&self) -> Seq<u8> {
        be_bytes(*self as int, 8)
    }

    open spec fn wf(&self) -> bool {
        true
    }

    fn pack(&self, buff: &mut WireBuffer) {
        push_be(buff, *self, 8);
    }
}

impl Tpm2StructIn for u8 {
    open spec fn dec(s: Seq<u8>) -> Option<(u8, int)> {
        match dec_be(s, 1) {
            Some(vn) => Some(((vn.0 as u8), vn.1)),
            None => None,
        }
    }

    fn unpack(&mut self, buff: &mut WireBuffer) -> (r: Result<(), TpmError>) {
        proof {
            dec_fits(wire_rest(*buff), 1);
        }
        let v = read_be(buff, 1)?;
        *self = v as u8;
        Ok(())
    }
}

impl Tpm2StructIn for u16 {
    open spec fn dec(s: Seq<u8>) -> Option<(u16, int)> {
        match dec_be(s, 2) {
            Some(vn) => Some(((vn.0 as u16), vn.1)),
            None => None,
        }
    }

    fn unpack(&mut self, buff: &mut WireBuffer) -> (r: Result<(), TpmError>) {
        proof {
            dec_fits(wire_rest(*buff), 2);
        }
        let v = read_be(buff, 2)?;
        *self = v as u16;
        Ok(())
    }
}

impl Tpm2StructIn for u32 {
    open spec fn dec(s: Seq<u8>) -> Option<(u32, int)> {
        match dec_be(s, 4) {
            Some(vn) => Some(((vn.0 as u32), vn.1)),
            None => None,
        }
    }

    fn unpack(&mut self, buff: &mut WireBuffer) -> (r: Result<(), TpmError>) {
        proof {
            dec_fits(wire_rest(*buff), 4);
        }
        let v = read_be(buff, 4)?;
        *self = v as u32;
        Ok(())
    }
}

impl Tpm2StructIn for u64 {
    open spec fn dec(s: Seq<u8>) -> Option<(u64, int)> {
        match dec_be(s, 8) {
            Some(vn) => Some(((vn.0 as u64), vn.1)),
            None => None,
        }
    }

    fn unpack(&mut self, buff: &mut WireBuffer) -> (r: Result<(), TpmError>) {
        proof {
            dec_fits(wire_rest(*buff), 8);
        }
        let v = read_be(buff, 8)?;
        *self = v as u64;
        Ok(())
    }
}

/// A decoded fixed-width value fits its width.
pub proof fn dec_fits(s: Seq<u8>, width: nat)
    ensures
        match dec_be(s, width) {
            Some(vn) => 0 <= vn.0 < pow256(width),
            None => true,
        },
{
    if s.len() >= width {
        lemma_be_val_bound(s.take(width as int));
    }
}

/// The round-trip law for a fixed-width integer of any width.
pub proof fn round_trip_be(v: int, width: nat, rest: Seq<u8>)
    requires
        0 <= v < pow256(width),
    ensures
        dec_be(be_bytes(v, width) + rest, width) == Some((v, width as int)),
{
    lemma_be_bytes_len(v, width);
    assert((be_bytes(v, width) + rest).take(width as int) =~= be_bytes(v, width));
    lemma_be_val_be_bytes(v, width);
}

impl Tpm2RoundTrip for u8 {
    proof fn lemma_round_trip(v: Self, rest: Seq<u8>) {
        reveal_with_fuel(pow256, 2);
        round_trip_be(v as int, 1, rest);
        lemma_be_bytes_len(v as int, 1);
    }
}

impl Tpm2RoundTrip for u16 {
    proof fn lemma_round_trip(v: Self, rest: Seq<u8>) {
        reveal_with_fuel(pow256, 3);
        round_trip_be(v as int, 2, rest);
        lemma_be_bytes_len(v as int, 2);
    }
}

impl Tpm2RoundTrip for u32 {
    proof fn lemma_round_trip(v: Self, rest: Seq<u8>) {
        reveal_with_fuel(pow256, 5);
        round_trip_be(v as int, 4, rest);
        lemma_be_bytes_len(v as int, 4);
    }
}

impl Tpm2RoundTrip for u64 {
    proof fn lemma_round_trip(v: Self, rest: Seq<u8>) {
        reveal_with_fuel(pow256, 9);
        round_trip_be(v as int, 8, rest);
        lemma_be_bytes_len(v as int, 8);
    }
}

} // verus!
