//! The bit packer: accumulates successive booleans into bytes under a
//! configurable bit-significance order, discarding a trailing partial byte.

use vstd::prelude::*;

use crate::BitFlow;

verus! {

/// One packing step: how the accumulator byte changes when one more bit is
/// consumed.
pub open spec fn spec_push_bit(acc: u8, bit: bool, bit_flow: BitFlow) -> u8 {
    match bit_flow {
        BitFlow::Mtl => (acc << 1) | (if bit {
            1u8
        } else {
            0u8
        }),
        BitFlow::Ltm => (acc >> 1) | (if bit {
            0x80u8
        } else {
            0u8
        }),
    }
}

/// The accumulator byte after consuming a whole sequence of bits, starting
/// from an empty (zero) accumulator.
pub open spec fn spec_accum(bits: Seq<bool>, bit_flow: BitFlow) -> u8
    decreases bits.len(),
{
    if bits.len() == 0 {
        0u8
    } else {
        spec_push_bit(spec_accum(bits.drop_last(), bit_flow), bits.last(), bit_flow)
    }
}

/// The packed byte stream of a finite bit sequence: one byte for every full
/// group of 8 bits, in order; a trailing partial group is discarded.
pub open spec fn spec_pack(bits: Seq<bool>, bit_flow: BitFlow) -> Seq<u8>
    decreases bits.len(),
{
    if bits.len() < 8 {
        Seq::empty()
    } else {
        seq![spec_accum(bits.take(8), bit_flow)] + spec_pack(bits.skip(8), bit_flow)
    }
}

/// Packing emits exactly one byte per full group of 8 bits.
pub proof fn lemma_pack_len(bits: Seq<bool>, bit_flow: BitFlow)
    ensures
        spec_pack(bits, bit_flow).len() == bits.len() / 8,
    decreases bits.len(),
{
    if bits.len() >= 8 {
        lemma_pack_len(bits.skip(8), bit_flow);
    }
}

/// Packing a concatenation whose first part is whole bytes packs the parts
/// independently.
pub proof fn lemma_pack_split(bits: Seq<bool>, m: int, bit_flow: BitFlow)
    requires
        0 <= m <= bits.len(),
        m % 8 == 0,
    ensures
        spec_pack(bits, bit_flow) == spec_pack(bits.take(m), bit_flow) + spec_pack(
            bits.skip(m),
            bit_flow,
        ),
    decreases m,
{
    if m == 0 {
        assert(bits.take(0) =~= Seq::<bool>::empty());
        assert(bits.skip(0) =~= bits);
        assert(spec_pack(bits.take(0), bit_flow) =~= Seq::<u8>::empty());
        assert(spec_pack(bits, bit_flow) =~= spec_pack(bits.take(0), bit_flow) + spec_pack(
            bits.skip(0),
            bit_flow,
        ));
    } else {
        assert(m >= 8);
        lemma_pack_split(bits.skip(8), m - 8, bit_flow);
        assert(bits.skip(8).take(m - 8) =~= bits.take(m).skip(8));
        assert(bits.skip(8).skip(m - 8) =~= bits.skip(m));
        assert(bits.take(m).take(8) =~= bits.take(8));
        assert(spec_pack(bits.take(m), bit_flow) =~= seq![
            spec_accum(bits.take(8), bit_flow),
        ] + spec_pack(bits.take(m).skip(8), bit_flow));
        assert(spec_pack(bits, bit_flow) =~= spec_pack(bits.take(m), bit_flow) + spec_pack(
            bits.skip(m),
            bit_flow,
        ));
    }
}

/// A trailing group of fewer than 8 bits contributes nothing: packing keeps
/// only the full bytes.
pub proof fn lemma_pack_drop_partial(bits: Seq<bool>, bit_flow: BitFlow)
    ensures
        spec_pack(bits, bit_flow) == spec_pack(
            bits.take(bits.len() - (bits.len() % 8)),
            bit_flow,
        ),
{
    let m = bits.len() - (bits.len() % 8);
    lemma_pack_split(bits, m as int, bit_flow);
    assert(bits.skip(m as int).len() < 8);
    assert(spec_pack(bits, bit_flow) =~= spec_pack(bits.take(m as int), bit_flow));
}

/// Consuming 8 more bits after a whole-byte boundary appends exactly one more
/// packed byte.
pub proof fn lemma_pack_step(bits: Seq<bool>, m: int, bit_flow: BitFlow)
    requires
        0 <= m,
        m % 8 == 0,
        m + 8 <= bits.len(),
    ensures
        spec_pack(bits.take(m + 8), bit_flow) == spec_pack(bits.take(m), bit_flow).push(
            spec_accum(bits.subrange(m, m + 8), bit_flow),
        ),
{
    let sub = bits.subrange(m, m + 8);
    lemma_pack_split(bits.take(m + 8), m, bit_flow);
    assert(bits.take(m + 8).take(m) =~= bits.take(m));
    assert(bits.take(m + 8).skip(m) =~= sub);
    assert(sub.skip(8) =~= Seq::<bool>::empty());
    assert(spec_pack(sub.skip(8), bit_flow) =~= Seq::<u8>::empty());
    assert(sub.take(8) =~= sub);
    assert(spec_pack(sub, bit_flow) =~= seq![spec_accum(sub, bit_flow)]);
    assert(spec_pack(bits.take(m), bit_flow).push(spec_accum(sub, bit_flow)) =~= spec_pack(
        bits.take(m),
        bit_flow,
    ) + seq![spec_accum(sub, bit_flow)]);
}

/// Pack a finite ordered sequence of booleans into bytes: every full group of
/// 8 consecutive bits becomes one byte under the chosen bit flow, and a
/// trailing partial group is silently discarded.
pub fn pack_bits(bits: &Vec<bool>, bit_flow: BitFlow) -> (r: Vec<u8>)
    ensures
        r@ == spec_pack(bits@, bit_flow),
{
    let mut out: Vec<u8> = Vec::new();
    let mut acc: u8 = 0;
    let mut k: usize = 0;
    while k < bits.len()
        invariant
            k <= bits@.len(),
            k % 8 == 0 ==> acc == 0,
            acc == spec_accum(bits@.subrange(k as int - (k % 8) as int, k as int), bit_flow),
            out@ == spec_pack(bits@.take(k as int - (k % 8) as int), bit_flow),
        decreases bits@.len() - k,
    {
        let bit = bits[k];
        let ghost start = k as int - (k % 8) as int;
        acc = push_bit(acc, bit, bit_flow);
        proof {
            assert(bits@.subrange(start, k as int + 1).drop_last() =~= bits@.subrange(
                start,
                k as int,
            ));
        }
        k = k + 1;
        if k % 8 == 0 {
            proof {
                lemma_pack_step(bits@, start, bit_flow);
                assert(bits@.take(start + 8) =~= bits@.take(k as int));
            }
            out.push(acc);
            acc = 0;
            proof {
                assert(bits@.subrange(k as int, k as int) =~= Seq::<bool>::empty());
            }
        }
    }
    proof {
        lemma_pack_drop_partial(bits@, bit_flow);
        assert(bits@.take(bits@.len() - (bits@.len() % 8)) =~= bits@.take(
            k as int - (k % 8) as int,
        ));
    }
    out
}

/// One executable packing step over the accumulator byte.
pub fn push_bit(acc: u8, bit: bool, bit_flow: BitFlow) -> (r: u8)
    ensures
        r == spec_push_bit(acc, bit, bit_flow),
{
    match bit_flow {
        BitFlow::Mtl => (acc << 1u8) | (if bit {
            1u8
        } else {
            0u8
        }),
        BitFlow::Ltm => (acc >> 1u8) | (if bit {
            0x80u8
        } else {
            0u8
        }),
    }
}

} // verus!
