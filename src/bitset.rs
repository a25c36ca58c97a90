//! The packed bit array that holds the grid, and the few operations the
//! simulation needs from it.
use fixedbitset::FixedBitSet;
use vstd::prelude::*;

verus! {

#[verifier::external_type_specification]
#[verifier::external_body]
pub struct ExFixedBitSet(FixedBitSet);

/// The bits that a `FixedBitSet` holds, in index order; its length is the
/// bit set's length.
pub uninterp spec fn bits_of(b: FixedBitSet) -> Seq<bool>;

/// Relies on `FixedBitSet::with_capacity`: `n` bits, all clear.
#[verifier::external_body]
pub(crate) fn new_clear(n: usize) -> (r: FixedBitSet)
    ensures
        bits_of(r) == Seq::new(n as nat, |i: int| false),
{
    FixedBitSet::with_capacity(n)
}

/// Relies on `FixedBitSet::contains`: whether bit `i` is set.
#[verifier::external_body]
pub(crate) fn get_bit(b: &FixedBitSet, i: usize) -> (r: bool)
    requires
        i < bits_of(*b).len(),
    ensures
        r == bits_of(*b)[i as int],
{
    b.contains(i)
}

/// Relies on `FixedBitSet::set`: bit `i` becomes `v`, the others stay.
/// It panics when `i` is not below the length, which `requires` excludes.
#[verifier::external_body]
pub(crate) fn set_bit(b: &mut FixedBitSet, i: usize, v: bool)
    requires
        i < bits_of(*old(b)).len(),
    ensures
        bits_of(*final(b)) == bits_of(*old(b)).update(i as int, v),
{
    b.set(i, v)
}

/// Relies on `<FixedBitSet as Clone>::clone`: a copy of the same bits.
#[verifier::external_body]
pub(crate) fn copy_bits(b: &FixedBitSet) -> (r: FixedBitSet)
    ensures
        bits_of(r) == bits_of(*b),
{
    b.clone()
}

/// Bit `i` of a sequence of 32-bit blocks: bit `i % 32` of block `i / 32`.
pub open spec fn block_bit(blocks: Seq<u32>, i: int) -> bool {
    (blocks[i / 32] >> ((i % 32) as u32)) & 1u32 == 1u32
}

/// Relies on `FixedBitSet::as_slice`: the storage blocks, one per 32 bits
/// (rounded up), bit `i` kept at bit `i % 32` of block `i / 32`.
#[verifier::external_body]
pub(crate) fn blocks_of(b: &FixedBitSet) -> (r: &[u32])
    ensures
        r@.len() == (bits_of(*b).len() + 31) / 32,
        forall|i: int| 0 <= i < bits_of(*b).len() ==> #[trigger] block_bit(r@, i) == bits_of(*b)[i],
{
    b.as_slice()
}

/// Relies on `String::push`: `c` is appended at the end.
#[verifier::external_body]
pub(crate) fn push_char(s: &mut String, c: char)
    ensures
        final(s)@ == old(s)@.push(c),
{
    s.push(c)
}

} // verus!
