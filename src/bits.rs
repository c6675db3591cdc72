//! The validity bitmap, held in a `bitvec` bit-vector of bytes, least
//! significant bit first.
use bitvec::prelude::{BitSlice, BitVec, Lsb0};
use vstd::prelude::*;

verus! {

/// A bit-vector over bytes, least significant bit first. Its only
/// constructor starts it at the first bit of its buffer, and appending never
/// moves that bit.
#[verifier::external_body]
#[derive(Debug, PartialEq, Eq)]
pub struct Bits {
    inner: BitVec<u8, Lsb0>,
}

/// The bits that a bit-vector holds, in order.
pub uninterp spec fn bits_of(v: Bits) -> Seq<bool>;

/// The most bits that a bit-vector can hold (`BitSlice::MAX_BITS`).
pub const MAX_BITS: usize = usize::MAX >> 3;

/// Whether bit `i` (least significant first) of `w` is set.
pub open spec fn bit_of(w: u64, i: int) -> bool {
    (w >> (i as u64)) & 1u64 == 1u64
}

/// Whether bit `i` (least significant first) of byte `b` is set.
pub open spec fn byte_bit(b: u8, i: int) -> bool {
    (b >> (i as u8)) & 1u8 == 1u8
}

/// Relies on `BitVec::with_capacity`: a new bit-vector is empty.
#[verifier::external_body]
pub(crate) fn bits_with_capacity(capacity: usize) -> (r: Bits)
    requires
        capacity <= MAX_BITS,
    ensures
        bits_of(r) == Seq::<bool>::empty(),
{
    Bits { inner: BitVec::with_capacity(capacity) }
}

/// Relies on `BitVec::push`: appends one bit.
#[verifier::external_body]
pub(crate) fn bits_push(v: &mut Bits, b: bool)
    requires
        bits_of(*old(v)).len() < MAX_BITS,
    ensures
        bits_of(*final(v)) == bits_of(*old(v)).push(b),
{
    v.inner.push(b)
}

/// Relies on `BitSlice::from_element` and `BitVec::extend_from_bitslice`:
/// appends the low `n` bits of `w`, least significant first.
#[verifier::external_body]
pub(crate) fn bits_extend_from_word(v: &mut Bits, w: u64, n: usize)
    requires
        n <= 64,
        bits_of(*old(v)).len() + n <= MAX_BITS,
    ensures
        bits_of(*final(v)) == bits_of(*old(v)) + Seq::new(n as nat, |i: int| bit_of(w, i)),
{
    v.inner.extend_from_bitslice(&BitSlice::<u64, Lsb0>::from_element(&w)[..n])
}

/// Relies on `BitVec::as_raw_slice`: the bytes that hold the live bits. As
/// the first live bit is the first bit of the buffer, bit `j` of the vector is
/// bit `j % 8` of byte `j / 8`.
#[verifier::external_body]
pub(crate) fn bits_raw_bytes(v: &Bits) -> (r: &[u8])
    ensures
        r@.len() == (bits_of(*v).len() + 7) / 8,
        forall|j: int|
            0 <= j < bits_of(*v).len() ==> #[trigger] bits_of(*v)[j] == byte_bit(
                r@[j / 8],
                j % 8,
            ),
{
    v.inner.as_raw_slice()
}

} // verus!
