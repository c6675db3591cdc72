//! Batch iteration: the array is walked in strides of `N` elements, and each
//! stride becomes a group of `N` lanes with a packed validity mask.
use crate::array::PrimitiveArray;
use crate::bits::{bit_of, bits_of, bits_raw_bytes, byte_bit, MAX_BITS};
use crate::native::NativeType;
use vstd::prelude::*;

verus! {

/// Up to `N` consecutive elements of an array.
#[derive(Debug, PartialEq, Eq)]
pub struct BatchItem<T: NativeType, const N: usize> {
    /// The elements; lanes past `len` hold zero.
    pub data: [T; N],
    /// The validity mask: bit `i` is set when element `i` is present; bits
    /// from `len` on are clear.
    pub valid: u64,
    /// The number of elements in the batch.
    pub len: usize,
}

/// An iterator over the array, one batch of at most `N` elements at a time.
pub struct BatchIter<'a, T: NativeType, const N: usize> {
    array: &'a PrimitiveArray<T>,
    idx: usize,
}

/// Whether `item` is the batch that starts at index `start` of an array with
/// the given elements and validity bits.
pub open spec fn is_batch<T: NativeType, const N: usize>(
    values: Seq<T>,
    validity: Seq<bool>,
    start: int,
    item: BatchItem<T, N>,
) -> bool {
    let len = if values.len() - start < N { values.len() - start } else { N as int };
    &&& item.len == len
    &&& forall|i: int|
        0 <= i < N ==> #[trigger] item.data@[i] == if i < len {
            values[start + i]
        } else {
            T::zero_spec()
        }
    &&& forall|i: int| 0 <= i < 64 ==> #[trigger] bit_of(item.valid, i) == (i < len && validity[start + i])
}

/// The number of batches of width `n` that cover `l` elements.
pub open spec fn batch_count(l: int, n: int) -> int {
    (l + n - 1) / n
}

/// The batch widths that the iterator supports: a whole number of bytes, up
/// to the width of the validity mask.
pub open spec fn supported_width(n: int) -> bool {
    0 < n <= 64 && n % 8 == 0
}

proof fn lemma_or_bit(w: u64, x: u64, i: u64)
    by (bit_vector)
    requires
        i < 64,
    ensures
        ((w | x) >> i) & 1 == 1 <==> ((w >> i) & 1 == 1 || (x >> i) & 1 == 1),
{
}

proof fn lemma_shifted_byte_bit(b: u8, s: u64, i: u64)
    by (bit_vector)
    requires
        s <= 56,
        i < 64,
    ensures
        (((b as u64) << s) >> i) & 1 == 1 <==> (s <= i && i < s + 8 && (b >> ((i - s) as u8)) & 1
            == 1),
{
}

proof fn lemma_zero_bit(i: u64)
    by (bit_vector)
    ensures
        (0u64 >> i) & 1 == 0,
{
}

proof fn lemma_shl_one_positive(n: u64)
    by (bit_vector)
    requires
        n < 64,
    ensures
        (1u64 << n) >= 1,
{
}

proof fn lemma_low_mask_bit(w: u64, n: u64, i: u64)
    by (bit_vector)
    requires
        n < 64,
        i < 64,
    ensures
        ((w & (((1u64 << n) - 1u64) as u64)) >> i) & 1 == 1 <==> (i < n && (w >> i) & 1 == 1),
{
}

proof fn lemma_max_bits_room()
    ensures
        MAX_BITS + 64 <= usize::MAX,
{
    lemma_shr_three(usize::MAX);
}

proof fn lemma_shr_three(x: usize)
    by (bit_vector)
    ensures
        x >> 3usize == x / 8usize,
{
}

proof fn lemma_batch_total(c: int, d: int, n: int)
    by (nonlinear_arith)
    requires
        n > 0,
        d > 0,
        c >= 1,
        c * n >= d,
        (c - 1) * n < d,
    ensures
        c == (d + n - 1) / n,
{
}

impl<T: NativeType> PrimitiveArray<T> {
    /// Reads the `len` validity bits from index `idx` on into a mask: bit `i` of
    /// the result is bit `idx + i` of the bitmap for `i < len`, and clear from
    /// `len` on. The read starts at byte `idx / 8` and takes the bytes that hold
    /// those bits, so `idx` must fall on a byte boundary.
    pub fn extract_bits(&self, idx: usize, len: usize) -> (r: u64)
        requires
            self.wf(),
            idx % 8 == 0,
            len <= 64,
            idx + len <= self.values().len(),
        ensures
            forall|i: int|
                0 <= i < 64 ==> #[trigger] bit_of(r, i) == (i < len && self.validity()[idx + i]),
    {
        let valid = &self.valid;
        let bytes = bits_raw_bytes(valid);
        let nbytes: usize = (len + 7) / 8;
        let base: usize = idx / 8;
        let mut w: u64 = 0;
        let mut k: usize = 0;
        proof {
            assert forall|i: int| 0 <= i < 64 implies !bit_of(w, i) by {
                lemma_zero_bit(i as u64);
            }
        }
        while k < nbytes
            invariant
                idx % 8 == 0,
                len <= 64,
                idx + len <= bits_of(*valid).len(),
                nbytes == (len + 7) / 8,
                base == idx / 8,
                k <= nbytes,
                bytes@.len() == (bits_of(*valid).len() + 7) / 8,
                forall|j: int|
                    0 <= j < bits_of(*valid).len() ==> #[trigger] bits_of(*valid)[j] == byte_bit(
                        bytes@[j / 8],
                        j % 8,
                    ),
                forall|i: int|
                    0 <= i < 8 * k && i < len ==> #[trigger] bit_of(w, i) == bits_of(*valid)[idx + i],
                forall|i: int| 8 * k <= i < 64 ==> !#[trigger] bit_of(w, i),
            decreases nbytes - k,
        {
            let b: u8 = bytes[base + k];
            let s: u64 = (8 * k) as u64;
            let w2: u64 = w | ((b as u64) << s);
            proof {
                assert forall|i: int| 0 <= i < 64 implies #[trigger] bit_of(w2, i) == (bit_of(w, i)
                    || (8 * k <= i < 8 * k + 8 && byte_bit(b, i - 8 * k))) by {
                    lemma_or_bit(w, (b as u64) << s, i as u64);
                    lemma_shifted_byte_bit(b, s, i as u64);
                }
                assert forall|i: int| 0 <= i < 8 * (k + 1) && i < len implies #[trigger] bit_of(w2, i)
                    == bits_of(*valid)[idx + i] by {
                    if i >= 8 * k {
                        let j = idx + i;
                        assert(j / 8 == base + k && j % 8 == i - 8 * k);
                        assert(bits_of(*valid)[j] == byte_bit(bytes@[j / 8], j % 8));
                    }
                }
            }
            w = w2;
            k += 1;
        }
        assert(8 * nbytes >= len);
        if len == 64 {
            w
        } else {
            proof {
                lemma_shl_one_positive(len as u64);
            }
            let r: u64 = w & ((1u64 << (len as u64)) - 1);
            proof {
                assert forall|i: int| 0 <= i < 64 implies #[trigger] bit_of(r, i) == (i < len
                    && bits_of(*valid)[idx + i]) by {
                    lemma_low_mask_bit(w, len as u64, i as u64);
                    if i < len {
                        assert(bit_of(w, i) == bits_of(*valid)[idx + i]);
                    }
                }
            }
            r
        }
    }

    /// Returns an iterator over the array that yields at most `N` elements at
    /// a time. `N` is a whole number of bytes and at most 64, the width of
    /// the validity mask.
    pub fn batch_iter<'a, const N: usize>(&'a self) -> (r: BatchIter<'a, T, N>)
        requires
            self.wf(),
            supported_width(N as int),
        ensures
            r.wf(),
            r.source() == *self,
            r.pos() == 0,
    {
        BatchIter { array: self, idx: 0 }
    }
}

impl<'a, T: NativeType, const N: usize> BatchIter<'a, T, N> {
    /// The array that the iterator walks.
    pub closed spec fn source(&self) -> PrimitiveArray<T> {
        *self.array
    }

    /// The index at which the next batch starts.
    pub closed spec fn pos(&self) -> int {
        self.idx as int
    }

    /// The array is well formed, the width is supported, and the cursor
    /// stands on a byte boundary, before the end or less than `N` past it.
    pub closed spec fn wf(&self) -> bool {
        &&& self.array.wf()
        &&& supported_width(N as int)
        &&& self.idx % 8 == 0
        &&& self.idx < self.array.values().len() + N
    }

    /// Returns the batch that starts at the cursor and moves the cursor `N`
    /// elements on, or `None` once the cursor has passed the last element.
    pub fn next(&mut self) -> (r: Option<BatchItem<T, N>>)
        requires
            old(self).wf(),
        ensures
            final(self).wf(),
            final(self).source() == old(self).source(),
            old(self).pos() >= old(self).source().values().len() ==> r is None && final(self).pos()
                == old(self).pos(),
            old(self).pos() < old(self).source().values().len() ==> r is Some && is_batch(
                old(self).source().values(),
                old(self).source().validity(),
                old(self).pos(),
                r->0,
            ) && final(self).pos() == old(self).pos() + N,
    {
        let total = self.array.data.len();
        if self.idx >= total {
            return None;
        }
        let idx = self.idx;
        let len: usize = if total - idx < N { total - idx } else { N };
        let valid = self.array.extract_bits(idx, len);
        let z = T::zero();
        let mut data: [T; N] = [z; N];
        let mut i: usize = 0;
        while i < len
            invariant
                i <= len <= N,
                idx + len <= self.array.data@.len() <= MAX_BITS,
                forall|j: int| 0 <= j < i ==> #[trigger] data@[j] == self.array.data@[idx + j],
                forall|j: int| i <= j < N ==> #[trigger] data@[j] == T::zero_spec(),
            decreases len - i,
        {
            data[i] = self.array.data[idx + i];
            i += 1;
        }
        proof {
            lemma_max_bits_room();
        }
        self.idx = idx + N;
        Some(BatchItem { data, valid, len })
    }

    /// Drains the iterator: the batches from the cursor on, in order.
    pub fn into_vec(self) -> (r: Vec<BatchItem<T, N>>)
        requires
            self.wf(),
        ensures
            r@.len() == if self.pos() < self.source().values().len() {
                batch_count(self.source().values().len() - self.pos(), N as int)
            } else {
                0
            },
            forall|j: int|
                0 <= j < r@.len() ==> is_batch(
                    self.source().values(),
                    self.source().validity(),
                    self.pos() + j * N,
                    #[trigger] r@[j],
                ),
    {
        let ghost l = self.source().values().len() as int;
        let ghost p = self.pos();
        let mut it = self;
        let mut out: Vec<BatchItem<T, N>> = Vec::new();
        loop
            invariant
                it.wf(),
                it.source() == self.source(),
                l == self.source().values().len(),
                p == self.pos(),
                it.pos() == p + out@.len() * N,
                out@.len() > 0 ==> p + (out@.len() - 1) * N < l,
                forall|j: int|
                    0 <= j < out@.len() ==> is_batch(
                        self.source().values(),
                        self.source().validity(),
                        p + j * N,
                        #[trigger] out@[j],
                    ),
            decreases l + N - it.pos(),
        {
            match it.next() {
                Some(b) => {
                    proof {
                        assert(p + (out@.len() + 1) * N == p + out@.len() * N + N) by (nonlinear_arith);
                    }
                    out.push(b);
                },
                None => {
                    proof {
                        if p < l {
                            lemma_batch_total(out@.len() as int, l - p, N as int);
                        }
                    }
                    return out;
                },
            }
        }
    }
}

} // verus!
