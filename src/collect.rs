//! Consumers of a sequence of batches: the collector, which rebuilds an
//! array, and the sum, which folds the lanes into one value.
use crate::array::PrimitiveArray;
use crate::batch::BatchItem;
use crate::bits::{bit_of, bits_extend_from_word, bits_of, bits_with_capacity, MAX_BITS};
use crate::native::NativeType;
use vstd::prelude::*;

verus! {

impl<T: NativeType, const N: usize> BatchItem<T, N> {
    /// The batch holds at most `N` elements, and its mask fits in a word.
    pub open spec fn wf(&self) -> bool {
        self.len <= N && N <= 64
    }

    /// The elements of the batch, without the unused lanes.
    pub open spec fn elements(&self) -> Seq<T> {
        self.data@.take(self.len as int)
    }

    /// The validity bits of the elements of the batch.
    pub open spec fn valid_bits(&self) -> Seq<bool> {
        Seq::new(self.len as nat, |i: int| bit_of(self.valid, i))
    }
}

/// The elements of a sequence of batches, one batch after the other.
pub open spec fn flat_values<T: NativeType, const N: usize>(s: Seq<BatchItem<T, N>>) -> Seq<T>
    decreases s.len(),
{
    if s.len() == 0 {
        Seq::empty()
    } else {
        flat_values(s.drop_last()) + s.last().elements()
    }
}

/// The validity bits of a sequence of batches, one batch after the other.
pub open spec fn flat_validity<T: NativeType, const N: usize>(s: Seq<BatchItem<T, N>>) -> Seq<
    bool,
>
    decreases s.len(),
{
    if s.len() == 0 {
        Seq::empty()
    } else {
        flat_validity(s.drop_last()) + s.last().valid_bits()
    }
}

/// The wrapping sum of a sequence of lanes, from the first on.
pub open spec fn lane_sum<T: NativeType>(d: Seq<T>) -> T
    decreases d.len(),
{
    if d.len() == 0 {
        T::zero_spec()
    } else {
        T::add_spec(lane_sum(d.drop_last()), d.last())
    }
}

/// The wrapping sum, batch by batch in order, of the sums of all lanes of
/// each batch.
pub open spec fn batches_sum<T: NativeType, const N: usize>(s: Seq<BatchItem<T, N>>) -> T
    decreases s.len(),
{
    if s.len() == 0 {
        T::zero_spec()
    } else {
        T::add_spec(batches_sum(s.drop_last()), lane_sum(s.last().data@))
    }
}

proof fn lemma_flat_lengths<T: NativeType, const N: usize>(s: Seq<BatchItem<T, N>>, j: int)
    requires
        0 <= j <= s.len(),
        forall|k: int| 0 <= k < s.len() ==> (#[trigger] s[k]).wf(),
    ensures
        flat_values(s.take(j)).len() <= flat_values(s).len(),
        flat_values(s).len() == flat_validity(s).len(),
    decreases s.len(),
{
    if s.len() > 0 {
        let t = s.drop_last();
        assert forall|k: int| 0 <= k < t.len() implies (#[trigger] t[k]).wf() by {
            assert(t[k] == s[k]);
        }
        if j == s.len() {
            assert(s.take(j) =~= s);
            lemma_flat_lengths(t, t.len() as int);
        } else {
            assert(s.take(j) =~= t.take(j));
            lemma_flat_lengths(t, j);
        }
    }
}

impl<T: NativeType> PrimitiveArray<T> {
    /// Rebuilds an array from a sequence of batches: the first `len` elements
    /// and validity bits of each batch, in order.
    pub fn from_iter<const N: usize>(items: Vec<BatchItem<T, N>>) -> (r: Self)
        requires
            forall|k: int| 0 <= k < items@.len() ==> (#[trigger] items@[k]).wf(),
            flat_values(items@).len() <= MAX_BITS,
        ensures
            r.wf(),
            r.values() == flat_values(items@),
            r.validity() == flat_validity(items@),
    {
        let count = items.len();
        let hint: usize = if N > 0 && count <= MAX_BITS / N {
            proof {
                let m = MAX_BITS as int;
                let c = count as int;
                let n = N as int;
                assert(c * n <= m) by (nonlinear_arith)
                    requires
                        n > 0,
                        c <= m / n,
                ;
            }
            count * N
        } else {
            MAX_BITS
        };
        proof {
            lemma_flat_lengths(items@, items@.len() as int);
        }
        let mut data: Vec<T> = Vec::with_capacity(hint);
        let mut valid = bits_with_capacity(hint);
        let mut k: usize = 0;
        while k < items.len()
            invariant
                k <= items@.len(),
                forall|j: int| 0 <= j < items@.len() ==> (#[trigger] items@[j]).wf(),
                flat_values(items@).len() <= MAX_BITS,
                data@ == flat_values(items@.take(k as int)),
                bits_of(valid) == flat_validity(items@.take(k as int)),
            decreases items@.len() - k,
        {
            let e = &items[k];
            proof {
                lemma_flat_lengths(items@, k + 1);
                lemma_flat_lengths(items@.take(k + 1), k + 1);
                assert(items@.take(k + 1).drop_last() =~= items@.take(k as int));
            }
            let ghost before = data@;
            let mut i: usize = 0;
            while i < e.len
                invariant
                    e.len <= N,
                    i <= e.len,
                    data@ == before + e.data@.take(i as int),
            decreases e.len - i,
            {
                data.push(e.data[i]);
                i += 1;
                assert(e.data@.take(i as int) =~= e.data@.take(i - 1).push(e.data@[i - 1]));
            }
            bits_extend_from_word(&mut valid, e.valid, e.len);
            k += 1;
        }
        assert(items@.take(k as int) =~= items@);
        PrimitiveArray { data, valid }
    }
}

/// Sums a sequence of batches: the lanes of each batch are summed, unused
/// and null lanes included, and the sums of the batches are added in order.
/// Additions wrap around at the bounds of the type.
pub fn sum_batches<T: NativeType, const N: usize>(items: &Vec<BatchItem<T, N>>) -> (r: T)
    ensures
        r == batches_sum(items@),
{
    let mut acc = T::zero();
    let mut k: usize = 0;
    while k < items.len()
        invariant
            k <= items@.len(),
            acc == batches_sum(items@.take(k as int)),
        decreases items@.len() - k,
    {
        let e = &items[k];
        let mut lanes = T::zero();
        let mut i: usize = 0;
        while i < N
            invariant
                i <= N,
                lanes == lane_sum(e.data@.take(i as int)),
            decreases N - i,
        {
            lanes = T::add_wrapping(lanes, e.data[i]);
            i += 1;
            assert(e.data@.take(i as int).drop_last() =~= e.data@.take(i - 1));
        }
        assert(e.data@.take(N as int) =~= e.data@);
        acc = T::add_wrapping(acc, lanes);
        k += 1;
        assert(items@.take(k as int).drop_last() =~= items@.take(k - 1));
    }
    assert(items@.take(k as int) =~= items@);
    acc
}

} // verus!
