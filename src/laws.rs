//! Laws that relate the iterator to the collector.
use crate::array::PrimitiveArray;
use crate::batch::{batch_count, is_batch, supported_width, BatchItem};
use crate::collect::{flat_validity, flat_values};
use crate::native::NativeType;
use vstd::arithmetic::div_mod::lemma_fundamental_div_mod;
use vstd::prelude::*;

verus! {

proof fn lemma_count_bounds(l: int, n: int, k: int)
    requires
        n > 0,
        l >= 0,
        0 <= k < batch_count(l, n),
    ensures
        k * n < l,
        (k + 1) * n == k * n + n,
        l <= batch_count(l, n) * n,
{
    let c = batch_count(l, n);
    lemma_fundamental_div_mod(l + n - 1, n);
    let r = (l + n - 1) % n;
    assert(l + n - 1 == n * c + r);
    assert(k * n <= (c - 1) * n) by (nonlinear_arith)
        requires
            k <= c - 1,
            n > 0,
    ;
    assert((c - 1) * n == c * n - n) by (nonlinear_arith);
    assert(n * c == c * n) by (nonlinear_arith);
    assert((k + 1) * n == k * n + n) by (nonlinear_arith);
}

proof fn lemma_round_trip_prefix<T: NativeType, const N: usize>(
    values: Seq<T>,
    validity: Seq<bool>,
    items: Seq<BatchItem<T, N>>,
    k: int,
)
    requires
        supported_width(N as int),
        validity.len() == values.len(),
        items.len() == batch_count(values.len() as int, N as int),
        forall|j: int| 0 <= j < items.len() ==> is_batch(values, validity, j * N, #[trigger] items[j]),
        0 <= k <= items.len(),
    ensures
        k < items.len() ==> flat_values(items.take(k)) == values.take(k * N) && flat_validity(
            items.take(k),
        ) == validity.take(k * N),
        k == items.len() ==> flat_values(items.take(k)) == values && flat_validity(items.take(k))
            == validity,
    decreases k,
{
    let l = values.len() as int;
    let n = N as int;
    if k == 0 {
        assert(items.take(0) =~= Seq::<BatchItem<T, N>>::empty());
        if items.len() == 0 {
            assert(values =~= Seq::<T>::empty()) by {
                if l > 0 {
                    lemma_fundamental_div_mod(l + n - 1, n);
                    assert(n * 0 == 0);
                }
            }
            assert(validity =~= Seq::<bool>::empty());
        }
        assert(values.take(0) =~= Seq::<T>::empty());
        assert(validity.take(0) =~= Seq::<bool>::empty());
    } else {
        lemma_round_trip_prefix(values, validity, items, k - 1);
        lemma_count_bounds(l, n, k - 1);
        let start = (k - 1) * n;
        let e = items[k - 1];
        assert(is_batch(values, validity, start, e));
        assert(items.take(k).drop_last() =~= items.take(k - 1));
        assert(items.take(k).last() == e);
        let len = e.len as int;
        let end = start + len;
        assert(flat_values(items.take(k)) =~= values.take(end)) by {
            assert(e.elements() =~= values.subrange(start, end));
        }
        assert(flat_validity(items.take(k)) =~= validity.take(end)) by {
            assert forall|i: int| 0 <= i < len implies #[trigger] e.valid_bits()[i] == validity[start
                + i] by {
                assert(crate::bits::bit_of(e.valid, i) == (i < len && validity[start + i]));
            }
            assert(e.valid_bits() =~= validity.subrange(start, end));
        }
        if k < items.len() {
            lemma_count_bounds(l, n, k);
            assert(end == k * n);
        } else {
            assert(l <= k * n);
            assert(end == l);
            assert(values.take(l) =~= values);
            assert(validity.take(l) =~= validity);
        }
    }
}

/// Collecting every batch of an array gives the array back: the batches of
/// width `N` that start at `0, N, 2N, ...` hold, one after the other, exactly
/// the array's elements and validity bits.
pub proof fn lemma_round_trip<T: NativeType, const N: usize>(
    a: PrimitiveArray<T>,
    items: Seq<BatchItem<T, N>>,
)
    requires
        a.wf(),
        supported_width(N as int),
        items.len() == batch_count(a.values().len() as int, N as int),
        forall|j: int|
            0 <= j < items.len() ==> is_batch(a.values(), a.validity(), j * N, #[trigger] items[j]),
    ensures
        flat_values(items) == a.values(),
        flat_validity(items) == a.validity(),
{
    lemma_round_trip_prefix(a.values(), a.validity(), items, items.len() as int);
    assert(items.take(items.len() as int) =~= items);
}

/// An array of `L` elements has `ceil(L / N)` batches of width `N`: all but
/// the last hold `N` elements, and the last holds the rest.
pub proof fn lemma_batch_shape<T: NativeType, const N: usize>(
    a: PrimitiveArray<T>,
    items: Seq<BatchItem<T, N>>,
)
    requires
        a.wf(),
        supported_width(N as int),
        items.len() == batch_count(a.values().len() as int, N as int),
        forall|j: int|
            0 <= j < items.len() ==> is_batch(a.values(), a.validity(), j * N, #[trigger] items[j]),
    ensures
        forall|j: int| 0 <= j < items.len() - 1 ==> (#[trigger] items[j]).len == N,
        items.len() > 0 ==> items.last().len == a.values().len() - N * (items.len() - 1),
        a.values().len() == 0 <==> items.len() == 0,
{
    let l = a.values().len() as int;
    let n = N as int;
    assert forall|j: int| 0 <= j < items.len() - 1 implies (#[trigger] items[j]).len == N by {
        lemma_count_bounds(l, n, j + 1);
        lemma_count_bounds(l, n, j);
        assert(is_batch(a.values(), a.validity(), j * N, items[j]));
    }
    if items.len() > 0 {
        let c = items.len() as int;
        lemma_count_bounds(l, n, c - 1);
        assert(is_batch(a.values(), a.validity(), (c - 1) * N, items[c - 1]));
        assert(n * (c - 1) == (c - 1) * n) by (nonlinear_arith);
    }
    if l > 0 {
        lemma_fundamental_div_mod(l + n - 1, n);
        assert(n * 0 == 0);
    } else {
        assert((n - 1) / n == 0);
    }
}

} // verus!
