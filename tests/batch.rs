use simd_batch::array::PrimitiveArray;
use simd_batch::batch::BatchItem;
use simd_batch::collect::sum_batches;

fn evens_valid(n: u32) -> PrimitiveArray<u32> {
    let v: Vec<Option<u32>> = (0..n)
        .map(|i| if i % 2 == 0 { Some(i) } else { None })
        .collect();
    PrimitiveArray::from_options(&v)
}

#[test]
fn batch_iter() {
    let a = evens_valid(12);
    let mut iter = a.batch_iter::<8>();
    assert_eq!(
        iter.next(),
        Some(BatchItem {
            valid: 0b_0101_0101,
            data: [0, 0, 2, 0, 4, 0, 6, 0],
            len: 8
        })
    );
    assert_eq!(
        iter.next(),
        Some(BatchItem {
            valid: 0b_0000_0101,
            data: [8, 0, 10, 0, 0, 0, 0, 0],
            len: 4
        })
    );
    assert_eq!(iter.next(), None);
}

#[test]
fn batch_iter_collect() {
    let v: Vec<u32> = (0..12).collect();
    let a = PrimitiveArray::from_values(&v);
    let a1 = PrimitiveArray::from_iter(a.batch_iter::<8>().into_vec());
    assert_eq!(a1, a);
}

#[test]
fn batch_sum() {
    let v: Vec<i32> = (0..32).collect();
    let a = PrimitiveArray::from_values(&v);
    assert_eq!(sum_batches(&a.batch_iter::<32>().into_vec()), 496);
}

#[test]
fn empty_array_has_no_batches() {
    let a = PrimitiveArray::<u32>::from_values(&Vec::new());
    assert_eq!(a.len(), 0);
    let mut iter = a.batch_iter::<8>();
    assert_eq!(iter.next(), None);
    assert_eq!(iter.next(), None);
    assert!(a.batch_iter::<64>().into_vec().is_empty());
    let back = PrimitiveArray::from_iter(a.batch_iter::<8>().into_vec());
    assert_eq!(back, a);
}

#[test]
fn batch_count_and_lengths() {
    let a = evens_valid(70);
    let items = a.batch_iter::<16>().into_vec();
    assert_eq!(items.len(), 5);
    for item in &items[..4] {
        assert_eq!(item.len, 16);
    }
    assert_eq!(items[4].len, 6);
    let exact = evens_valid(64).batch_iter::<16>().into_vec();
    assert_eq!(exact.len(), 4);
    assert!(exact.iter().all(|b| b.len == 16));
}

#[test]
fn full_word_mask() {
    let v: Vec<Option<u64>> = (0..64u64)
        .map(|i| if i % 3 == 0 { None } else { Some(i) })
        .collect();
    let a = PrimitiveArray::from_options(&v);
    let mut iter = a.batch_iter::<64>();
    let item = iter.next().unwrap();
    assert_eq!(item.len, 64);
    let mut expected: u64 = 0;
    for i in 0..64 {
        if i % 3 != 0 {
            expected |= 1 << i;
        }
    }
    assert_eq!(item.valid, expected);
    assert_eq!(item.data[0], 0);
    assert_eq!(item.data[1], 1);
    assert_eq!(item.data[63], 0);
    assert_eq!(item.data[62], 62);
    assert_eq!(iter.next(), None);
}

#[test]
fn mask_of_later_batch_reads_its_own_bytes() {
    // Only element 17 is present: it lands in bit 1 of the third batch of 8.
    let v: Vec<Option<u16>> = (0..20u16)
        .map(|i| if i == 17 { Some(7) } else { None })
        .collect();
    let a = PrimitiveArray::from_options(&v);
    let items = a.batch_iter::<8>().into_vec();
    assert_eq!(items.len(), 3);
    assert_eq!(items[0].valid, 0);
    assert_eq!(items[1].valid, 0);
    assert_eq!(items[2].valid, 0b10);
    assert_eq!(items[2].data, [0, 7, 0, 0, 0, 0, 0, 0]);
    assert_eq!(items[2].len, 4);
}

#[test]
fn round_trip_with_nulls() {
    for n in [0u32, 1, 7, 8, 9, 23, 24, 25, 100] {
        let a = evens_valid(n);
        assert_eq!(PrimitiveArray::from_iter(a.batch_iter::<8>().into_vec()), a);
        assert_eq!(PrimitiveArray::from_iter(a.batch_iter::<24>().into_vec()), a);
        assert_eq!(PrimitiveArray::from_iter(a.batch_iter::<64>().into_vec()), a);
    }
}

#[test]
fn collector_keeps_only_len_elements_and_bits() {
    let items = vec![
        BatchItem::<i64, 8> {
            data: [1, 2, 3, 4, 5, 6, 7, 8],
            valid: 0b1111_0101,
            len: 3,
        },
        BatchItem::<i64, 8> {
            data: [9, 10, 0, 0, 0, 0, 0, 0],
            valid: 0b10,
            len: 2,
        },
    ];
    let a = PrimitiveArray::from_iter(items);
    let expected = PrimitiveArray::from_options(&vec![Some(1), None, Some(3), None, Some(10)]);
    // The null slots of `a` keep the lane values 2 and 9, so compare by batch.
    assert_eq!(a.len(), 5);
    let back = a.batch_iter::<8>().into_vec();
    assert_eq!(back.len(), 1);
    assert_eq!(back[0].valid, 0b10101);
    assert_eq!(back[0].data, [1, 2, 3, 9, 10, 0, 0, 0]);
    assert_eq!(expected.batch_iter::<8>().into_vec()[0].valid, 0b10101);
}

#[test]
fn sum_counts_all_lanes_and_wraps() {
    let v: Vec<u8> = vec![200, 100, 1];
    let a = PrimitiveArray::from_values(&v);
    // 301 wraps to 45.
    assert_eq!(sum_batches(&a.batch_iter::<8>().into_vec()), 45);
    let b = PrimitiveArray::from_options(&vec![Some(5i32), None, Some(-3)]);
    assert_eq!(sum_batches(&b.batch_iter::<16>().into_vec()), 2);
    let empty: Vec<BatchItem<i32, 8>> = Vec::new();
    assert_eq!(sum_batches(&empty), 0);
}

#[test]
fn sum_over_several_batches() {
    let v: Vec<i64> = (1..=100).collect();
    let a = PrimitiveArray::from_values(&v);
    assert_eq!(sum_batches(&a.batch_iter::<16>().into_vec()), 5050);
    assert_eq!(sum_batches(&a.batch_iter::<8>().into_vec()), 5050);
}

#[test]
fn extract_bits_reads_from_a_byte_boundary() {
    let v: Vec<Option<u32>> = (0..21u32)
        .map(|i| if i == 8 || i == 10 || i == 15 || i == 16 || i == 20 { Some(i) } else { None })
        .collect();
    let a = PrimitiveArray::from_options(&v);
    assert_eq!(a.extract_bits(8, 13), 0b1_0001_1000_0101);
    assert_eq!(a.extract_bits(8, 3), 0b101);
    assert_eq!(a.extract_bits(16, 5), 0b1_0001);
    assert_eq!(a.extract_bits(0, 8), 0);
    assert_eq!(a.extract_bits(0, 0), 0);
}
