//! A nullable primitive array: a sequence of elements and a validity bitmap
//! of the same length, where a set bit marks a present element.
use crate::bits::{bits_of, bits_push, bits_with_capacity, Bits, MAX_BITS};
use crate::native::NativeType;
use vstd::prelude::*;

verus! {

/// A nullable array of fixed-width elements. A null slot holds the zero value.
#[derive(Debug, PartialEq, Eq)]
pub struct PrimitiveArray<T: NativeType> {
    pub(crate) data: Vec<T>,
    pub(crate) valid: Bits,
}

impl<T: NativeType> PrimitiveArray<T> {
    /// The elements, null slots included.
    pub open(crate) spec fn values(&self) -> Seq<T> {
        self.data@
    }

    /// The validity bits: `true` where the element is present.
    pub open(crate) spec fn validity(&self) -> Seq<bool> {
        bits_of(self.valid)
    }

    /// The elements and the validity bits are equally many, and the bitmap
    /// can hold them.
    pub open(crate) spec fn wf(&self) -> bool {
        &&& self.data@.len() == bits_of(self.valid).len()
        &&& self.data@.len() <= MAX_BITS
    }

    /// Builds an array from optional values: `None` is a null slot, which
    /// holds zero.
    pub fn from_options(items: &Vec<Option<T>>) -> (r: Self)
        requires
            items@.len() <= MAX_BITS,
        ensures
            r.wf(),
            r.values() == items@.map_values(
                |o: Option<T>|
                    match o {
                        Some(x) => x,
                        None => T::zero_spec(),
                    },
            ),
            r.validity() == items@.map_values(|o: Option<T>| o is Some),
    {
        let mut data: Vec<T> = Vec::with_capacity(items.len());
        let mut valid = bits_with_capacity(items.len());
        let mut i: usize = 0;
        while i < items.len()
            invariant
                i <= items@.len() <= MAX_BITS,
                data@ == items@.subrange(0, i as int).map_values(
                    |o: Option<T>|
                        match o {
                            Some(x) => x,
                            None => T::zero_spec(),
                        },
                ),
                bits_of(valid) == items@.subrange(0, i as int).map_values(
                    |o: Option<T>| o is Some,
                ),
            decreases items@.len() - i,
        {
            match items[i] {
                Some(x) => {
                    data.push(x);
                    bits_push(&mut valid, true);
                },
                None => {
                    data.push(T::zero());
                    bits_push(&mut valid, false);
                },
            }
            i += 1;
            assert(items@.subrange(0, i as int).drop_last() =~= items@.subrange(0, i - 1));
        }
        assert(items@.subrange(0, i as int) =~= items@);
        PrimitiveArray { data, valid }
    }

    /// Builds an array in which every element is present.
    pub fn from_values(items: &Vec<T>) -> (r: Self)
        requires
            items@.len() <= MAX_BITS,
        ensures
            r.wf(),
            r.values() == items@,
            r.validity() == Seq::new(items@.len(), |i: int| true),
    {
        let mut data: Vec<T> = Vec::with_capacity(items.len());
        let mut valid = bits_with_capacity(items.len());
        let mut i: usize = 0;
        while i < items.len()
            invariant
                i <= items@.len() <= MAX_BITS,
                data@ == items@.subrange(0, i as int),
                bits_of(valid) == Seq::new(i as nat, |k: int| true),
            decreases items@.len() - i,
        {
            data.push(items[i]);
            bits_push(&mut valid, true);
            i += 1;
            assert(bits_of(valid) =~= Seq::new(i as nat, |k: int| true));
        }
        assert(items@.subrange(0, i as int) =~= items@);
        PrimitiveArray { data, valid }
    }

    /// The number of elements.
    pub fn len(&self) -> (r: usize)
        ensures
            r == self.values().len(),
    {
        self.data.len()
    }
}

} // verus!
