//! The bitmap value type and its iterator over set bits.

use vstd::prelude::*;
use crate::bitseq::{all_false, count_true, true_positions, lemma_count_true_zero};
use crate::types::{Bits, U256, U384, U512, U640, U768, U896, U1024};

verus! {

/// A compact array of bits.
///
/// The number of bits is fixed at compile time by the `Size` marker, which
/// also selects the storage: the smallest unsigned integer type that fits
/// the bits, `bool` for a single bit, or an array of `u128` words beyond
/// 128 bits. A bitmap is a plain value: copied on use, owning no resource.
///
/// The view of a bitmap is the sequence of its bits, lowest index first.
/// A bitmap is well formed ([`Bitmap::wf`]) when the padding bits of its
/// storage, beyond the declared size, are all clear; every constructor
/// establishes this and every operation preserves it.
pub struct Bitmap<Size: Bits> {
    /// The backing store; its padding bits are clear in every well-formed
    /// bitmap.
    pub data: Size::Store,
}

impl<Size: Bits> View for Bitmap<Size> {
    type V = Seq<bool>;

    open spec fn view(&self) -> Seq<bool> {
        Size::view_store(self.data)
    }
}

impl<Size: Bits> Clone for Bitmap<Size> {
    fn clone(&self) -> (r: Self)
        ensures
            r == *self,
    {
        Bitmap { data: self.data }
    }
}

impl<Size: Bits> Copy for Bitmap<Size> {

}

impl<Size: Bits> PartialEq for Bitmap<Size> {
    fn eq(&self, other: &Self) -> (r: bool) {
        Size::store_eq(&self.data, &other.data)
    }
}

impl<Size: Bits> vstd::std_specs::cmp::PartialEqSpecImpl for Bitmap<Size> {
    open spec fn obeys_eq_spec() -> bool {
        true
    }

    open spec fn eq_spec(&self, other: &Self) -> bool {
        self.data == other.data
    }
}

impl<Size: Bits> Default for Bitmap<Size> {
    /// Constructs the all-false bitmap.
    fn default() -> (r: Self)
        ensures
            r.wf(),
            r@ == all_false(Size::spec_size()),
    {
        Bitmap { data: Size::empty() }
    }
}

impl<Size: Bits> Bitmap<Size> {
    /// The padding bits of the storage, beyond the declared size, are all
    /// clear.
    pub open spec fn wf(self) -> bool {
        Size::store_ok(self.data)
    }

    /// What `from_value` constructs: the given storage, wrapped verbatim.
    pub open spec fn spec_from_value(data: Size::Store) -> Bitmap<Size> {
        Bitmap { data }
    }

    /// What `into_value` returns: the wrapped storage, verbatim.
    pub open spec fn spec_into_value(self) -> Size::Store {
        self.data
    }

    /// The view of a bitmap always holds exactly the declared number of
    /// bits.
    pub proof fn lemma_view_is_size(self)
        ensures
            self@.len() == Size::spec_size(),
    {
        Size::lemma_view_len(self.data);
    }

    /// Construct a bitmap with every bit set to `false`.
    pub fn new() -> (r: Self)
        ensures
            r.wf(),
            r@ == all_false(Size::spec_size()),
    {
        Self::default()
    }

    /// Construct a bitmap from a value of the same type as its backing
    /// store. The value's padding bits, beyond the declared size, must be
    /// clear.
    #[verifier::when_used_as_spec(spec_from_value)]
    pub fn from_value(data: Size::Store) -> (r: Self)
        requires
            Size::store_ok(data),
        ensures
            r == Self::spec_from_value(data),
            r.wf(),
            r@ == Size::view_store(data),
    {
        Bitmap { data }
    }

    /// Convert this bitmap into a value of the type of its backing store.
    #[verifier::when_used_as_spec(spec_into_value)]
    pub fn into_value(self) -> (r: Size::Store)
        ensures
            r == self.spec_into_value(),
            Size::view_store(r) == self@,
            self.wf() ==> Size::store_ok(r),
    {
        self.data
    }

    /// Count the number of `true` bits in the bitmap.
    pub fn len(self) -> (c: usize)
        requires
            self.wf(),
        ensures
            c == count_true(self@),
    {
        Size::len(&self.data)
    }

    /// Test if the bitmap contains only `false` bits.
    pub fn is_empty(self) -> (r: bool)
        requires
            self.wf(),
        ensures
            r == (forall|i: int| 0 <= i < self@.len() ==> !self@[i]),
            r == (count_true(self@) == 0),
    {
        proof {
            Size::lemma_view_len(self.data);
            lemma_count_true_zero(self@);
        }
        match self.first_index() {
            Some(i) => {
                proof {
                    assert(self@[i as int]);
                }
                false
            },
            None => true,
        }
    }

    /// Get the value of the bit at a given index.
    pub fn get(self, index: usize) -> (b: bool)
        requires
            index < Size::spec_size(),
        ensures
            b == self@[index as int],
    {
        Size::get(&self.data, index)
    }

    /// Set the value of the bit at a given index.
    ///
    /// Returns the previous value of the bit.
    pub fn set(&mut self, index: usize, value: bool) -> (prev: bool)
        requires
            index < Size::spec_size(),
            old(self).wf(),
        ensures
            final(self).wf(),
            final(self)@ == old(self)@.update(index as int, value),
            prev == old(self)@[index as int],
    {
        Size::set(&mut self.data, index, value)
    }

    /// Find the index of the first `true` bit in the bitmap.
    pub fn first_index(self) -> (r: Option<usize>)
        requires
            self.wf(),
        ensures
            match r {
                Some(i) => i < Size::spec_size() && self@[i as int] && forall|j: int| 0 <= j < i
                    ==> !self@[j],
                None => forall|j: int| 0 <= j < Size::spec_size() ==> !self@[j],
            },
    {
        Size::first_index(&self.data)
    }

    /// An iterator over the indices of the `true` bits, in ascending order.
    ///
    /// The iterator scans a copy of the bitmap's storage: consuming it does
    /// not touch the bitmap it came from.
    pub fn into_iter(self) -> (it: Iter<Size>)
        ensures
            it.bits() == self@,
            it.pos() == 0,
            it.remaining() == true_positions(self@, 0),
    {
        Iter { index: 0, data: self.data }
    }
}

/// An iterator over the indices in a bitmap which are `true`.
///
/// It yields each such index once, in ascending order, and then `None`
/// forever. [`Iter::remaining`] names the indices still to come:
/// every yield returns the head of that sequence.
pub struct Iter<Size: Bits> {
    index: usize,
    data: Size::Store,
}

impl<Size: Bits> Iter<Size> {
    /// The bits being scanned.
    pub closed spec fn bits(self) -> Seq<bool> {
        Size::view_store(self.data)
    }

    /// The scan position: bits below it have already been passed over.
    pub closed spec fn pos(self) -> int {
        self.index as int
    }

    /// The indices of true bits at or after the scan position, in ascending
    /// order: exactly what is still to be yielded.
    pub open spec fn remaining(self) -> Seq<int> {
        true_positions(self.bits(), self.pos())
    }

    /// Yield the next index holding a `true` bit, if any remains.
    pub fn next(&mut self) -> (r: Option<usize>)
        ensures
            final(self).bits() == old(self).bits(),
            match r {
                Some(i) => old(self).remaining().len() > 0 && i as int == old(self).remaining()[0]
                    && final(self).remaining() == old(self).remaining().drop_first(),
                None => old(self).remaining().len() == 0 && final(self).remaining().len() == 0,
            },
    {
        let n = Size::size();
        proof {
            Size::lemma_view_len(self.data);
        }
        while self.index < n
            invariant
                n == Size::spec_size(),
                self.data == old(self).data,
                Size::view_store(self.data).len() == n,
                true_positions(Size::view_store(self.data), old(self).index as int)
                    == true_positions(Size::view_store(self.data), self.index as int),
            decreases n - self.index,
        {
            let i = self.index;
            let yielded = Size::get(&self.data, i);
            self.index = i + 1;
            if yielded {
                proof {
                    let s = Size::view_store(self.data);
                    assert(true_positions(s, i as int) == seq![i as int] + true_positions(s, i
                        + 1));
                    assert((seq![i as int] + true_positions(s, i + 1)).drop_first()
                        =~= true_positions(s, i + 1));
                }
                return Some(i);
            }
        }
        None
    }
}


impl From<[u128; 2]> for Bitmap<U256> {
    /// Wraps a raw array of 2 words as a 256-bit bitmap, verbatim.
    fn from(data: [u128; 2]) -> (r: Self) {
        Bitmap { data }
    }
}

impl vstd::std_specs::convert::FromSpecImpl<[u128; 2]> for Bitmap<U256> {
    open spec fn obeys_from_spec() -> bool {
        true
    }

    open spec fn from_spec(data: [u128; 2]) -> Self {
        Bitmap { data }
    }
}

impl From<[u128; 3]> for Bitmap<U384> {
    /// Wraps a raw array of 3 words as a 384-bit bitmap, verbatim.
    fn from(data: [u128; 3]) -> (r: Self) {
        Bitmap { data }
    }
}

impl vstd::std_specs::convert::FromSpecImpl<[u128; 3]> for Bitmap<U384> {
    open spec fn obeys_from_spec() -> bool {
        true
    }

    open spec fn from_spec(data: [u128; 3]) -> Self {
        Bitmap { data }
    }
}

impl From<[u128; 4]> for Bitmap<U512> {
    /// Wraps a raw array of 4 words as a 512-bit bitmap, verbatim.
    fn from(data: [u128; 4]) -> (r: Self) {
        Bitmap { data }
    }
}

impl vstd::std_specs::convert::FromSpecImpl<[u128; 4]> for Bitmap<U512> {
    open spec fn obeys_from_spec() -> bool {
        true
    }

    open spec fn from_spec(data: [u128; 4]) -> Self {
        Bitmap { data }
    }
}

impl From<[u128; 5]> for Bitmap<U640> {
    /// Wraps a raw array of 5 words as a 640-bit bitmap, verbatim.
    fn from(data: [u128; 5]) -> (r: Self) {
        Bitmap { data }
    }
}

impl vstd::std_specs::convert::FromSpecImpl<[u128; 5]> for Bitmap<U640> {
    open spec fn obeys_from_spec() -> bool {
        true
    }

    open spec fn from_spec(data: [u128; 5]) -> Self {
        Bitmap { data }
    }
}

impl From<[u128; 6]> for Bitmap<U768> {
    /// Wraps a raw array of 6 words as a 768-bit bitmap, verbatim.
    fn from(data: [u128; 6]) -> (r: Self) {
        Bitmap { data }
    }
}

impl vstd::std_specs::convert::FromSpecImpl<[u128; 6]> for Bitmap<U768> {
    open spec fn obeys_from_spec() -> bool {
        true
    }

    open spec fn from_spec(data: [u128; 6]) -> Self {
        Bitmap { data }
    }
}

impl From<[u128; 7]> for Bitmap<U896> {
    /// Wraps a raw array of 7 words as a 896-bit bitmap, verbatim.
    fn from(data: [u128; 7]) -> (r: Self) {
        Bitmap { data }
    }
}

impl vstd::std_specs::convert::FromSpecImpl<[u128; 7]> for Bitmap<U896> {
    open spec fn obeys_from_spec() -> bool {
        true
    }

    open spec fn from_spec(data: [u128; 7]) -> Self {
        Bitmap { data }
    }
}

impl From<[u128; 8]> for Bitmap<U1024> {
    /// Wraps a raw array of 8 words as a 1024-bit bitmap, verbatim.
    fn from(data: [u128; 8]) -> (r: Self) {
        Bitmap { data }
    }
}

impl vstd::std_specs::convert::FromSpecImpl<[u128; 8]> for Bitmap<U1024> {
    open spec fn obeys_from_spec() -> bool {
        true
    }

    open spec fn from_spec(data: [u128; 8]) -> Self {
        Bitmap { data }
    }
}

} // verus!
