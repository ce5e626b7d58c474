//! The size-to-storage mapping: marker types for the supported bit widths,
//! and the [`Bits`] trait tying each width to its storage representation and
//! to the primitive operations over it.
//!
//! One bit is stored in a `bool`; up to 128 bits in the smallest unsigned
//! integer wide enough (`U10`, for instance, stores its ten bits in a `u16`);
//! larger sizes, at multiples of 128 up to 1024, in a fixed array of `u128`
//! words.

use vstd::prelude::*;
use crate::bitseq::{all_false, count_true};
use crate::words::{bit, word_view, fits, word_get, word_set, word_count, word_first,
    lemma_zero_word_bits, lemma_zero_fits, lemma_fits_widen, arr_bit, arr_view, arr_get, arr_set,
    arr_count, arr_first, arr_eq};

verus! {

broadcast use vstd::array::group_array_axioms;

/// Selects a storage representation for a declared number of bits, and
/// carries the four primitive operations over that representation.
///
/// The view of a store is the sequence of its `spec_size()` addressable
/// bits, lowest index first. `store_ok` states the padding convention: a
/// store is well formed when every bit of its native width beyond the
/// declared size is clear. Every operation here preserves it, and the
/// operations that report on the whole store (`len`, `first_index`) rely
/// on it.
pub trait Bits: Sized {
    /// The concrete storage for `spec_size()` bits.
    type Store: Copy;

    /// The declared number of addressable bits.
    spec fn spec_size() -> nat;

    /// The addressable bits of a store, lowest index first.
    spec fn view_store(s: Self::Store) -> Seq<bool>;

    /// The padding bits of a store, beyond the declared size, are all clear.
    spec fn store_ok(s: Self::Store) -> bool;

    /// A store always views to exactly the declared number of bits, and at
    /// least one bit is declared.
    proof fn lemma_view_len(s: Self::Store)
        ensures
            Self::view_store(s).len() == Self::spec_size(),
            Self::spec_size() >= 1,
    ;

    /// The declared size as a runtime value.
    fn size() -> (n: usize)
        ensures
            n == Self::spec_size(),
    ;

    /// The all-clear store.
    fn empty() -> (s: Self::Store)
        ensures
            Self::store_ok(s),
            Self::view_store(s) == all_false(Self::spec_size()),
    ;

    /// Reads bit `i`.
    fn get(s: &Self::Store, i: usize) -> (b: bool)
        requires
            i < Self::spec_size(),
        ensures
            b == Self::view_store(*s)[i as int],
    ;

    /// Writes bit `i` to `v` and returns the bit's previous value; no other
    /// bit changes.
    fn set(s: &mut Self::Store, i: usize, v: bool) -> (prev: bool)
        requires
            i < Self::spec_size(),
            Self::store_ok(*old(s)),
        ensures
            Self::store_ok(*final(s)),
            Self::view_store(*final(s)) == Self::view_store(*old(s)).update(i as int, v),
            prev == Self::view_store(*old(s))[i as int],
    ;

    /// Counts the true bits.
    fn len(s: &Self::Store) -> (c: usize)
        requires
            Self::store_ok(*s),
        ensures
            c == count_true(Self::view_store(*s)),
    ;

    /// Finds the lowest true bit, if any.
    fn first_index(s: &Self::Store) -> (r: Option<usize>)
        requires
            Self::store_ok(*s),
        ensures
            match r {
                Some(i) => i < Self::spec_size() && Self::view_store(*s)[i as int] && forall|j: int|
                    0 <= j < i ==> !Self::view_store(*s)[j],
                None => forall|j: int| 0 <= j < Self::spec_size() ==> !Self::view_store(*s)[j],
            },
    ;

    /// Compares two stores bitwise.
    fn store_eq(a: &Self::Store, b: &Self::Store) -> (r: bool)
        ensures
            r == (*a == *b),
    ;
}

/// One bit, stored in a `bool`.
pub struct U1;

/// Eight bits, stored in a `u8`.
pub struct U8;

/// Ten bits, stored in the low bits of a `u16`.
pub struct U10;

/// Sixteen bits, stored in a `u16`.
pub struct U16;

/// Thirty-two bits, stored in a `u32`.
pub struct U32;

/// Sixty-four bits, stored in a `u64`.
pub struct U64;

/// One hundred and twenty-eight bits, stored in a `u128`.
pub struct U128;

/// 256 bits, stored in an array of 2 `u128` words.
pub struct U256;

/// 384 bits, stored in an array of 3 `u128` words.
pub struct U384;

/// 512 bits, stored in an array of 4 `u128` words.
pub struct U512;

/// 640 bits, stored in an array of 5 `u128` words.
pub struct U640;

/// 768 bits, stored in an array of 6 `u128` words.
pub struct U768;

/// 896 bits, stored in an array of 7 `u128` words.
pub struct U896;

/// 1024 bits, stored in an array of 8 `u128` words.
pub struct U1024;

impl Bits for U1 {
    type Store = bool;

    open spec fn spec_size() -> nat {
        1
    }

    open spec fn view_store(s: bool) -> Seq<bool> {
        seq![s]
    }

    open spec fn store_ok(s: bool) -> bool {
        true
    }

    proof fn lemma_view_len(s: bool) {
    }

    fn size() -> usize {
        1
    }

    fn empty() -> (s: bool)
    {
        proof {
            assert(seq![false] =~= all_false(1));
        }
        false
    }

    fn get(s: &bool, i: usize) -> (b: bool) {
        *s
    }

    fn set(s: &mut bool, i: usize, v: bool) -> (prev: bool) {
        let prev = *s;
        *s = v;
        proof {
            assert(seq![v] =~= seq![prev].update(0, v));
        }
        prev
    }

    fn len(s: &bool) -> (c: usize) {
        proof {
            let q = seq![*s];
            assert(q.drop_last() =~= Seq::<bool>::empty());
            assert(count_true(q.drop_last()) == 0);
            assert(q.last() == *s);
            assert(count_true(q) == count_true(q.drop_last()) + if q.last() {
                1nat
            } else {
                0nat
            });
        }
        if *s {
            1
        } else {
            0
        }
    }

    fn first_index(s: &bool) -> (r: Option<usize>) {
        if *s {
            Some(0)
        } else {
            None
        }
    }

    fn store_eq(a: &bool, b: &bool) -> (r: bool) {
        *a == *b
    }
}

impl Bits for U8 {
    type Store = u8;

    open spec fn spec_size() -> nat {
        8
    }

    open spec fn view_store(s: u8) -> Seq<bool> {
        word_view(s as u128, 8)
    }

    open spec fn store_ok(s: u8) -> bool {
        true
    }

    proof fn lemma_view_len(s: u8) {
    }

    fn size() -> usize {
        8
    }

    fn empty() -> (s: u8)
    {
        proof {
            assert forall|i: int| 0 <= i < 8 implies !bit(0, i) by {
                lemma_zero_word_bits(i);
            }
            assert(word_view(0, 8) =~= all_false(8));
        }
        0
    }

    fn get(s: &u8, i: usize) -> (b: bool) {
        word_get(*s as u128, i)
    }

    fn set(s: &mut u8, i: usize, v: bool) -> (prev: bool) {
        let w = *s as u128;
        let prev = word_get(w, i);
        let r = word_set(w, i, v);
        proof {
            let y = *old(s);
            assert((y as u128) >> 8u128 == 0) by (bit_vector);
            assert(fits(w, 8));
            assert(fits(r, 8));
            assert(r >> 8u128 == 0 ==> (r as u8) as u128 == r) by (bit_vector);
        }
        *s = r as u8;
        proof {
            assert(Self::view_store(*s) =~= Self::view_store(*old(s)).update(i as int, v));
        }
        prev
    }

    fn len(s: &u8) -> (c: usize) {
        word_count(*s as u128, 8)
    }

    fn first_index(s: &u8) -> (r: Option<usize>) {
        word_first(*s as u128, 8)
    }

    fn store_eq(a: &u8, b: &u8) -> (r: bool) {
        *a == *b
    }
}

impl Bits for U10 {
    type Store = u16;

    open spec fn spec_size() -> nat {
        10
    }

    open spec fn view_store(s: u16) -> Seq<bool> {
        word_view(s as u128, 10)
    }

    open spec fn store_ok(s: u16) -> bool {
        fits(s as u128, 10)
    }

    proof fn lemma_view_len(s: u16) {
    }

    fn size() -> usize {
        10
    }

    fn empty() -> (s: u16)
    {
        proof {
            lemma_zero_fits(10);
            assert forall|i: int| 0 <= i < 10 implies !bit(0, i) by {
                lemma_zero_word_bits(i);
            }
            assert(word_view(0, 10) =~= all_false(10));
        }
        0
    }

    fn get(s: &u16, i: usize) -> (b: bool) {
        word_get(*s as u128, i)
    }

    fn set(s: &mut u16, i: usize, v: bool) -> (prev: bool) {
        let w = *s as u128;
        let prev = word_get(w, i);
        let r = word_set(w, i, v);
        proof {
            assert(fits(w, 10));
            assert(fits(r, 10));
            lemma_fits_widen(r, 10, 16);
            assert(r >> 16u128 == 0 ==> (r as u16) as u128 == r) by (bit_vector);
        }
        *s = r as u16;
        proof {
            assert(Self::view_store(*s) =~= Self::view_store(*old(s)).update(i as int, v));
        }
        prev
    }

    fn len(s: &u16) -> (c: usize) {
        word_count(*s as u128, 10)
    }

    fn first_index(s: &u16) -> (r: Option<usize>) {
        word_first(*s as u128, 10)
    }

    fn store_eq(a: &u16, b: &u16) -> (r: bool) {
        *a == *b
    }
}

impl Bits for U16 {
    type Store = u16;

    open spec fn spec_size() -> nat {
        16
    }

    open spec fn view_store(s: u16) -> Seq<bool> {
        word_view(s as u128, 16)
    }

    open spec fn store_ok(s: u16) -> bool {
        true
    }

    proof fn lemma_view_len(s: u16) {
    }

    fn size() -> usize {
        16
    }

    fn empty() -> (s: u16)
    {
        proof {
            assert forall|i: int| 0 <= i < 16 implies !bit(0, i) by {
                lemma_zero_word_bits(i);
            }
            assert(word_view(0, 16) =~= all_false(16));
        }
        0
    }

    fn get(s: &u16, i: usize) -> (b: bool) {
        word_get(*s as u128, i)
    }

    fn set(s: &mut u16, i: usize, v: bool) -> (prev: bool) {
        let w = *s as u128;
        let prev = word_get(w, i);
        let r = word_set(w, i, v);
        proof {
            let y = *old(s);
            assert((y as u128) >> 16u128 == 0) by (bit_vector);
            assert(fits(w, 16));
            assert(fits(r, 16));
            assert(r >> 16u128 == 0 ==> (r as u16) as u128 == r) by (bit_vector);
        }
        *s = r as u16;
        proof {
            assert(Self::view_store(*s) =~= Self::view_store(*old(s)).update(i as int, v));
        }
        prev
    }

    fn len(s: &u16) -> (c: usize) {
        word_count(*s as u128, 16)
    }

    fn first_index(s: &u16) -> (r: Option<usize>) {
        word_first(*s as u128, 16)
    }

    fn store_eq(a: &u16, b: &u16) -> (r: bool) {
        *a == *b
    }
}

impl Bits for U32 {
    type Store = u32;

    open spec fn spec_size() -> nat {
        32
    }

    open spec fn view_store(s: u32) -> Seq<bool> {
        word_view(s as u128, 32)
    }

    open spec fn store_ok(s: u32) -> bool {
        true
    }

    proof fn lemma_view_len(s: u32) {
    }

    fn size() -> usize {
        32
    }

    fn empty() -> (s: u32)
    {
        proof {
            assert forall|i: int| 0 <= i < 32 implies !bit(0, i) by {
                lemma_zero_word_bits(i);
            }
            assert(word_view(0, 32) =~= all_false(32));
        }
        0
    }

    fn get(s: &u32, i: usize) -> (b: bool) {
        word_get(*s as u128, i)
    }

    fn set(s: &mut u32, i: usize, v: bool) -> (prev: bool) {
        let w = *s as u128;
        let prev = word_get(w, i);
        let r = word_set(w, i, v);
        proof {
            let y = *old(s);
            assert((y as u128) >> 32u128 == 0) by (bit_vector);
            assert(fits(w, 32));
            assert(fits(r, 32));
            assert(r >> 32u128 == 0 ==> (r as u32) as u128 == r) by (bit_vector);
        }
        *s = r as u32;
        proof {
            assert(Self::view_store(*s) =~= Self::view_store(*old(s)).update(i as int, v));
        }
        prev
    }

    fn len(s: &u32) -> (c: usize) {
        word_count(*s as u128, 32)
    }

    fn first_index(s: &u32) -> (r: Option<usize>) {
        word_first(*s as u128, 32)
    }

    fn store_eq(a: &u32, b: &u32) -> (r: bool) {
        *a == *b
    }
}

impl Bits for U128 {
    type Store = u128;

    open spec fn spec_size() -> nat {
        128
    }

    open spec fn view_store(s: u128) -> Seq<bool> {
        word_view(s, 128)
    }

    open spec fn store_ok(s: u128) -> bool {
        true
    }

    proof fn lemma_view_len(s: u128) {
    }

    fn size() -> usize {
        128
    }

    fn empty() -> (s: u128)
    {
        proof {
            assert forall|i: int| 0 <= i < 128 implies !bit(0, i) by {
                lemma_zero_word_bits(i);
            }
            assert(word_view(0, 128) =~= all_false(128));
        }
        0
    }

    fn get(s: &u128, i: usize) -> (b: bool) {
        word_get(*s, i)
    }

    fn set(s: &mut u128, i: usize, v: bool) -> (prev: bool) {
        let prev = word_get(*s, i);
        let r = word_set(*s, i, v);
        *s = r;
        proof {
            assert(Self::view_store(*s) =~= Self::view_store(*old(s)).update(i as int, v));
        }
        prev
    }

    fn len(s: &u128) -> (c: usize) {
        word_count(*s, 128)
    }

    fn first_index(s: &u128) -> (r: Option<usize>) {
        word_first(*s, 128)
    }

    fn store_eq(a: &u128, b: &u128) -> (r: bool) {
        *a == *b
    }
}

impl Bits for U64 {
    type Store = u64;

    open spec fn spec_size() -> nat {
        64
    }

    open spec fn view_store(s: u64) -> Seq<bool> {
        word_view(s as u128, 64)
    }

    open spec fn store_ok(s: u64) -> bool {
        true
    }

    proof fn lemma_view_len(s: u64) {
    }

    fn size() -> usize {
        64
    }

    fn empty() -> (s: u64)
    {
        proof {
            assert forall|i: int| 0 <= i < 64 implies !bit(0, i) by {
                lemma_zero_word_bits(i);
            }
            assert(word_view(0, 64) =~= all_false(64));
        }
        0
    }

    fn get(s: &u64, i: usize) -> (b: bool) {
        word_get(*s as u128, i)
    }

    fn set(s: &mut u64, i: usize, v: bool) -> (prev: bool) {
        let w = *s as u128;
        let prev = word_get(w, i);
        let r = word_set(w, i, v);
        proof {
            let y = *old(s);
            assert((y as u128) >> 64u128 == 0) by (bit_vector);
            assert(fits(w, 64));
            assert(fits(r, 64));
            assert(r >> 64u128 == 0 ==> (r as u64) as u128 == r) by (bit_vector);
        }
        *s = r as u64;
        proof {
            assert(Self::view_store(*s) =~= Self::view_store(*old(s)).update(i as int, v));
        }
        prev
    }

    fn len(s: &u64) -> (c: usize) {
        word_count(*s as u128, 64)
    }

    fn first_index(s: &u64) -> (r: Option<usize>) {
        word_first(*s as u128, 64)
    }

    fn store_eq(a: &u64, b: &u64) -> (r: bool) {
        *a == *b
    }
}


impl Bits for U256 {
    type Store = [u128; 2];

    open spec fn spec_size() -> nat {
        256
    }

    open spec fn view_store(s: [u128; 2]) -> Seq<bool> {
        arr_view(s)
    }

    open spec fn store_ok(s: [u128; 2]) -> bool {
        true
    }

    proof fn lemma_view_len(s: [u128; 2]) {
    }

    fn size() -> usize {
        256
    }

    fn empty() -> (s: [u128; 2])
    {
        let s = [0u128; 2];
        proof {
            assert forall|i: int| 0 <= i < 256 implies !arr_bit(s, i) by {
                lemma_zero_word_bits(i % 128);
            }
            assert(arr_view(s) =~= all_false(256));
        }
        s
    }

    fn get(s: &[u128; 2], i: usize) -> (b: bool) {
        arr_get(s, i)
    }

    fn set(s: &mut [u128; 2], i: usize, v: bool) -> (prev: bool) {
        let prev = arr_set(s, i, v);
        proof {
            assert(Self::view_store(*s) =~= Self::view_store(*old(s)).update(i as int, v));
        }
        prev
    }

    fn len(s: &[u128; 2]) -> (c: usize) {
        arr_count(s)
    }

    fn first_index(s: &[u128; 2]) -> (r: Option<usize>) {
        arr_first(s)
    }

    fn store_eq(a: &[u128; 2], b: &[u128; 2]) -> (r: bool) {
        arr_eq(a, b)
    }
}

impl Bits for U384 {
    type Store = [u128; 3];

    open spec fn spec_size() -> nat {
        384
    }

    open spec fn view_store(s: [u128; 3]) -> Seq<bool> {
        arr_view(s)
    }

    open spec fn store_ok(s: [u128; 3]) -> bool {
        true
    }

    proof fn lemma_view_len(s: [u128; 3]) {
    }

    fn size() -> usize {
        384
    }

    fn empty() -> (s: [u128; 3])
    {
        let s = [0u128; 3];
        proof {
            assert forall|i: int| 0 <= i < 384 implies !arr_bit(s, i) by {
                lemma_zero_word_bits(i % 128);
            }
            assert(arr_view(s) =~= all_false(384));
        }
        s
    }

    fn get(s: &[u128; 3], i: usize) -> (b: bool) {
        arr_get(s, i)
    }

    fn set(s: &mut [u128; 3], i: usize, v: bool) -> (prev: bool) {
        let prev = arr_set(s, i, v);
        proof {
            assert(Self::view_store(*s) =~= Self::view_store(*old(s)).update(i as int, v));
        }
        prev
    }

    fn len(s: &[u128; 3]) -> (c: usize) {
        arr_count(s)
    }

    fn first_index(s: &[u128; 3]) -> (r: Option<usize>) {
        arr_first(s)
    }

    fn store_eq(a: &[u128; 3], b: &[u128; 3]) -> (r: bool) {
        arr_eq(a, b)
    }
}

impl Bits for U512 {
    type Store = [u128; 4];

    open spec fn spec_size() -> nat {
        512
    }

    open spec fn view_store(s: [u128; 4]) -> Seq<bool> {
        arr_view(s)
    }

    open spec fn store_ok(s: [u128; 4]) -> bool {
        true
    }

    proof fn lemma_view_len(s: [u128; 4]) {
    }

    fn size() -> usize {
        512
    }

    fn empty() -> (s: [u128; 4])
    {
        let s = [0u128; 4];
        proof {
            assert forall|i: int| 0 <= i < 512 implies !arr_bit(s, i) by {
                lemma_zero_word_bits(i % 128);
            }
            assert(arr_view(s) =~= all_false(512));
        }
        s
    }

    fn get(s: &[u128; 4], i: usize) -> (b: bool) {
        arr_get(s, i)
    }

    fn set(s: &mut [u128; 4], i: usize, v: bool) -> (prev: bool) {
        let prev = arr_set(s, i, v);
        proof {
            assert(Self::view_store(*s) =~= Self::view_store(*old(s)).update(i as int, v));
        }
        prev
    }

    fn len(s: &[u128; 4]) -> (c: usize) {
        arr_count(s)
    }

    fn first_index(s: &[u128; 4]) -> (r: Option<usize>) {
        arr_first(s)
    }

    fn store_eq(a: &[u128; 4], b: &[u128; 4]) -> (r: bool) {
        arr_eq(a, b)
    }
}

impl Bits for U640 {
    type Store = [u128; 5];

    open spec fn spec_size() -> nat {
        640
    }

    open spec fn view_store(s: [u128; 5]) -> Seq<bool> {
        arr_view(s)
    }

    open spec fn store_ok(s: [u128; 5]) -> bool {
        true
    }

    proof fn lemma_view_len(s: [u128; 5]) {
    }

    fn size() -> usize {
        640
    }

    fn empty() -> (s: [u128; 5])
    {
        let s = [0u128; 5];
        proof {
            assert forall|i: int| 0 <= i < 640 implies !arr_bit(s, i) by {
                lemma_zero_word_bits(i % 128);
            }
            assert(arr_view(s) =~= all_false(640));
        }
        s
    }

    fn get(s: &[u128; 5], i: usize) -> (b: bool) {
        arr_get(s, i)
    }

    fn set(s: &mut [u128; 5], i: usize, v: bool) -> (prev: bool) {
        let prev = arr_set(s, i, v);
        proof {
            assert(Self::view_store(*s) =~= Self::view_store(*old(s)).update(i as int, v));
        }
        prev
    }

    fn len(s: &[u128; 5]) -> (c: usize) {
        arr_count(s)
    }

    fn first_index(s: &[u128; 5]) -> (r: Option<usize>) {
        arr_first(s)
    }

    fn store_eq(a: &[u128; 5], b: &[u128; 5]) -> (r: bool) {
        arr_eq(a, b)
    }
}

impl Bits for U768 {
    type Store = [u128; 6];

    open spec fn spec_size() -> nat {
        768
    }

    open spec fn view_store(s: [u128; 6]) -> Seq<bool> {
        arr_view(s)
    }

    open spec fn store_ok(s: [u128; 6]) -> bool {
        true
    }

    proof fn lemma_view_len(s: [u128; 6]) {
    }

    fn size() -> usize {
        768
    }

    fn empty() -> (s: [u128; 6])
    {
        let s = [0u128; 6];
        proof {
            assert forall|i: int| 0 <= i < 768 implies !arr_bit(s, i) by {
                lemma_zero_word_bits(i % 128);
            }
            assert(arr_view(s) =~= all_false(768));
        }
        s
    }

    fn get(s: &[u128; 6], i: usize) -> (b: bool) {
        arr_get(s, i)
    }

    fn set(s: &mut [u128; 6], i: usize, v: bool) -> (prev: bool) {
        let prev = arr_set(s, i, v);
        proof {
            assert(Self::view_store(*s) =~= Self::view_store(*old(s)).update(i as int, v));
        }
        prev
    }

    fn len(s: &[u128; 6]) -> (c: usize) {
        arr_count(s)
    }

    fn first_index(s: &[u128; 6]) -> (r: Option<usize>) {
        arr_first(s)
    }

    fn store_eq(a: &[u128; 6], b: &[u128; 6]) -> (r: bool) {
        arr_eq(a, b)
    }
}

impl Bits for U896 {
    type Store = [u128; 7];

    open spec fn spec_size() -> nat {
        896
    }

    open spec fn view_store(s: [u128; 7]) -> Seq<bool> {
        arr_view(s)
    }

    open spec fn store_ok(s: [u128; 7]) -> bool {
        true
    }

    proof fn lemma_view_len(s: [u128; 7]) {
    }

    fn size() -> usize {
        896
    }

    fn empty() -> (s: [u128; 7])
    {
        let s = [0u128; 7];
        proof {
            assert forall|i: int| 0 <= i < 896 implies !arr_bit(s, i) by {
                lemma_zero_word_bits(i % 128);
            }
            assert(arr_view(s) =~= all_false(896));
        }
        s
    }

    fn get(s: &[u128; 7], i: usize) -> (b: bool) {
        arr_get(s, i)
    }

    fn set(s: &mut [u128; 7], i: usize, v: bool) -> (prev: bool) {
        let prev = arr_set(s, i, v);
        proof {
            assert(Self::view_store(*s) =~= Self::view_store(*old(s)).update(i as int, v));
        }
        prev
    }

    fn len(s: &[u128; 7]) -> (c: usize) {
        arr_count(s)
    }

    fn first_index(s: &[u128; 7]) -> (r: Option<usize>) {
        arr_first(s)
    }

    fn store_eq(a: &[u128; 7], b: &[u128; 7]) -> (r: bool) {
        arr_eq(a, b)
    }
}

impl Bits for U1024 {
    type Store = [u128; 8];

    open spec fn spec_size() -> nat {
        1024
    }

    open spec fn view_store(s: [u128; 8]) -> Seq<bool> {
        arr_view(s)
    }

    open spec fn store_ok(s: [u128; 8]) -> bool {
        true
    }

    proof fn lemma_view_len(s: [u128; 8]) {
    }

    fn size() -> usize {
        1024
    }

    fn empty() -> (s: [u128; 8])
    {
        let s = [0u128; 8];
        proof {
            assert forall|i: int| 0 <= i < 1024 implies !arr_bit(s, i) by {
                lemma_zero_word_bits(i % 128);
            }
            assert(arr_view(s) =~= all_false(1024));
        }
        s
    }

    fn get(s: &[u128; 8], i: usize) -> (b: bool) {
        arr_get(s, i)
    }

    fn set(s: &mut [u128; 8], i: usize, v: bool) -> (prev: bool) {
        let prev = arr_set(s, i, v);
        proof {
            assert(Self::view_store(*s) =~= Self::view_store(*old(s)).update(i as int, v));
        }
        prev
    }

    fn len(s: &[u128; 8]) -> (c: usize) {
        arr_count(s)
    }

    fn first_index(s: &[u128; 8]) -> (r: Option<usize>) {
        arr_first(s)
    }

    fn store_eq(a: &[u128; 8], b: &[u128; 8]) -> (r: bool) {
        arr_eq(a, b)
    }
}

} // verus!
