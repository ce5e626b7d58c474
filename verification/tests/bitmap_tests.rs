use bitmaps::Bitmap;
use bitmaps::{U1, U10, U1024, U128, U16, U256, U32, U384, U512, U64, U640, U768, U8, U896};

fn collect_indices<S: bitmaps::Bits>(b: Bitmap<S>) -> Vec<usize> {
    let mut out = Vec::new();
    let mut it = b.into_iter();
    while let Some(i) = it.next() {
        out.push(i);
    }
    out
}

#[test]
fn get_set_and_iter_64() {
    let bits: Vec<usize> = vec![0, 1, 7, 13, 31, 32, 40, 63];
    let mut bitmap = Bitmap::<U64>::new();
    for i in &bits {
        bitmap.set(*i, true);
    }
    for i in 0..64 {
        assert_eq!(bitmap.get(i), bits.contains(&i));
    }
    assert_eq!(collect_indices(bitmap), bits);
}

#[test]
fn get_set_and_iter_1024() {
    let bits: Vec<usize> = vec![0, 5, 127, 128, 129, 255, 256, 500, 511, 512, 767, 768, 1000, 1023];
    let mut bitmap = Bitmap::<U1024>::new();
    for i in &bits {
        bitmap.set(*i, true);
    }
    for i in 0..1024 {
        assert_eq!(bitmap.get(i), bits.contains(&i));
    }
    assert_eq!(collect_indices(bitmap), bits);
}

#[test]
fn scenario_size_10() {
    let mut bitmap: Bitmap<U10> = Bitmap::new();
    assert!(bitmap.is_empty());
    bitmap.set(3, true);
    bitmap.set(5, true);
    bitmap.set(8, true);
    for i in 0..10 {
        assert_eq!(bitmap.get(i), i == 3 || i == 5 || i == 8);
    }
    assert_eq!(collect_indices(bitmap), vec![3, 5, 8]);
    assert_eq!(bitmap.len(), 3);
    assert!(!bitmap.is_empty());
}

#[test]
fn set_then_clear_size_64() {
    let mut bitmap: Bitmap<U64> = Bitmap::new();
    assert_eq!(bitmap.set(17, true), false);
    assert_eq!(bitmap.set(17, false), true);
    assert!(bitmap.is_empty());
    assert_eq!(bitmap.len(), 0);
}

#[test]
fn set_returns_previous_value() {
    let mut bitmap: Bitmap<U32> = Bitmap::new();
    assert_eq!(bitmap.set(9, false), false);
    assert_eq!(bitmap.set(9, true), false);
    assert_eq!(bitmap.set(9, true), true);
    assert_eq!(bitmap.set(9, false), true);
    assert_eq!(bitmap.set(9, false), false);
}

#[test]
fn len_counts_distinct_sets() {
    let mut bitmap: Bitmap<U256> = Bitmap::new();
    let bits: Vec<usize> = vec![2, 3, 128, 130, 255];
    for i in &bits {
        bitmap.set(*i, true);
    }
    assert_eq!(bitmap.len(), bits.len());
    // Setting an already-true bit again must not change the count.
    bitmap.set(130, true);
    assert_eq!(bitmap.len(), bits.len());
}

#[test]
fn is_empty_tracks_bits() {
    let mut bitmap: Bitmap<U128> = Bitmap::new();
    assert!(bitmap.is_empty());
    bitmap.set(127, true);
    assert!(!bitmap.is_empty());
    bitmap.set(127, false);
    assert!(bitmap.is_empty());
}

#[test]
fn first_index_finds_lowest() {
    let mut bitmap: Bitmap<U512> = Bitmap::new();
    assert_eq!(bitmap.first_index(), None);
    bitmap.set(300, true);
    assert_eq!(bitmap.first_index(), Some(300));
    bitmap.set(44, true);
    assert_eq!(bitmap.first_index(), Some(44));
    bitmap.set(44, false);
    assert_eq!(bitmap.first_index(), Some(300));
}

#[test]
fn value_round_trip() {
    let mut b: Bitmap<U64> = Bitmap::new();
    b.set(1, true);
    b.set(62, true);
    let raw = b.into_value();
    assert_eq!(raw, (1u64 << 1) | (1u64 << 62));
    let b2 = Bitmap::<U64>::from_value(raw);
    assert!(b2 == b);
}

#[test]
fn value_round_trip_narrow_storage() {
    // Ten bits stored in a u16: the value's padding bits must be clear.
    let b = Bitmap::<U10>::from_value(0x25u16);
    assert_eq!(collect_indices(b), vec![0, 2, 5]);
    assert_eq!(b.into_value(), 0x25u16);
    let b2 = Bitmap::<U10>::from_value(b.into_value());
    assert!(b2 == b);
}

#[test]
fn from_array_conversions() {
    let words: [u128; 2] = [0b1010, 1];
    let b: Bitmap<U256> = Bitmap::from(words);
    assert_eq!(collect_indices(b), vec![1, 3, 128]);
    assert_eq!(b.into_value(), words);
    let c: Bitmap<U384> = Bitmap::from([0u128, 0, 1u128 << 127]);
    assert_eq!(c.first_index(), Some(383));
    assert_eq!(c.len(), 1);
}

#[test]
fn single_bit_bitmap() {
    let mut b: Bitmap<U1> = Bitmap::new();
    assert!(b.is_empty());
    assert_eq!(b.len(), 0);
    assert_eq!(b.set(0, true), false);
    assert_eq!(b.len(), 1);
    assert!(b.get(0));
    assert_eq!(b.first_index(), Some(0));
    assert_eq!(collect_indices(b), vec![0]);
}

#[test]
fn equality_is_bitwise() {
    let mut a: Bitmap<U16> = Bitmap::new();
    let mut b: Bitmap<U16> = Bitmap::new();
    assert!(a == b);
    a.set(4, true);
    assert!(!(a == b));
    b.set(4, true);
    assert!(a == b);
}

#[test]
fn copies_are_independent() {
    let mut a: Bitmap<U8> = Bitmap::new();
    a.set(2, true);
    let b = a;
    a.set(2, false);
    assert!(b.get(2));
    assert!(!a.get(2));
}

#[test]
fn default_is_all_false() {
    let b: Bitmap<U896> = Default::default();
    assert!(b.is_empty());
    assert_eq!(b.len(), 0);
    for i in 0..896 {
        assert!(!b.get(i));
    }
}

fn probe_edge_bits<S: bitmaps::Bits>() {
    let n = S::size();
    let mut b: Bitmap<S> = Bitmap::new();
    assert!(b.is_empty());
    assert_eq!(b.set(n - 1, true), false);
    assert_eq!(b.len(), 1);
    assert_eq!(b.first_index(), Some(n - 1));
    if n > 1 {
        b.set(0, true);
        assert_eq!(b.len(), 2);
        assert_eq!(b.first_index(), Some(0));
    }
}

#[test]
fn every_size_edge_bits() {
    probe_edge_bits::<U1>();
    probe_edge_bits::<U8>();
    probe_edge_bits::<U10>();
    probe_edge_bits::<U16>();
    probe_edge_bits::<U32>();
    probe_edge_bits::<U64>();
    probe_edge_bits::<U128>();
    probe_edge_bits::<U256>();
    probe_edge_bits::<U384>();
    probe_edge_bits::<U512>();
    probe_edge_bits::<U640>();
    probe_edge_bits::<U768>();
    probe_edge_bits::<U896>();
    probe_edge_bits::<U1024>();
}

#[test]
fn iterator_is_ascending_and_complete() {
    let bits: Vec<usize> = vec![640, 3, 129, 512, 767];
    let mut sorted = bits.clone();
    sorted.sort();
    let mut bitmap = Bitmap::<U768>::new();
    for i in &bits {
        bitmap.set(*i, true);
    }
    assert_eq!(collect_indices(bitmap), sorted);
    // Consuming the iterator leaves the bitmap untouched.
    assert_eq!(bitmap.len(), bits.len());
}

#[test]
fn iterator_exhausts_and_stays_exhausted() {
    let mut bitmap = Bitmap::<U640>::new();
    bitmap.set(200, true);
    let mut it = bitmap.into_iter();
    assert_eq!(it.next(), Some(200));
    assert_eq!(it.next(), None);
    assert_eq!(it.next(), None);
}
