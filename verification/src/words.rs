//! Verified bit primitives over `u128` words and fixed arrays of them.
//!
//! Every storage representation except the single `bool` embeds into one or
//! more `u128` words, so the four primitive operations (read a bit, write a
//! bit, count the true bits, find the lowest true bit) are implemented and
//! proved here once, over words, and the per-size code only converts.

use vstd::prelude::*;
use vstd::arithmetic::div_mod::{lemma_fundamental_div_mod, lemma_fundamental_div_mod_converse_div,
    lemma_fundamental_div_mod_converse_mod, lemma_mod_bound};
use crate::bitseq::{count_true, lemma_count_true_le_len, lemma_count_true_take_step,
    lemma_count_true_take_all, lemma_count_true_add};

verus! {

broadcast use vstd::array::group_array_axioms;

/// The value of bit `i` of the word `x`.
pub open spec fn bit(x: u128, i: int) -> bool {
    0 <= i < 128 && (x >> (i as u128)) & 1 == 1
}

/// The low `n` bits of `x` as a sequence, lowest bit first.
pub open spec fn word_view(x: u128, n: nat) -> Seq<bool> {
    Seq::new(n, |i: int| bit(x, i))
}

/// Bits of `x` at positions `n` and above are all clear.
pub open spec fn fits(x: u128, n: nat) -> bool {
    n >= 128 || x >> (n as u128) == 0
}

/// The zero word has no true bits.
pub proof fn lemma_zero_word_bits(i: int)
    ensures
        !bit(0, i),
{
    if 0 <= i < 128 {
        let iu = i as u128;
        assert((0u128 >> iu) & 1 == 0) by (bit_vector);
    }
}

/// The zero word fits every width.
pub proof fn lemma_zero_fits(n: nat)
    ensures
        fits(0, n),
{
    if n < 128 {
        let nu = n as u128;
        assert(nu < 128 ==> 0u128 >> nu == 0) by (bit_vector);
    }
}

/// A word whose bits above `n` are clear also has its bits above any
/// `m >= n` clear.
pub proof fn lemma_fits_widen(x: u128, n: nat, m: nat)
    requires
        fits(x, n),
        n <= m,
    ensures
        fits(x, m),
{
    if m < 128 {
        let nu = n as u128;
        let mu = m as u128;
        assert(nu <= mu < 128 && x >> nu == 0 ==> x >> mu == 0) by (bit_vector);
    }
}

/// Reads bit `i` of `x`.
pub fn word_get(x: u128, i: usize) -> (b: bool)
    requires
        i < 128,
    ensures
        b == bit(x, i as int),
{
    (x >> (i as u128)) & 1 == 1
}

/// Writes bit `i` of `x` to `v`, leaving every other bit unchanged.
pub fn word_set(x: u128, i: usize, v: bool) -> (r: u128)
    requires
        i < 128,
    ensures
        forall|j: int| 0 <= j < 128 ==> bit(r, j) == if j == i as int {
            v
        } else {
            bit(x, j)
        },
        forall|n: nat| fits(x, n) && (i as nat) < n ==> fits(r, n),
{
    let iu = i as u128;
    let r = if v {
        x | (1u128 << iu)
    } else {
        x & !(1u128 << iu)
    };
    proof {
        assert forall|j: int| 0 <= j < 128 implies bit(r, j) == if j == i as int {
            v
        } else {
            bit(x, j)
        } by {
            let ju = j as u128;
            if v {
                assert(iu < 128 && ju < 128 ==> (((x | (1u128 << iu)) >> ju) & 1 == 1) == (if ju
                    == iu {
                    true
                } else {
                    (x >> ju) & 1 == 1
                })) by (bit_vector);
            } else {
                assert(iu < 128 && ju < 128 ==> (((x & !(1u128 << iu)) >> ju) & 1 == 1) == (if ju
                    == iu {
                    false
                } else {
                    (x >> ju) & 1 == 1
                })) by (bit_vector);
            }
        }
        assert forall|n: nat| fits(x, n) && (i as nat) < n implies fits(r, n) by {
            if n < 128 {
                let nu = n as u128;
                if v {
                    assert(iu < nu && nu < 128 && x >> nu == 0 ==> (x | (1u128 << iu)) >> nu
                        == 0) by (bit_vector);
                } else {
                    assert(iu < nu && nu < 128 && x >> nu == 0 ==> (x & !(1u128 << iu)) >> nu
                        == 0) by (bit_vector);
                }
            }
        }
    }
    r
}

/// Counts the true bits among the low `n` bits of `x`.
pub fn word_count(x: u128, n: usize) -> (c: usize)
    requires
        n <= 128,
    ensures
        c == count_true(word_view(x, n as nat)),
{
    let ghost s = word_view(x, n as nat);
    let mut c: usize = 0;
    let mut j: usize = 0;
    while j < n
        invariant
            j <= n <= 128,
            c <= j,
            s == word_view(x, n as nat),
            c == count_true(s.take(j as int)),
        decreases n - j,
    {
        proof {
            lemma_count_true_take_step(s, j as int);
        }
        if word_get(x, j) {
            c = c + 1;
        }
        j = j + 1;
    }
    proof {
        lemma_count_true_take_all(s);
    }
    c
}

/// The value of bit `i` of a fixed array of `u128` words: bit `i % 128` of
/// word `i / 128`.
pub open spec fn arr_bit<const K: usize>(a: [u128; K], i: int) -> bool {
    bit(a@[i / 128], i % 128)
}

/// All `128 * K` bits of a word array, lowest index first.
pub open spec fn arr_view<const K: usize>(a: [u128; K]) -> Seq<bool> {
    Seq::new((128 * K) as nat, |i: int| arr_bit(a, i))
}

/// Reads bit `i` of the word array `a`.
pub fn arr_get<const K: usize>(a: &[u128; K], i: usize) -> (b: bool)
    requires
        i < 128 * K,
        K <= 8,
    ensures
        b == arr_bit(*a, i as int),
{
    let w = i / 128;
    let o = i % 128;
    proof {
        lemma_mod_bound(i as int, 128);
        assert(i as int / 128 < K as int) by (nonlinear_arith)
            requires
                i < 128 * (K as int),
                i >= 0,
        ;
    }
    word_get(a[w], o)
}

/// Writes bit `i` of the word array `a` to `v`, leaving every other bit
/// unchanged, and returns the bit's previous value.
pub fn arr_set<const K: usize>(a: &mut [u128; K], i: usize, v: bool) -> (prev: bool)
    requires
        i < 128 * K,
        K <= 8,
    ensures
        prev == arr_bit(*old(a), i as int),
        forall|j: int| 0 <= j < 128 * K ==> arr_bit(*final(a), j) == if j == i as int {
            v
        } else {
            arr_bit(*old(a), j)
        },
{
    let w = i / 128;
    let o = i % 128;
    proof {
        lemma_mod_bound(i as int, 128);
        assert(i as int / 128 < K as int) by (nonlinear_arith)
            requires
                i < 128 * (K as int),
                i >= 0,
        ;
    }
    let prev = word_get(a[w], o);
    let nw = word_set(a[w], o, v);
    a[w] = nw;
    proof {
        lemma_fundamental_div_mod(i as int, 128);
        assert forall|j: int| 0 <= j < 128 * K implies arr_bit(*a, j) == (if j == i as int {
            v
        } else {
            arr_bit(*old(a), j)
        }) by {
            lemma_fundamental_div_mod(j, 128);
            lemma_mod_bound(j, 128);
            assert(j / 128 < K as int) by (nonlinear_arith)
                requires
                    j < 128 * (K as int),
                    j >= 0,
            ;
            if j / 128 == w as int {
                assert(j == i as int <==> j % 128 == o as int);
            } else {
                assert(a@[j / 128] == old(a)@[j / 128]);
            }
        }
    }
    prev
}

/// Counts the true bits of the word array `a`, one word's population count
/// at a time.
pub fn arr_count<const K: usize>(a: &[u128; K]) -> (c: usize)
    requires
        K <= 8,
    ensures
        c == count_true(arr_view(*a)),
{
    let ghost s = arr_view(*a);
    let mut c: usize = 0;
    let mut w: usize = 0;
    while w < K
        invariant
            w <= K <= 8,
            c <= 128 * w,
            s == arr_view(*a),
            c == count_true(s.take(128 * w as int)),
        decreases K - w,
    {
        let d = word_count(a[w], 128);
        proof {
            let wv = word_view(a@[w as int], 128);
            assert forall|t: int| 0 <= t < 128 implies s[128 * (w as int) + t] == wv[t] by {
                lemma_fundamental_div_mod_converse_div(128 * (w as int) + t, 128, w as int, t);
                lemma_fundamental_div_mod_converse_mod(128 * (w as int) + t, 128, w as int, t);
            }
            assert(s.take(128 * (w + 1) as int) =~= s.take(128 * w as int) + wv);
            lemma_count_true_add(s.take(128 * w as int), wv);
            lemma_count_true_le_len(wv);
        }
        c = c + d;
        w = w + 1;
    }
    proof {
        assert(s.take(128 * (K as int)) =~= s);
    }
    c
}

/// Finds the lowest true bit of the word array `a`: the lowest true bit of
/// its first non-clear word, offset by the words before it.
pub fn arr_first<const K: usize>(a: &[u128; K]) -> (r: Option<usize>)
    requires
        K <= 8,
    ensures
        match r {
            Some(i) => i < 128 * K && arr_bit(*a, i as int) && forall|j: int| 0 <= j < i
                ==> !arr_bit(*a, j),
            None => forall|j: int| 0 <= j < 128 * K ==> !arr_bit(*a, j),
        },
{
    let mut w: usize = 0;
    while w < K
        invariant
            w <= K <= 8,
            forall|j: int| 0 <= j < 128 * w ==> !arr_bit(*a, j),
        decreases K - w,
    {
        let found = word_first(a[w], 128);
        proof {
            assert forall|t: int| 0 <= t < 128 implies arr_bit(*a, 128 * (w as int) + t) == bit(
                a@[w as int], t) by {
                lemma_fundamental_div_mod_converse_div(128 * (w as int) + t, 128, w as int, t);
                lemma_fundamental_div_mod_converse_mod(128 * (w as int) + t, 128, w as int, t);
            }
        }
        if let Some(o) = found {
            let i = w * 128 + o;
            proof {
                assert forall|j: int| 0 <= j < i implies !arr_bit(*a, j) by {
                    if j >= 128 * w {
                        assert(arr_bit(*a, 128 * (w as int) + (j - 128 * (w as int))) == bit(
                            a@[w as int], j - 128 * (w as int)));
                    }
                }
            }
            return Some(i);
        }
        proof {
            assert forall|j: int| 0 <= j < 128 * (w + 1) implies !arr_bit(*a, j) by {
                if j >= 128 * w {
                    assert(arr_bit(*a, 128 * (w as int) + (j - 128 * (w as int))) == bit(
                        a@[w as int], j - 128 * (w as int)));
                }
            }
        }
        w = w + 1;
    }
    None
}

/// Compares two word arrays element by element.
pub fn arr_eq<const K: usize>(a: &[u128; K], b: &[u128; K]) -> (r: bool)
    ensures
        r == (*a == *b),
{
    let mut w: usize = 0;
    while w < K
        invariant
            w <= K,
            forall|j: int| 0 <= j < w ==> a@[j] == b@[j],
        decreases K - w,
    {
        if a[w] != b[w] {
            return false;
        }
        w = w + 1;
    }
    proof {
        assert(*a =~= *b);
    }
    true
}

/// Finds the lowest true bit among the low `n` bits of `x`, if any.
pub fn word_first(x: u128, n: usize) -> (r: Option<usize>)
    requires
        n <= 128,
    ensures
        match r {
            Some(i) => i < n && bit(x, i as int) && forall|j: int| 0 <= j < i ==> !bit(x, j),
            None => forall|j: int| 0 <= j < n ==> !bit(x, j),
        },
{
    let mut j: usize = 0;
    while j < n
        invariant
            j <= n <= 128,
            forall|k: int| 0 <= k < j ==> !bit(x, k),
        decreases n - j,
    {
        if word_get(x, j) {
            return Some(j);
        }
        j = j + 1;
    }
    None
}

} // verus!
