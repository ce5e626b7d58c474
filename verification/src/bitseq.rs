//! Specification-level views of bit storage: sequences of booleans, the
//! number of true bits in them, and the enumeration of their true positions.

use vstd::prelude::*;

verus! {

/// A sequence of `n` false bits: the view of a freshly constructed bitmap.
pub open spec fn all_false(n: nat) -> Seq<bool> {
    Seq::new(n, |i: int| false)
}

/// The number of true bits in `s`.
pub open spec fn count_true(s: Seq<bool>) -> nat
    decreases s.len(),
{
    if s.len() == 0 {
        0
    } else {
        count_true(s.drop_last()) + if s.last() {
            1nat
        } else {
            0nat
        }
    }
}

/// The positions in `s` at or after `from` holding a true bit, in ascending
/// order.
pub open spec fn true_positions(s: Seq<bool>, from: int) -> Seq<int>
    decreases s.len() - from,
{
    if from < 0 || from >= s.len() {
        Seq::empty()
    } else if s[from] {
        seq![from] + true_positions(s, from + 1)
    } else {
        true_positions(s, from + 1)
    }
}

/// No sequence holds more true bits than elements.
pub proof fn lemma_count_true_le_len(s: Seq<bool>)
    ensures
        count_true(s) <= s.len(),
    decreases s.len(),
{
    if s.len() > 0 {
        lemma_count_true_le_len(s.drop_last());
    }
}

/// Extending a prefix of `s` by one element adds that element's contribution
/// to the count.
pub proof fn lemma_count_true_take_step(s: Seq<bool>, j: int)
    requires
        0 <= j < s.len(),
    ensures
        count_true(s.take(j + 1)) == count_true(s.take(j)) + if s[j] {
            1nat
        } else {
            0nat
        },
{
    assert(s.take(j + 1).drop_last() =~= s.take(j));
    assert(s.take(j + 1).last() == s[j]);
}

/// A full-length prefix is the sequence itself.
pub proof fn lemma_count_true_take_all(s: Seq<bool>)
    ensures
        count_true(s.take(s.len() as int)) == count_true(s),
{
    assert(s.take(s.len() as int) =~= s);
}

/// A sequence has no true bits exactly when its count is zero.
pub proof fn lemma_count_true_zero(s: Seq<bool>)
    ensures
        count_true(s) == 0 <==> (forall|i: int| 0 <= i < s.len() ==> !s[i]),
    decreases s.len(),
{
    if s.len() > 0 {
        lemma_count_true_zero(s.drop_last());
        if count_true(s) == 0 {
            assert forall|i: int| 0 <= i < s.len() implies !s[i] by {
                if i < s.len() - 1 {
                    assert(s.drop_last()[i] == s[i]);
                } else {
                    assert(s.last() == s[i]);
                }
            }
        } else {
            if !s.last() {
                let k = choose|k: int| 0 <= k < s.drop_last().len() && s.drop_last()[k];
                assert(s[k]);
            }
        }
    }
}

/// Counting distributes over concatenation.
pub proof fn lemma_count_true_add(s: Seq<bool>, t: Seq<bool>)
    ensures
        count_true(s + t) == count_true(s) + count_true(t),
    decreases t.len(),
{
    if t.len() == 0 {
        assert(s + t =~= s);
    } else {
        lemma_count_true_add(s, t.drop_last());
        assert((s + t).drop_last() =~= s + t.drop_last());
        assert((s + t).last() == t.last());
    }
}

} // verus!
