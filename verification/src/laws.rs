//! General laws of the library, stated over the spec-level views that the
//! executable contracts use, and proved once for every size and storage.

use vstd::prelude::*;
use crate::bitseq::{all_false, count_true, true_positions, lemma_count_true_zero};
use crate::types::Bits;
use crate::bitmap::Bitmap;

verus! {

/// The bits of `s` after setting, in order, every position in `idxs` to
/// true: the view a bitmap reaches when `set(i, true)` is called for each
/// `i` in `idxs`, by the exact postcondition of `set`.
pub open spec fn set_each(s: Seq<bool>, idxs: Seq<int>) -> Seq<bool>
    decreases idxs.len(),
{
    if idxs.len() == 0 {
        s
    } else {
        set_each(s.update(idxs[0], true), idxs.drop_first())
    }
}

/// Setting positions never changes how many bits there are.
pub proof fn lemma_set_each_len(s: Seq<bool>, idxs: Seq<int>)
    requires
        forall|k: int| 0 <= k < idxs.len() ==> 0 <= #[trigger] idxs[k] < s.len(),
    ensures
        set_each(s, idxs).len() == s.len(),
    decreases idxs.len(),
{
    if idxs.len() > 0 {
        let s1 = s.update(idxs[0], true);
        assert forall|k: int| 0 <= k < idxs.drop_first().len() implies 0 <= #[trigger] idxs.drop_first()[k]
            < s1.len() by {
            assert(idxs.drop_first()[k] == idxs[k + 1]);
        }
        lemma_set_each_len(s1, idxs.drop_first());
    }
}

/// After setting every position in `idxs` to true, a position holds true
/// exactly when it occurs in `idxs` or held true before.
pub proof fn lemma_set_each_membership(s: Seq<bool>, idxs: Seq<int>, i: int)
    requires
        forall|k: int| 0 <= k < idxs.len() ==> 0 <= #[trigger] idxs[k] < s.len(),
        0 <= i < s.len(),
    ensures
        set_each(s, idxs)[i] == (idxs.contains(i) || s[i]),
    decreases idxs.len(),
{
    if idxs.len() == 0 {
        assert(!idxs.contains(i));
    } else {
        let s1 = s.update(idxs[0], true);
        let rest = idxs.drop_first();
        assert forall|k: int| 0 <= k < rest.len() implies 0 <= #[trigger] rest[k] < s1.len() by {
            assert(rest[k] == idxs[k + 1]);
        }
        lemma_set_each_membership(s1, rest, i);
        if rest.contains(i) {
            let k = choose|k: int| 0 <= k < rest.len() && rest[k] == i;
            assert(idxs[k + 1] == i);
            assert(idxs.contains(i));
        }
        if idxs.contains(i) {
            let k = choose|k: int| 0 <= k < idxs.len() && idxs[k] == i;
            if k > 0 {
                assert(rest[k - 1] == i);
                assert(rest.contains(i));
            }
        }
        if !idxs.contains(i) {
            assert(i != idxs[0]);
            assert(s1[i] == s[i]);
        }
    }
}

/// Starting from all-false bits and setting exactly the indices in `idxs`
/// true, an index reads true exactly when it occurs in `idxs`.
pub proof fn lemma_get_after_sets(n: nat, idxs: Seq<int>, i: int)
    requires
        forall|k: int| 0 <= k < idxs.len() ==> 0 <= #[trigger] idxs[k] < n,
        0 <= i < n,
    ensures
        set_each(all_false(n), idxs)[i] == idxs.contains(i),
{
    lemma_set_each_membership(all_false(n), idxs, i);
}

/// Updating one bit moves the count by exactly that bit's change.
pub proof fn lemma_count_true_update(s: Seq<bool>, i: int, v: bool)
    requires
        0 <= i < s.len(),
    ensures
        count_true(s.update(i, v)) + (if s[i] {
            1nat
        } else {
            0nat
        }) == count_true(s) + (if v {
            1nat
        } else {
            0nat
        }),
    decreases s.len(),
{
    let t = s.update(i, v);
    if i == s.len() - 1 {
        assert(t.drop_last() =~= s.drop_last());
        assert(t.last() == v);
        assert(s.last() == s[i]);
    } else {
        assert(t.drop_last() =~= s.drop_last().update(i, v));
        lemma_count_true_update(s.drop_last(), i, v);
        assert(t.last() == s.last());
        assert(s.drop_last()[i] == s[i]);
    }
}

/// Setting distinct, previously false positions true raises the count by
/// exactly their number.
pub proof fn lemma_count_after_set_each(s: Seq<bool>, idxs: Seq<int>)
    requires
        forall|k: int| 0 <= k < idxs.len() ==> 0 <= #[trigger] idxs[k] < s.len(),
        forall|k1: int, k2: int| 0 <= k1 < k2 < idxs.len() ==> idxs[k1] != idxs[k2],
        forall|k: int| 0 <= k < idxs.len() ==> !s[#[trigger] idxs[k]],
    ensures
        count_true(set_each(s, idxs)) == count_true(s) + idxs.len(),
    decreases idxs.len(),
{
    if idxs.len() > 0 {
        let s1 = s.update(idxs[0], true);
        let rest = idxs.drop_first();
        lemma_count_true_update(s, idxs[0], true);
        assert forall|k: int| 0 <= k < rest.len() implies 0 <= #[trigger] rest[k] < s1.len()
            && !s1[rest[k]] by {
            assert(rest[k] == idxs[k + 1]);
            assert(idxs[k + 1] != idxs[0]);
        }
        assert forall|k1: int, k2: int| 0 <= k1 < k2 < rest.len() implies rest[k1] != rest[k2] by {
            assert(rest[k1] == idxs[k1 + 1]);
            assert(rest[k2] == idxs[k2 + 1]);
        }
        lemma_count_after_set_each(s1, rest);
    }
}

/// Setting exactly `idxs.len()` distinct indices true in an all-false
/// bitmap makes `len()` report exactly `idxs.len()`.
pub proof fn lemma_len_after_distinct_sets(n: nat, idxs: Seq<int>)
    requires
        forall|k: int| 0 <= k < idxs.len() ==> 0 <= #[trigger] idxs[k] < n,
        forall|k1: int, k2: int| 0 <= k1 < k2 < idxs.len() ==> idxs[k1] != idxs[k2],
    ensures
        count_true(set_each(all_false(n), idxs)) == idxs.len(),
{
    lemma_count_true_zero(all_false(n));
    lemma_count_after_set_each(all_false(n), idxs);
}

/// The bits of `s` after performing, in order, every write in `ops`: each
/// write names a position and the value set there, as one call of
/// `set(i, v)` does by the exact postcondition of `set`.
pub open spec fn apply_writes(s: Seq<bool>, ops: Seq<(int, bool)>) -> Seq<bool>
    decreases ops.len(),
{
    if ops.len() == 0 {
        s
    } else {
        apply_writes(s, ops.drop_last()).update(ops.last().0, ops.last().1)
    }
}

/// The value the most recent write in `ops` left at position `i`, or
/// `dflt` when no write named `i`.
pub open spec fn last_write(ops: Seq<(int, bool)>, i: int, dflt: bool) -> bool
    decreases ops.len(),
{
    if ops.len() == 0 {
        dflt
    } else if ops.last().0 == i {
        ops.last().1
    } else {
        last_write(ops.drop_last(), i, dflt)
    }
}

/// Writes never change how many bits there are.
pub proof fn lemma_apply_writes_len(s: Seq<bool>, ops: Seq<(int, bool)>)
    requires
        forall|k: int| 0 <= k < ops.len() ==> 0 <= (#[trigger] ops[k]).0 < s.len(),
    ensures
        apply_writes(s, ops).len() == s.len(),
    decreases ops.len(),
{
    if ops.len() > 0 {
        lemma_apply_writes_len(s, ops.drop_last());
    }
}

/// After any run of writes, a bit holds the value of the most recent write
/// to it, or its starting value when it was never written.
pub proof fn lemma_bit_is_last_write(s: Seq<bool>, ops: Seq<(int, bool)>, i: int)
    requires
        forall|k: int| 0 <= k < ops.len() ==> 0 <= (#[trigger] ops[k]).0 < s.len(),
        0 <= i < s.len(),
    ensures
        apply_writes(s, ops)[i] == last_write(ops, i, s[i]),
    decreases ops.len(),
{
    if ops.len() > 0 {
        lemma_apply_writes_len(s, ops.drop_last());
        lemma_bit_is_last_write(s, ops.drop_last(), i);
    }
}

/// A bitmap that has seen any run of writes is empty exactly when every
/// index either was never set true or was last set false.
pub proof fn lemma_is_empty_after_writes(n: nat, ops: Seq<(int, bool)>)
    requires
        forall|k: int| 0 <= k < ops.len() ==> 0 <= (#[trigger] ops[k]).0 < n,
    ensures
        (forall|i: int| 0 <= i < n ==> !apply_writes(all_false(n), ops)[i]) <==> (forall|i: int|
            0 <= i < n ==> !last_write(ops, i, false)),
{
    lemma_apply_writes_len(all_false(n), ops);
    if forall|i: int| 0 <= i < n ==> !apply_writes(all_false(n), ops)[i] {
        assert forall|i: int| 0 <= i < n implies !last_write(ops, i, false) by {
            lemma_bit_is_last_write(all_false(n), ops, i);
            assert(!apply_writes(all_false(n), ops)[i]);
        }
    }
    if forall|i: int| 0 <= i < n ==> !last_write(ops, i, false) {
        assert forall|i: int| 0 <= i < n implies !apply_writes(all_false(n), ops)[i] by {
            lemma_bit_is_last_write(all_false(n), ops, i);
            assert(!last_write(ops, i, false));
        }
    }
}

/// The enumeration of true positions from `from` is ascending, stays in
/// range, marks only true bits, and misses none at or after `from`.
pub proof fn lemma_true_positions_characterize(s: Seq<bool>, from: int)
    requires
        0 <= from,
    ensures
        forall|k: int| 0 <= k < true_positions(s, from).len() ==> from <= #[trigger] true_positions(
            s, from)[k] < s.len() && s[true_positions(s, from)[k]],
        forall|k1: int, k2: int| 0 <= k1 < k2 < true_positions(s, from).len() ==> true_positions(
            s, from)[k1] < true_positions(s, from)[k2],
        forall|i: int| from <= i < s.len() && s[i] ==> true_positions(s, from).contains(i),
    decreases s.len() - from,
{
    if from < s.len() {
        lemma_true_positions_characterize(s, from + 1);
        let tp = true_positions(s, from);
        let tl = true_positions(s, from + 1);
        if s[from] {
            assert(tp == seq![from] + tl);
            assert(tp[0] == from);
            assert(forall|k: int| 1 <= k < tp.len() ==> #[trigger] tp[k] == tl[k - 1]);
            assert forall|i: int| from <= i < s.len() && s[i] implies tp.contains(i) by {
                if i == from {
                    assert(tp[0] == i);
                } else {
                    assert(tl.contains(i));
                    let k = choose|k: int| 0 <= k < tl.len() && tl[k] == i;
                    assert(tp[k + 1] == i);
                }
            }
        } else {
            assert(tp == tl);
        }
    }
}

/// Iterating an all-false bitmap with exactly the indices in `idxs` set
/// true yields the ascending enumeration of `idxs`: every index yielded is
/// a member, every member is yielded, and yields strictly ascend.
pub proof fn lemma_iteration_enumerates_sets(n: nat, idxs: Seq<int>)
    requires
        forall|k: int| 0 <= k < idxs.len() ==> 0 <= #[trigger] idxs[k] < n,
    ensures
        forall|k1: int, k2: int| 0 <= k1 < k2 < true_positions(set_each(all_false(n), idxs),
            0).len() ==> true_positions(set_each(all_false(n), idxs), 0)[k1] < true_positions(
            set_each(all_false(n), idxs), 0)[k2],
        forall|i: int| 0 <= i < n ==> (true_positions(set_each(all_false(n), idxs), 0).contains(i)
            <==> idxs.contains(i)),
        forall|k: int| 0 <= k < true_positions(set_each(all_false(n), idxs), 0).len()
            ==> idxs.contains(#[trigger] true_positions(set_each(all_false(n), idxs), 0)[k]),
{
    let s = set_each(all_false(n), idxs);
    lemma_set_each_len(all_false(n), idxs);
    lemma_true_positions_characterize(s, 0);
    let tp = true_positions(s, 0);
    assert forall|i: int| 0 <= i < n implies (tp.contains(i) <==> idxs.contains(i)) by {
        lemma_get_after_sets(n, idxs, i);
        if tp.contains(i) {
            let k = choose|k: int| 0 <= k < tp.len() && tp[k] == i;
            assert(s[i]);
        }
        if idxs.contains(i) {
            assert(s[i]);
        }
    }
    assert forall|k: int| 0 <= k < tp.len() implies idxs.contains(#[trigger] tp[k]) by {
        lemma_get_after_sets(n, idxs, tp[k]);
    }
}

/// Wrapping the storage that a bitmap unwraps to reproduces the bitmap.
pub proof fn lemma_value_round_trip<S: Bits>(b: Bitmap<S>)
    ensures
        Bitmap::<S>::from_value(b.into_value()) == b,
{
}

} // verus!
