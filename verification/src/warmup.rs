//! Small vector exercises: shifting every element by a constant and
//! removing duplicates while keeping first occurrences in order.

use vstd::prelude::*;

verus! {

/// The subsequence of `s` that keeps only the first occurrence of each
/// value, in order.
pub open spec fn dedup_seq(s: Seq<i32>) -> Seq<i32>
    decreases s.len(),
{
    if s.len() == 0 {
        Seq::<i32>::empty()
    } else {
        let prefix = dedup_seq(s.drop_last());
        if s.drop_last().contains(s.last()) {
            prefix
        } else {
            prefix.push(s.last())
        }
    }
}

/// A sequence holds `x` exactly when its last element is `x` or the rest
/// holds it.
proof fn lemma_contains_last_cases(s: Seq<i32>, x: i32)
    requires
        s.len() > 0,
    ensures
        s.contains(x) <==> (s.drop_last().contains(x) || s.last() == x),
{
    if s.contains(x) {
        let w = choose|w: int| 0 <= w < s.len() && s[w] == x;
        if w < s.len() - 1 {
            assert(s.drop_last()[w] == x);
        }
    }
    if s.drop_last().contains(x) {
        let w = choose|w: int| 0 <= w < s.drop_last().len() && s.drop_last()[w] == x;
        assert(s[w] == x);
    }
    if s.last() == x {
        assert(s[s.len() - 1] == x);
    }
}

/// Removing duplicates keeps exactly the values of the input.
pub proof fn lemma_dedup_same_values(s: Seq<i32>, x: i32)
    ensures
        dedup_seq(s).contains(x) <==> s.contains(x),
    decreases s.len(),
{
    if s.len() > 0 {
        let t = s.drop_last();
        lemma_dedup_same_values(t, x);
        lemma_contains_last_cases(s, x);
        if !t.contains(s.last()) {
            assert(dedup_seq(s).drop_last() =~= dedup_seq(t));
            lemma_contains_last_cases(dedup_seq(s), x);
        }
    }
}

/// Every element shifted up by `n`, in a fresh vector.
pub fn add_n(v: Vec<i32>, n: i32) -> (r: Vec<i32>)
    requires
        forall|i: int| 0 <= i < v@.len() ==> i32::MIN <= #[trigger] v@[i] + n <= i32::MAX,
    ensures
        r@.len() == v@.len(),
        forall|i: int| 0 <= i < v@.len() ==> #[trigger] r@[i] == v@[i] + n,
{
    let ghost orig = v@;
    let mut v = v;
    let mut idx: usize = 0;
    while idx < v.len()
        invariant
            idx <= v@.len(),
            v@.len() == orig.len(),
            forall|i: int| 0 <= i < orig.len() ==> i32::MIN <= #[trigger] orig[i] + n <= i32::MAX,
            forall|i: int| 0 <= i < idx ==> #[trigger] v@[i] == orig[i] + n,
            forall|i: int| idx <= i < orig.len() ==> #[trigger] v@[i] == orig[i],
        decreases v@.len() - idx,
    {
        v[idx] = v[idx] + n;
        idx += 1;
    }
    v
}

/// Every element shifted up by `n`, in place.
pub fn add_n_inplace(v: &mut Vec<i32>, n: i32)
    requires
        forall|i: int|
            0 <= i < old(v)@.len() ==> i32::MIN <= #[trigger] old(v)@[i] + n <= i32::MAX,
    ensures
        final(v)@.len() == old(v)@.len(),
        forall|i: int| 0 <= i < old(v)@.len() ==> #[trigger] final(v)@[i] == old(v)@[i] + n,
{
    let mut idx: usize = 0;
    while idx < v.len()
        invariant
            idx <= v@.len(),
            v@.len() == old(v)@.len(),
            forall|i: int|
                0 <= i < old(v)@.len() ==> i32::MIN <= #[trigger] old(v)@[i] + n <= i32::MAX,
            forall|i: int| 0 <= i < idx ==> #[trigger] v@[i] == old(v)@[i] + n,
            forall|i: int| idx <= i < old(v)@.len() ==> #[trigger] v@[i] == old(v)@[i],
        decreases v@.len() - idx,
    {
        v[idx] = v[idx] + n;
        idx += 1;
    }
}

/// Whether `x` occurs in `v`.
fn vec_contains(v: &Vec<i32>, x: i32) -> (r: bool)
    ensures
        r == v@.contains(x),
{
    let mut i: usize = 0;
    while i < v.len()
        invariant
            i <= v@.len(),
            forall|j: int| 0 <= j < i ==> v@[j] != x,
        decreases v@.len() - i,
    {
        if v[i] == x {
            return true;
        }
        i += 1;
    }
    false
}

/// Removes duplicates in place, keeping the first occurrence of each value
/// in its original order.
pub fn dedup(v: &mut Vec<i32>)
    ensures
        final(v)@ == dedup_seq(old(v)@),
{
    let mut v_ret: Vec<i32> = Vec::new();
    let mut i: usize = 0;
    proof {
        assert(old(v)@.subrange(0, 0) =~= Seq::<i32>::empty());
    }
    while i < v.len()
        invariant
            i <= v@.len(),
            v@ == old(v)@,
            v_ret@ == dedup_seq(old(v)@.subrange(0, i as int)),
        decreases v@.len() - i,
    {
        let x = v[i];
        proof {
            assert(old(v)@.subrange(0, i + 1).drop_last() =~= old(v)@.subrange(0, i as int));
            assert(old(v)@.subrange(0, i + 1).last() == old(v)@[i as int]);
            lemma_dedup_same_values(old(v)@.subrange(0, i as int), old(v)@[i as int]);
        }
        if !vec_contains(&v_ret, x) {
            v_ret.push(x);
        }
        i += 1;
    }
    proof {
        assert(old(v)@.subrange(0, old(v)@.len() as int) =~= old(v)@);
    }
    *v = v_ret;
}

} // verus!
