//! Small vector utilities: elementwise addition and order-preserving
//! deduplication.

use vstd::prelude::*;

verus! {

/// `s` with every later duplicate removed: each value keeps its first
/// occurrence only, order preserved.
pub open spec fn dedup_spec(s: Seq<i32>) -> Seq<i32>
    decreases s.len(),
{
    if s.len() == 0 {
        Seq::empty()
    } else {
        let rest = dedup_spec(s.drop_last());
        if s.drop_last().contains(s.last()) {
            rest
        } else {
            rest.push(s.last())
        }
    }
}

/// Deduplication keeps exactly the values that were present.
proof fn lemma_dedup_contains(s: Seq<i32>, x: i32)
    ensures
        dedup_spec(s).contains(x) == s.contains(x),
    decreases s.len(),
{
    if s.len() > 0 {
        let d = s.drop_last();
        lemma_dedup_contains(d, x);
        let rest = dedup_spec(d);
        assert(s.contains(x) == (d.contains(x) || s.last() == x)) by {
            if d.contains(x) {
                let i = choose|i: int| 0 <= i < d.len() && d[i] == x;
                assert(s[i] == x);
            }
            if s.last() == x {
                assert(s[s.len() - 1] == x);
            }
            if s.contains(x) {
                let i = choose|i: int| 0 <= i < s.len() && s[i] == x;
                if i < s.len() - 1 {
                    assert(d[i] == x);
                }
            }
        };
        if d.contains(s.last()) {
            if s.last() == x {
                assert(d.contains(x));
            }
        } else {
            assert(rest.push(s.last()).contains(x) == (rest.contains(x) || s.last() == x)) by {
                if rest.contains(x) {
                    let i = choose|i: int| 0 <= i < rest.len() && rest[i] == x;
                    assert(rest.push(s.last())[i] == x);
                }
                if s.last() == x {
                    assert(rest.push(s.last())[rest.len() as int] == x);
                }
                if rest.push(s.last()).contains(x) {
                    let i = choose|i: int|
                        0 <= i < rest.push(s.last()).len() && rest.push(s.last())[i] == x;
                    if i < rest.len() {
                        assert(rest[i] == x);
                    }
                }
            };
        }
    }
}

/// A new vector with `n` added to every element.
pub fn add_n(v: Vec<i32>, n: i32) -> (r: Vec<i32>)
    requires
        forall|i: int| 0 <= i < v@.len() ==> i32::MIN <= #[trigger] v@[i] + n <= i32::MAX,
    ensures
        r@.len() == v@.len(),
        forall|i: int| 0 <= i < v@.len() ==> r@[i] == v@[i] + n,
{
    let mut ret_vec: Vec<i32> = Vec::new();
    let mut i: usize = 0;
    while i < v.len()
        invariant
            i <= v@.len(),
            ret_vec@.len() == i,
            forall|k: int| 0 <= k < v@.len() ==> i32::MIN <= #[trigger] v@[k] + n <= i32::MAX,
            forall|k: int| 0 <= k < i ==> ret_vec@[k] == v@[k] + n,
        decreases v@.len() - i,
    {
        ret_vec.push(v[i] + n);
        i = i + 1;
    }
    ret_vec
}

/// Adds `n` to every element in place.
pub fn add_n_inplace(v: &mut Vec<i32>, n: i32)
    requires
        forall|i: int| 0 <= i < old(v)@.len() ==> i32::MIN <= #[trigger] old(v)@[i] + n <= i32::MAX,
    ensures
        final(v)@.len() == old(v)@.len(),
        forall|i: int| 0 <= i < old(v)@.len() ==> final(v)@[i] == old(v)@[i] + n,
{
    let mut i: usize = 0;
    while i < v.len()
        invariant
            i <= v@.len(),
            v@.len() == old(v)@.len(),
            forall|k: int| 0 <= k < v@.len() ==> i32::MIN <= #[trigger] old(v)@[k] + n <= i32::MAX,
            forall|k: int| i <= k < v@.len() ==> v@[k] == old(v)@[k],
            forall|k: int| 0 <= k < i ==> v@[k] == old(v)@[k] + n,
        decreases v@.len() - i,
    {
        let x = v[i];
        v[i] = x + n;
        i = i + 1;
    }
}

/// Removes every later duplicate in place: each value keeps its first
/// occurrence, order preserved.
pub fn dedup(v: &mut Vec<i32>)
    ensures
        final(v)@ == dedup_spec(old(v)@),
{
    let ghost orig = v@;
    let mut result: Vec<i32> = Vec::new();
    let mut i: usize = 0;
    while i < v.len()
        invariant
            v@ == orig,
            i <= orig.len(),
            result@ == dedup_spec(orig.subrange(0, i as int)),
        decreases orig.len() - i,
    {
        let x = v[i];
        let mut found = false;
        let mut j: usize = 0;
        while j < result.len()
            invariant
                j <= result@.len(),
                found == exists|k: int| 0 <= k < j && result@[k] == x,
            decreases result@.len() - j,
        {
            if result[j] == x {
                found = true;
            }
            j = j + 1;
        }
        proof {
            assert(found == result@.contains(x));
            lemma_dedup_contains(orig.subrange(0, i as int), x);
            assert(orig.subrange(0, i as int + 1).drop_last() =~= orig.subrange(0, i as int));
            assert(orig.subrange(0, i as int + 1).last() == orig[i as int]);
        }
        if !found {
            result.push(x);
        }
        i = i + 1;
    }
    proof {
        assert(orig.subrange(0, orig.len() as int) =~= orig);
    }
    *v = result;
}

} // verus!
