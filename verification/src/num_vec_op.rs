//! Summary statistics of a list of integers: mean, middle element and the
//! value that occurs most often.

use std::collections::HashMap;
use vstd::prelude::*;
use vstd::std_specs::hash::*;

verus! {

/// The sum of the elements of `s`.
pub open spec fn sum(s: Seq<i32>) -> int
    decreases s.len(),
{
    if s.len() == 0 {
        0
    } else {
        sum(s.drop_last()) + s.last()
    }
}

/// The quotient of `a` by a positive `b`, rounded towards zero.
pub open spec fn quotient_towards_zero(a: int, b: int) -> int
    recommends
        b > 0,
{
    if a >= 0 {
        a / b
    } else {
        -((-a) / b)
    }
}

/// Where `a` lies between `b` times `low` and `b` times `high`, its quotient
/// by `b` lies between `low` and `high`.
pub proof fn lemma_quotient_bounded(a: int, b: int, low: int, high: int)
    requires
        b > 0,
        low <= 0 <= high,
        b * low <= a <= b * high,
    ensures
        low <= quotient_towards_zero(a, b) <= high,
{
    if a >= 0 {
        assert(0 <= a / b <= high) by (nonlinear_arith)
            requires
                b > 0,
                0 <= a <= b * high,
        ;
    } else {
        assert(b * (-low) == -(b * low)) by (nonlinear_arith);
        assert(0 <= (-a) / b <= -low) by (nonlinear_arith)
            requires
                b > 0,
                0 <= -a <= b * (-low),
        ;
    }
}

/// A sum of `n` elements lies between `n` times the least and `n` times the
/// greatest `i32`.
pub proof fn lemma_sum_bounded(s: Seq<i32>)
    ensures
        s.len() * i32::MIN <= sum(s) <= s.len() * i32::MAX,
    decreases s.len(),
{
    if s.len() > 0 {
        lemma_sum_bounded(s.drop_last());
        assert(s.len() * i32::MIN == s.drop_last().len() * i32::MIN + i32::MIN) by (nonlinear_arith)
            requires
                s.drop_last().len() == s.len() - 1,
        ;
        assert(s.len() * i32::MAX == s.drop_last().len() * i32::MAX + i32::MAX) by (nonlinear_arith)
            requires
                s.drop_last().len() == s.len() - 1,
        ;
    }
}

/// The mean of `vec`, rounded towards zero.
pub fn avg(vec: &Vec<i32>) -> (r: i32)
    requires
        vec@.len() > 0,
    ensures
        r == quotient_towards_zero(sum(vec@), vec@.len() as int),
{
    let mut total: i128 = 0;
    for n in 0..vec.len()
        invariant
            total == sum(vec@.take(n as int)),
    {
        proof {
            assert(vec@.take(n + 1).drop_last() =~= vec@.take(n as int));
            lemma_sum_bounded(vec@.take(n as int));
            assert(n * i32::MIN >= usize::MAX * i32::MIN && n * i32::MAX <= usize::MAX * i32::MAX)
                by (nonlinear_arith)
                requires
                    0 <= n <= usize::MAX,
            ;
        }
        total += vec[n] as i128;
    }
    proof {
        assert(vec@.take(vec@.len() as int) =~= vec@);
        lemma_sum_bounded(vec@);
    }
    let len = vec.len() as i128;
    let mean = total / len;
    proof {
        lemma_quotient_bounded(total as int, len as int, i32::MIN as int, i32::MAX as int);
    }
    mean as i32
}

/// The element in the middle of `vec`: of a sorted list, its median (the
/// upper one where the length is even).
pub fn median(vec: &Vec<i32>) -> (r: i32)
    requires
        vec@.len() > 0,
    ensures
        r == vec@[vec@.len() as int / 2],
{
    let len = vec.len();
    let index = len / 2;
    vec[index]
}

/// How often `x` occurs in `s`.
pub open spec fn occurrences(s: Seq<i32>, x: i32) -> nat
    decreases s.len(),
{
    if s.len() == 0 {
        0
    } else {
        occurrences(s.drop_last(), x) + if s.last() == x {
            1nat
        } else {
            0nat
        }
    }
}

/// `x` is an element of `s` that occurs at least as often as any other.
pub open spec fn is_most_frequent(s: Seq<i32>, x: i32) -> bool {
    &&& s.contains(x)
    &&& forall|y: i32| occurrences(s, y) <= occurrences(s, x)
}

/// No value occurs more often than the sequence is long.
pub proof fn lemma_occurrences_bounded(s: Seq<i32>, x: i32)
    ensures
        occurrences(s, x) <= s.len(),
    decreases s.len(),
{
    if s.len() > 0 {
        lemma_occurrences_bounded(s.drop_last(), x);
    }
}

/// A value occurs in a sequence exactly if it is an element of it.
pub proof fn lemma_occurrences_positive(s: Seq<i32>, x: i32)
    ensures
        occurrences(s, x) > 0 <==> s.contains(x),
    decreases s.len(),
{
    if s.len() > 0 {
        lemma_occurrences_positive(s.drop_last(), x);
        if s.last() != x && s.contains(x) {
            let i = choose|i: int| 0 <= i < s.len() && s[i] == x;
            assert(s.drop_last()[i] == x);
        }
    }
}

/// `counts` tallies `s`: it holds exactly the values of `s`, each with the
/// number of times it occurs.
pub open spec fn tallies(counts: Map<i32, usize>, s: Seq<i32>) -> bool {
    forall|x: i32|
        {
            &&& #[trigger] counts.contains_key(x) <==> occurrences(s, x) > 0
            &&& counts.contains_key(x) ==> counts[x] == occurrences(s, x)
        }
}

/// The value that occurs most often in `vec`, and 0 for the empty list.
/// Where several values occur equally often, any of them may be returned.
pub fn most(vec: &Vec<i32>) -> (r: i32)
    ensures
        vec@.len() == 0 ==> r == 0,
        vec@.len() > 0 ==> is_most_frequent(vec@, r),
{
    broadcast use group_hash_axioms;

    let mut map: HashMap<i32, usize> = HashMap::new();
    let mut current_val: usize = 0;
    let mut current_key: i32 = 0;
    for n in 0..vec.len()
        invariant
            tallies(map@, vec@.take(n as int)),
    {
        let i = vec[n];
        proof {
            assert(vec@.take(n + 1).drop_last() =~= vec@.take(n as int));
            lemma_occurrences_bounded(vec@.take(n as int), i);
        }
        let count = map.entry(i).or_insert(0);
        *count += 1;
    }
    assert(vec@.take(vec@.len() as int) =~= vec@);

    for (key, val) in it: map.iter()
        invariant
            tallies(map@, vec@),
            it.index() == 0 ==> current_val == 0 && current_key == 0,
            it.index() > 0 ==> map@.contains_key(current_key) && map@[current_key] == current_val,
            forall|j: int| 0 <= j < it.index() ==> *it.seq()[j].1 <= current_val,
            forall|j: int|
                0 <= j < it.seq().len() ==> map@.contains_key(*it.seq()[j].0) && map@[*it.seq()[j].0]
                    == *it.seq()[j].1,
            forall|k: i32| #[trigger]
                map@.contains_key(k) ==> exists|j: int|
                    0 <= j < it.seq().len() && *it.seq()[j].0 == k,
    {
        if *val > current_val {
            current_key = *key;
            current_val = *val;
        }
    }
    proof {
        if vec@.len() > 0 {
            lemma_occurrences_positive(vec@, vec@[0]);
            lemma_occurrences_positive(vec@, current_key);
            assert forall|y: i32| occurrences(vec@, y) <= occurrences(vec@, current_key) by {
                if occurrences(vec@, y) > 0 {
                    assert(map@.contains_key(y));
                }
            }
        }
    }
    current_key
}

} // verus!
