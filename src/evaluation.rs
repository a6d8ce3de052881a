//! Multilinear Lagrange-basis evaluation vectors.
use crate::field::{group_order, lemma_group_order_above_one, pow2, Fe};
use vstd::arithmetic::div_mod::{lemma_add_mod_noop, lemma_mul_mod_noop, lemma_small_mod};
use vstd::prelude::*;

verus! {

/// The integers that a sequence of field elements stands for.
pub open spec fn values(s: Seq<Fe>) -> Seq<int> {
    s.map_values(|f: Fe| f.val() as int)
}

/// `eq(point, x)`: the product over the coordinates of `point[i]` where bit
/// `i` of `x` is set and `1 - point[i]` where it is clear. The first
/// coordinate is the most significant bit of `x`.
pub open spec fn eq_weight(point: Seq<int>, x: nat) -> int
    decreases point.len(),
{
    if point.len() == 0 {
        1
    } else {
        let c = point.last();
        let f = if x % 2 == 1 { c } else { 1 - c };
        eq_weight(point.drop_last(), x / 2) * f
    }
}

/// The sum of `eq(point, x)` over `x < m`.
pub open spec fn weight_sum(point: Seq<int>, m: nat) -> int
    decreases m,
{
    if m == 0 {
        0
    } else {
        weight_sum(point, (m - 1) as nat) + eq_weight(point, (m - 1) as nat)
    }
}

/// The sum of the integers that the first `m` elements stand for.
pub open spec fn value_sum(s: Seq<Fe>, m: nat) -> int
    decreases m,
{
    if m == 0 || m > s.len() {
        0
    } else {
        value_sum(s, (m - 1) as nat) + s[m - 1].val()
    }
}

/// `v` is the evaluation vector of `point`, reduced into the field.
pub open spec fn is_evaluation_vector(point: Seq<int>, v: Seq<Fe>) -> bool {
    &&& v.len() == pow2(point.len())
    &&& forall|x: int| 0 <= x < v.len() ==> (#[trigger] v[x]).val() == eq_weight(point, x as nat) % (group_order() as int)
}

proof fn lemma_weight_sum_halves(point: Seq<int>, m: nat)
    requires
        point.len() > 0,
    ensures
        weight_sum(point, 2 * m) == weight_sum(point.drop_last(), m),
    decreases m,
{
    if m > 0 {
        let m1 = (m - 1) as nat;
        lemma_weight_sum_halves(point, m1);
        assert(weight_sum(point, (2 * m1 + 1) as nat) == weight_sum(point, 2 * m1) + eq_weight(
            point,
            2 * m1,
        ));
        assert(weight_sum(point, (2 * m1 + 2) as nat) == weight_sum(point, (2 * m1 + 1) as nat)
            + eq_weight(point, (2 * m1 + 1) as nat));
        assert((2 * m1) / 2 == m1 && (2 * m1) % 2 == 0);
        assert((2 * m1 + 1) / 2 == m1 && (2 * m1 + 1) % 2 == 1);
        let e = eq_weight(point.drop_last(), m1);
        let c = point.last();
        assert(e * (1 - c) + e * c == e) by (nonlinear_arith);
    }
}

/// The evaluation weights of any point add up to one: they form a partition
/// of unity over the boolean hypercube.
pub proof fn lemma_weights_sum_to_one(point: Seq<int>)
    ensures
        weight_sum(point, pow2(point.len())) == 1,
    decreases point.len(),
{
    if point.len() == 0 {
        assert(weight_sum(point, 1) == weight_sum(point, 0) + eq_weight(point, 0));
    } else {
        let k1 = (point.len() - 1) as nat;
        lemma_weight_sum_halves(point, pow2(k1));
        lemma_weights_sum_to_one(point.drop_last());
    }
}

proof fn lemma_value_sum_mod(point: Seq<int>, v: Seq<Fe>, m: nat)
    requires
        is_evaluation_vector(point, v),
        m <= v.len(),
    ensures
        value_sum(v, m) % (group_order() as int) == weight_sum(point, m) % (group_order() as int),
    decreases m,
{
    if m > 0 {
        let l = group_order() as int;
        let m1 = (m - 1) as nat;
        lemma_value_sum_mod(point, v, m1);
        lemma_add_mod_noop(value_sum(v, m1), v[m1 as int].val() as int, l);
        lemma_add_mod_noop(weight_sum(point, m1), eq_weight(point, m1), l);
        assert(v[m1 as int].val() as int % l == eq_weight(point, m1) % l) by {
            v[m1 as int].lemma_val_below_order();
            lemma_small_mod(v[m1 as int].val(), group_order());
        }
    }
}

/// The entries of an evaluation vector add up to one in the field.
pub proof fn lemma_evaluation_vector_sums_to_one(point: Seq<int>, v: Seq<Fe>)
    requires
        is_evaluation_vector(point, v),
    ensures
        value_sum(v, v.len()) % (group_order() as int) == 1,
{
    lemma_value_sum_mod(point, v, v.len());
    lemma_weights_sum_to_one(point);
    lemma_group_order_above_one();
    lemma_small_mod(1, group_order());
}

/// For every `x` in `{0,1}^k`, in index order with the first coordinate as the
/// most significant bit, the multilinear Lagrange weight `eq(point, x)`.
pub fn compute_evaluation_vector(point: &Vec<Fe>) -> (r: Vec<Fe>)
    requires
        pow2(point@.len()) <= usize::MAX,
    ensures
        is_evaluation_vector(values(point@), r@),
{
    let l = Ghost(group_order() as int);
    let one = Fe::one();
    let mut v: Vec<Fe> = Vec::new();
    v.push(Fe::one());
    proof {
        lemma_group_order_above_one();
        lemma_small_mod(1, group_order());
        assert(values(point@).subrange(0, 0).len() == 0);
    }
    let mut i: usize = 0;
    while i < point.len()
        invariant
            0 <= i <= point@.len(),
            pow2(point@.len()) <= usize::MAX,
            l@ == group_order() as int,
            one.val() == 1,
            is_evaluation_vector(values(point@).subrange(0, i as int), v@),
        decreases point@.len() - i,
    {
        let c = &point[i];
        let q = one.sub(c);
        let ghost pre = values(point@).subrange(0, i as int);
        let ghost post = values(point@).subrange(0, i as int + 1);
        proof {
            assert(post.drop_last() =~= pre);
            assert(post.last() == c.val() as int);
            lemma_pow2_monotone(i as nat + 1, point@.len());
        }
        let mut next: Vec<Fe> = Vec::new();
        let mut j: usize = 0;
        while j < v.len()
            invariant
                0 <= j <= v@.len(),
                v@.len() == pow2(i as nat),
                2 * pow2(i as nat) <= usize::MAX,
                next@.len() == 2 * j,
                l@ == group_order() as int,
                q.val() as int == (1 - c.val()) % l@,
                post.len() == i + 1,
                post.drop_last() == pre,
                post.last() == c.val() as int,
                is_evaluation_vector(pre, v@),
                forall|x: int| 0 <= x < next@.len() ==> (#[trigger] next@[x]).val() == eq_weight(post, x as nat) % l@,
            decreases v@.len() - j,
        {
            let a = v[j].mul(&q);
            let b = v[j].mul(c);
            proof {
                let e = eq_weight(pre, j as nat);
                let x0 = (2 * j) as nat;
                let x1 = (2 * j + 1) as nat;
                assert(x0 / 2 == j && x0 % 2 == 0);
                assert(x1 / 2 == j && x1 % 2 == 1);
                assert(eq_weight(post, x0) == e * (1 - c.val()));
                assert(eq_weight(post, x1) == e * c.val());
                lemma_mul_mod_noop(e, 1 - c.val(), l@);
                lemma_mul_mod_noop(e, c.val() as int, l@);
                c.lemma_val_below_order();
                lemma_small_mod(c.val(), group_order());
            }
            next.push(a);
            next.push(b);
            j += 1;
        }
        proof {
            assert(pow2(i as nat + 1) == 2 * pow2(i as nat));
        }
        v = next;
        i += 1;
    }
    proof {
        assert(values(point@).subrange(0, point@.len() as int) =~= values(point@));
    }
    v
}

proof fn lemma_pow2_monotone(a: nat, b: nat)
    requires
        a <= b,
    ensures
        pow2(a) <= pow2(b),
    decreases b,
{
    if a < b {
        lemma_pow2_monotone(a, (b - 1) as nat);
    }
}

} // verus!
