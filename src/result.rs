//! The public result of a query, as the prover hands it to the verifier.
//!
//! `data` holds `num_columns` columns one after the other; each column holds
//! one value per entry of `indexes`, as 8 little-endian bytes. `indexes[i]` is
//! the table row that the `i`-th value of every column comes from.
use crate::evaluation::values;
use crate::field::{group_order, le_value, Fe};
use crate::transcript::pow256;
use vstd::arithmetic::div_mod::{
    lemma_add_mod_noop, lemma_fundamental_div_mod, lemma_mod_multiples_basic, lemma_small_mod,
};
use vstd::prelude::*;

verus! {

#[derive(Clone, Debug, PartialEq, Eq)]
pub struct ProvableQueryResult {
    pub num_columns: u64,
    pub indexes: Vec<u64>,
    pub data: Vec<u8>,
}

/// A verified query result: its columns of values.
#[derive(Clone, Debug, PartialEq, Eq)]
pub struct QueryResult {
    pub columns: Vec<Vec<u64>>,
}

/// The data holds exactly `num_columns` columns of `indexes.len()` values.
pub open spec fn is_well_formed(r: ProvableQueryResult) -> bool {
    r.data@.len() == 8 * r.num_columns * r.indexes@.len()
}

/// The `i`-th value of column `c`.
pub open spec fn value_at(r: ProvableQueryResult, c: int, i: int) -> nat {
    let start = 8 * (c * r.indexes@.len() + i);
    le_value(r.data@.subrange(start, start + 8))
}

/// The sum, over the first `m` values of column `c`, of the value times the
/// weight of the row it comes from.
pub open spec fn column_sum(r: ProvableQueryResult, weights: Seq<int>, c: int, m: nat) -> int
    decreases m,
{
    if m == 0 {
        0
    } else {
        column_sum(r, weights, c, (m - 1) as nat) + weights[r.indexes@[m - 1] as int] * value_at(
            r,
            c,
            m - 1,
        )
    }
}

/// Every row index of the result falls inside a vector of `n` weights.
pub open spec fn indexes_below(r: ProvableQueryResult, n: nat) -> bool {
    forall|i: int| 0 <= i < r.indexes@.len() ==> (#[trigger] r.indexes@[i]) < n
}

proof fn lemma_le_value_bound(b: Seq<u8>)
    ensures
        le_value(b) < pow256(b.len()),
    decreases b.len(),
{
    if b.len() > 0 {
        lemma_le_value_bound(b.drop_first());
        assert(pow256(b.len()) == 256 * pow256((b.len() - 1) as nat));
    }
}

/// Reads 8 little-endian bytes of `data` from `start`.
fn read_u64(data: &Vec<u8>, start: usize) -> (r: u64)
    requires
        start + 8 <= data@.len(),
    ensures
        r as nat == le_value(data@.subrange(start as int, start + 8)),
{
    let n = data.len();
    let mut acc: u64 = 0;
    let mut j: usize = 8;
    proof {
        assert(data@.subrange(start + 8, start + 8).len() == 0);
        reveal_with_fuel(pow256, 9);
        assert(pow256(8) == 18446744073709551616);
    }
    while j > 0
        invariant
            0 <= j <= 8,
            start + 8 <= data@.len(),
            n == data@.len(),
            pow256(8) == 18446744073709551616,
            acc as nat == le_value(data@.subrange(start + j, start + 8)),
        decreases j,
    {
        let ghost tail = data@.subrange(start + j, start + 8);
        let ghost s = data@.subrange(start + j - 1, start + 8);
        proof {
            assert(s.drop_first() =~= tail);
            lemma_le_value_bound(s);
            lemma_pow256_monotone(s.len(), 8);
        }
        let idx = start + (j - 1);
        acc = data[idx] as u64 + 256 * acc;
        j -= 1;
    }
    acc
}

proof fn lemma_pow256_monotone(a: nat, b: nat)
    requires
        a <= b,
    ensures
        1 <= pow256(a) <= pow256(b),
    decreases b,
{
    if a < b {
        lemma_pow256_monotone(a, (b - 1) as nat);
    } else if a > 0 {
        lemma_pow256_monotone((a - 1) as nat, (a - 1) as nat);
    }
}

impl ProvableQueryResult {
    /// The evaluations at a point of the result columns' multilinear
    /// extensions, given the point's evaluation vector; `None` where the data
    /// is not well formed or a row index falls outside the vector.
    pub fn evaluate(&self, evaluation_vec: &Vec<Fe>) -> (r: Option<Vec<Fe>>)
        ensures
            r.is_some() <==> is_well_formed(*self) && indexes_below(*self, evaluation_vec@.len()),
            r.is_some() ==> r.unwrap()@.len() == self.num_columns,
            r.is_some() ==> forall|c: int|
                0 <= c < self.num_columns ==> (#[trigger] r.unwrap()@[c]).val() == column_sum(
                    *self,
                    values(evaluation_vec@),
                    c,
                    self.indexes@.len(),
                ) % (group_order() as int),
    {
        let rows = self.indexes.len();
        let mut k: usize = 0;
        while k < rows
            invariant
                0 <= k <= rows == self.indexes@.len(),
                forall|i: int| 0 <= i < k ==> (#[trigger] self.indexes@[i]) < evaluation_vec@.len(),
            decreases rows - k,
        {
            if self.indexes[k] >= evaluation_vec.len() as u64 {
                return None;
            }
            k += 1;
        }
        if !self.is_well_formed() {
            return None;
        }
        let dlen = self.data.len();
        let ghost l = group_order() as int;
        let ghost w = values(evaluation_vec@);
        let mut out: Vec<Fe> = Vec::new();
        let mut c: u64 = 0;
        while c < self.num_columns
            invariant
                0 <= c <= self.num_columns,
                rows == self.indexes@.len(),
                dlen == self.data@.len(),
                is_well_formed(*self),
                indexes_below(*self, evaluation_vec@.len()),
                l == group_order() as int,
                w == values(evaluation_vec@),
                out@.len() == c,
                forall|d: int| 0 <= d < c ==> (#[trigger] out@[d]).val() == column_sum(*self, w, d, rows as nat) % l,
            decreases self.num_columns - c,
        {
            proof {
                assert(8 * (c + 1) * rows <= 8 * self.num_columns * rows) by (nonlinear_arith)
                    requires c + 1 <= self.num_columns;
            }
            proof {
                crate::field::lemma_group_order_above_one();
            }
            let mut acc = Fe::zero();
            let mut i: usize = 0;
            proof {
                assert(column_sum(*self, w, c as int, 0) == 0);
                assert(0int % l == 0);
            }
            while i < rows
                invariant
                    0 <= i <= rows == self.indexes@.len(),
                    c < self.num_columns,
                    dlen == self.data@.len(),
                    8 * (c + 1) * rows <= self.data@.len(),
                    is_well_formed(*self),
                    indexes_below(*self, evaluation_vec@.len()),
                    l == group_order() as int,
                    w == values(evaluation_vec@),
                    acc.val() == column_sum(*self, w, c as int, i as nat) % l,
                decreases rows - i,
            {
                proof {
                    assert(8 * (c * rows + i) + 8 <= 8 * (c + 1) * rows) by (nonlinear_arith)
                        requires i < rows;
                    assert(c <= c * rows) by (nonlinear_arith)
                        requires i < rows;
                }
                let start = 8 * ((c as usize) * rows + i);
                let x = read_u64(&self.data, start);
                let evlen = evaluation_vec.len();
                proof {
                    assert(self.indexes@[i as int] < evaluation_vec@.len());
                }
                let ix = self.indexes[i] as usize;
                let weight = &evaluation_vec[ix];
                let term = weight.mul(&Fe::from_u64(x));
                let next = acc.add(&term);
                proof {
                    let prev = column_sum(*self, w, c as int, i as nat);
                    let wv = weight.val() as int;
                    assert(ix == self.indexes@[i as int]);
                    assert(w[ix as int] == wv);
                    assert(x as nat == value_at(*self, c as int, i as int));
                    lemma_add_mod_noop(prev, wv * x, l);
                    lemma_small_mod(term.val(), group_order());
                    term.lemma_val_below_order();
                    acc.lemma_val_below_order();
                    lemma_small_mod(acc.val(), group_order());
                }
                acc = next;
                i += 1;
            }
            out.push(acc);
            c += 1;
        }
        Some(out)
    }

    fn is_well_formed(&self) -> (r: bool)
        ensures
            r == is_well_formed(*self),
    {
        let len = self.data.len();
        proof {
            let x = self.num_columns * self.indexes@.len();
            lemma_mod_multiples_basic(x as int, 8);
            lemma_fundamental_div_mod(len as int, 8);
            assert(8 * self.num_columns * self.indexes@.len() == x * 8) by (nonlinear_arith)
                requires x == self.num_columns * self.indexes@.len();
        }
        if len % 8 != 0 {
            return false;
        }
        let rows = self.indexes.len() as u128;
        let cols = self.num_columns as u128;
        proof {
            assert(cols * rows <= 0xffff_ffff_ffff_ffffu128 * 0xffff_ffff_ffff_ffffu128) by (nonlinear_arith)
                requires cols <= 0xffff_ffff_ffff_ffffu128, rows <= 0xffff_ffff_ffff_ffffu128;
        }
        cols * rows == (len / 8) as u128
    }

    /// The columns of values that the data holds; the result must be well
    /// formed.
    pub fn into_query_result(&self) -> (r: QueryResult)
        requires
            is_well_formed(*self),
        ensures
            r.columns@.len() == self.num_columns,
            forall|c: int|
                0 <= c < self.num_columns ==> (#[trigger] r.columns@[c])@.len() == self.indexes@.len(),
            forall|c: int, i: int|
                0 <= c < self.num_columns && 0 <= i < self.indexes@.len() ==> (
                #[trigger] r.columns@[c]@[i]) as nat == value_at(*self, c, i),
    {
        let rows = self.indexes.len();
        let dlen = self.data.len();
        let mut columns: Vec<Vec<u64>> = Vec::new();
        let mut c: u64 = 0;
        while c < self.num_columns
            invariant
                0 <= c <= self.num_columns,
                rows == self.indexes@.len(),
                dlen == self.data@.len(),
                is_well_formed(*self),
                columns@.len() == c,
                forall|d: int| 0 <= d < c ==> (#[trigger] columns@[d])@.len() == rows,
                forall|d: int, i: int|
                    0 <= d < c && 0 <= i < rows ==> (#[trigger] columns@[d]@[i]) as nat == value_at(*self, d, i),
            decreases self.num_columns - c,
        {
            proof {
                assert(8 * (c + 1) * rows <= 8 * self.num_columns * rows) by (nonlinear_arith)
                    requires c + 1 <= self.num_columns;
            }
            let mut column: Vec<u64> = Vec::new();
            let mut i: usize = 0;
            while i < rows
                invariant
                    0 <= i <= rows == self.indexes@.len(),
                    8 * (c + 1) * rows <= self.data@.len(),
                    dlen == self.data@.len(),
                    column@.len() == i,
                    forall|j: int| 0 <= j < i ==> (#[trigger] column@[j]) as nat == value_at(*self, c as int, j),
                decreases rows - i,
            {
                proof {
                    assert(8 * (c * rows + i) + 8 <= 8 * (c + 1) * rows) by (nonlinear_arith)
                        requires i < rows;
                    assert(c <= c * rows) by (nonlinear_arith)
                        requires i < rows;
                }
                column.push(read_u64(&self.data, 8 * ((c as usize) * rows + i)));
                i += 1;
            }
            columns.push(column);
            c += 1;
        }
        QueryResult { columns }
    }
}

} // verus!
