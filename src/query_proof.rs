//! The proof of a query: its construction and its verification.
//!
//! The sumcheck and inner-product sub-protocols and the builders that turn a
//! query into algebraic constraints are supplied by the caller through the
//! traits below; this module sequences them around one transcript and checks
//! every piece of untrusted proof data before it is used.
use crate::commitment::{all_decompress, decompress_all, CompressedPoint};
use crate::evaluation::compute_evaluation_vector;
use crate::field::{pow2, Fe};
use crate::result::{
    indexes_below, is_well_formed, value_at, ProvableQueryResult, QueryResult,
};
use crate::transcript::{append_scalars, challenge_scalars, make_transcript, MessageLabel};
use curve25519_dalek::ristretto::RistrettoPoint;
use merlin::Transcript;
use vstd::prelude::*;

verus! {

/// The dimensions that fix the shape of a query proof.
#[derive(Clone, Copy, Debug, PartialEq, Eq)]
pub struct ProofCounts {
    /// The number `k` of sumcheck variables; the table is padded to `2^k` rows.
    pub sumcheck_variables: usize,
    pub sumcheck_max_multiplicands: usize,
    pub table_length: usize,
    pub sumcheck_subpolynomials: usize,
    pub intermediate_mles: usize,
    pub anchored_mles: usize,
    pub result_columns: usize,
}

/// The single error of verification: the proof is rejected.
#[derive(Clone, Copy, Debug, PartialEq, Eq)]
pub enum ProofError {
    VerificationError,
}

/// What the sumcheck verifier leaves to check: the polynomial's value at a
/// random point.
pub struct Subclaim {
    pub evaluation_point: Vec<Fe>,
    pub expected_evaluation: Fe,
}

/// The scalars that combine the constraint terms into one sumcheck polynomial.
pub struct SumcheckRandomScalars {
    pub entrywise_multipliers: Vec<Fe>,
    pub subpolynomial_multipliers: Vec<Fe>,
}

/// The evaluations at the sumcheck point that the verification builder reads.
pub struct SumcheckMleEvaluations {
    pub table_length: usize,
    pub evaluation_vec: Vec<Fe>,
    pub entrywise_multipliers: Vec<Fe>,
    pub pre_result_evaluations: Vec<Fe>,
    pub result_evaluations: Vec<Fe>,
}

/// What the verification builder derives from the claimed evaluations.
pub struct VerifierClaims {
    /// The composite polynomial's value at the sumcheck point.
    pub sumcheck_evaluation: Fe,
    /// The folding of the pre-result commitments.
    pub folded_commitment: RistrettoPoint,
    /// The folding of the claimed pre-result evaluations.
    pub folded_evaluation: Fe,
}

/// The proof of the sumcheck sub-protocol.
pub trait SumcheckProof {
    /// Checks the rounds against a claimed sum and returns the subclaim.
    fn verify_without_evaluation(
        &self,
        transcript: &mut Transcript,
        max_multiplicands: usize,
        num_variables: usize,
        claimed_sum: &Fe,
    ) -> Option<Subclaim>;
}

/// The proof of the inner-product sub-protocol.
pub trait EvaluationProof {
    /// Checks that the folded commitment opens to the folded evaluation
    /// against the evaluation vector. The impl derives the generators and
    /// shifts the commitment by the product generator times the evaluation
    /// before it runs the inner-product check.
    fn verify(
        &self,
        transcript: &mut Transcript,
        folded_commitment: &RistrettoPoint,
        folded_evaluation: &Fe,
        evaluation_vec: &Vec<Fe>,
    ) -> bool;
}

/// The prover's side of a query, filled from the data.
pub trait ProofBuilder<S, P> {
    fn commit_intermediate_mles(&self) -> Vec<CompressedPoint>;

    fn make_provable_query_result(&self) -> ProvableQueryResult;

    /// Builds the sumcheck polynomial, proves it and returns the proof with
    /// the point that its rounds drew.
    fn create_sumcheck_proof(
        &self,
        transcript: &mut Transcript,
        scalars: &SumcheckRandomScalars,
    ) -> (S, Vec<Fe>);

    fn evaluate_pre_result_mles(&self, evaluation_vec: &Vec<Fe>) -> Vec<Fe>;

    /// Folds the pre-result MLEs and proves the folding's evaluation; the impl
    /// derives the generators that the inner-product proof runs against.
    fn create_evaluation_proof(
        &self,
        transcript: &mut Transcript,
        folding_scalars: &Vec<Fe>,
        evaluation_vec: &Vec<Fe>,
    ) -> P;
}

/// A query, as the algebraic constraints it induces on both sides.
pub trait QueryExpr<A, B> {
    fn prover_evaluate(&self, accessor: &A, counts: &ProofCounts) -> B;

    fn verifier_evaluate(
        &self,
        accessor: &A,
        evaluations: &SumcheckMleEvaluations,
        commitments: &Vec<RistrettoPoint>,
        subpolynomial_multipliers: &Vec<Fe>,
        folding_scalars: &Vec<Fe>,
    ) -> VerifierClaims;
}

/// The number of scalars that combine the sumcheck terms.
pub open spec fn sumcheck_scalar_count(counts: ProofCounts) -> int {
    counts.table_length + counts.sumcheck_subpolynomials
}

impl SumcheckRandomScalars {
    /// Splits drawn scalars: one per table row, then one per subpolynomial.
    pub fn new(counts: &ProofCounts, scalars: &Vec<Fe>) -> (r: SumcheckRandomScalars)
        requires
            scalars@.len() == sumcheck_scalar_count(*counts),
        ensures
            r.entrywise_multipliers@ == scalars@.subrange(0, counts.table_length as int),
            r.subpolynomial_multipliers@ == scalars@.subrange(
                counts.table_length as int,
                scalars@.len() as int,
            ),
    {
        let mut entrywise: Vec<Fe> = Vec::new();
        let mut subpolynomial: Vec<Fe> = Vec::new();
        let mut i: usize = 0;
        while i < scalars.len()
            invariant
                0 <= i <= scalars@.len() == sumcheck_scalar_count(*counts),
                i <= counts.table_length ==> entrywise@ == scalars@.subrange(0, i as int),
                i <= counts.table_length ==> subpolynomial@.len() == 0,
                i > counts.table_length ==> entrywise@ == scalars@.subrange(
                    0,
                    counts.table_length as int,
                ),
                i > counts.table_length ==> subpolynomial@ == scalars@.subrange(
                    counts.table_length as int,
                    i as int,
                ),
            decreases scalars@.len() - i,
        {
            if i < counts.table_length {
                entrywise.push(scalars[i]);
            } else {
                subpolynomial.push(scalars[i]);
            }
            i += 1;
            proof {
                if i <= counts.table_length {
                    assert(entrywise@ =~= scalars@.subrange(0, i as int));
                } else {
                    assert(subpolynomial@ =~= scalars@.subrange(counts.table_length as int, i as int));
                }
            }
        }
        proof {
            if scalars@.len() <= counts.table_length {
                assert(subpolynomial@ =~= scalars@.subrange(
                    counts.table_length as int,
                    scalars@.len() as int,
                ));
            }
        }
        SumcheckRandomScalars { entrywise_multipliers: entrywise, subpolynomial_multipliers: subpolynomial }
    }
}

/// The proof of one query. Its fields come from untrusted input and carry
/// no invariant: `verify` checks each of them.
pub struct QueryProof<S, P> {
    pub commitments: Vec<CompressedPoint>,
    pub sumcheck_proof: S,
    pub pre_result_mle_evaluations: Vec<Fe>,
    pub evaluation_proof: P,
}

/// The proof and the result have the sizes that the counts fix.
pub open spec fn sizes_valid<S, P>(
    proof: QueryProof<S, P>,
    counts: ProofCounts,
    result: ProvableQueryResult,
) -> bool {
    &&& result.num_columns == counts.result_columns
    &&& proof.commitments@.len() == counts.intermediate_mles
    &&& proof.pre_result_mle_evaluations@.len() == counts.intermediate_mles + counts.anchored_mles
}

/// Every message and challenge of the proof fits what the transcript can
/// absorb or draw at once (`u32::MAX` bytes).
pub open spec fn within_transcript_limits<S, P>(
    proof: QueryProof<S, P>,
    counts: ProofCounts,
    result: ProvableQueryResult,
) -> bool {
    lengths_fit(
        proof.commitments@.len(),
        result,
        counts,
        proof.pre_result_mle_evaluations@.len(),
    )
}

/// `q` holds the columns that the well-formed result `r` encodes.
pub open spec fn decodes_to(r: ProvableQueryResult, q: QueryResult) -> bool {
    &&& q.columns@.len() == r.num_columns
    &&& forall|c: int| 0 <= c < r.num_columns ==> (#[trigger] q.columns@[c])@.len() == r.indexes@.len()
    &&& forall|c: int, i: int|
        0 <= c < r.num_columns && 0 <= i < r.indexes@.len() ==> (#[trigger] q.columns@[c]@[i]) as nat
            == value_at(r, c, i)
}

/// Messages of these lengths, and the challenges that the counts call for,
/// fit what the transcript can absorb or draw at once (`u32::MAX` bytes).
pub open spec fn lengths_fit(
    commitments: nat,
    result: ProvableQueryResult,
    counts: ProofCounts,
    evaluations: nat,
) -> bool {
    &&& 32 * commitments <= u32::MAX
    &&& 8 * result.indexes@.len() <= u32::MAX
    &&& result.data@.len() <= u32::MAX
    &&& 64 * sumcheck_scalar_count(counts) <= u32::MAX
    &&& 64 * evaluations <= u32::MAX
}

/// Whether `commitments` compressed points, the result and `evaluations`
/// field elements fit the transcript, with the challenges the counts call for.
pub fn fits_transcript(
    commitments: usize,
    result: &ProvableQueryResult,
    counts: &ProofCounts,
    evaluations: usize,
) -> (r: bool)
    ensures
        r == lengths_fit(commitments as nat, *result, *counts, evaluations as nat),
{
    let limit: usize = 0xffff_ffff;
    commitments <= limit / 32 && result.indexes.len() <= limit / 8 && result.data.len() <= limit
        && counts.table_length <= limit / 64 && counts.sumcheck_subpolynomials <= limit / 64 - counts.table_length
        && evaluations <= limit / 64
}

/// The verifier's decision once the sub-protocols have answered: the proof
/// is accepted exactly when the subclaim's point has one coordinate per
/// sumcheck variable, the builder's value of the composite polynomial equals
/// the subclaim's expected evaluation, and the opening was accepted. On
/// acceptance the result's columns are returned.
pub fn conclude(
    subclaim: &Subclaim,
    claims: &VerifierClaims,
    opening_ok: bool,
    counts: &ProofCounts,
    result: &ProvableQueryResult,
) -> (r: Result<QueryResult, ProofError>)
    requires
        is_well_formed(*result),
    ensures
        (r is Ok) == (subclaim.evaluation_point@.len() == counts.sumcheck_variables
            && claims.sumcheck_evaluation.val() == subclaim.expected_evaluation.val()
            && opening_ok),
        r is Ok ==> decodes_to(*result, r.unwrap()),
        r is Err ==> r == Err::<QueryResult, ProofError>(ProofError::VerificationError),
{
    if subclaim.evaluation_point.len() != counts.sumcheck_variables {
        return Err(ProofError::VerificationError);
    }
    if !claims.sumcheck_evaluation.equals(&subclaim.expected_evaluation) {
        return Err(ProofError::VerificationError);
    }
    if !opening_ok {
        return Err(ProofError::VerificationError);
    }
    Ok(result.into_query_result())
}

/// Puts the prover's outputs together into a proof. `None` exactly when the
/// sumcheck point does not have one coordinate per sumcheck variable or a
/// message would not fit the transcript; sizes that differ from the counts
/// are left for the verifier to reject.
pub fn assemble<S, P>(
    commitments: Vec<CompressedPoint>,
    sumcheck_proof: S,
    point_len: usize,
    pre_result_mle_evaluations: Vec<Fe>,
    evaluation_proof: P,
    result: ProvableQueryResult,
    counts: &ProofCounts,
) -> (r: Option<(QueryProof<S, P>, ProvableQueryResult)>)
    ensures
        r is None <==> (point_len != counts.sumcheck_variables || !lengths_fit(
            commitments@.len(),
            result,
            *counts,
            pre_result_mle_evaluations@.len(),
        )),
        r is Some ==> {
            let (proof, res) = r.unwrap();
            &&& proof.commitments == commitments
            &&& proof.sumcheck_proof == sumcheck_proof
            &&& proof.pre_result_mle_evaluations == pre_result_mle_evaluations
            &&& proof.evaluation_proof == evaluation_proof
            &&& res == result
        },
{
    if point_len != counts.sumcheck_variables {
        return None;
    }
    if !fits_transcript(commitments.len(), &result, counts, pre_result_mle_evaluations.len()) {
        return None;
    }
    Some((QueryProof { commitments, sumcheck_proof, pre_result_mle_evaluations, evaluation_proof }, result))
}

impl<S: SumcheckProof, P: EvaluationProof> QueryProof<S, P> {
    /// Whether the proof and the result have the sizes that the counts fix.
    pub fn validate_sizes(&self, counts: &ProofCounts, result: &ProvableQueryResult) -> (r: bool)
        ensures
            r == sizes_valid(*self, *counts, *result),
    {
        result.num_columns == counts.result_columns as u64
            && self.commitments.len() == counts.intermediate_mles
            && self.pre_result_mle_evaluations.len() >= counts.intermediate_mles
            && self.pre_result_mle_evaluations.len() - counts.intermediate_mles == counts.anchored_mles
    }

    /// Verifies the proof of `expr` against the public result and returns the
    /// result's columns. Any failed check rejects the proof with the one error
    /// `VerificationError`: a size that differs from the counts, a commitment
    /// that does not decompress, a message too long for the transcript, a
    /// failed sumcheck, a malformed result, a mismatch between the builder's
    /// evaluation and the subclaim, or a failed opening.
    pub fn verify<A, B, E: QueryExpr<A, B>>(
        &self,
        expr: &E,
        accessor: &A,
        counts: &ProofCounts,
        result: &ProvableQueryResult,
    ) -> (r: Result<QueryResult, ProofError>)
        requires
            counts.sumcheck_variables > 0,
            pow2(counts.sumcheck_variables as nat) <= usize::MAX,
        ensures
            !sizes_valid(*self, *counts, *result) ==> r is Err,
            sizes_valid(*self, *counts, *result) && !all_decompress(self.commitments@) ==> r is Err,
            r is Ok ==> {
                &&& sizes_valid(*self, *counts, *result)
                &&& all_decompress(self.commitments@)
                &&& within_transcript_limits(*self, *counts, *result)
                &&& is_well_formed(*result)
                &&& indexes_below(*result, pow2(counts.sumcheck_variables as nat))
                &&& decodes_to(*result, r.unwrap())
            },
    {
        if !self.validate_sizes(counts, result) {
            return Err(ProofError::VerificationError);
        }
        let commitments = match decompress_all(&self.commitments) {
            Some(c) => c,
            None => return Err(ProofError::VerificationError),
        };
        if !fits_transcript(self.commitments.len(), result, counts, self.pre_result_mle_evaluations.len()) {
            return Err(ProofError::VerificationError);
        }
        let mut transcript = make_transcript(&self.commitments, &result.indexes, &result.data);

        let count = counts.table_length + counts.sumcheck_subpolynomials;
        let random_scalars = challenge_scalars(&mut transcript, MessageLabel::QuerySumcheckChallenge, count);
        let sumcheck_random_scalars = SumcheckRandomScalars::new(counts, &random_scalars);

        let subclaim = match self.sumcheck_proof.verify_without_evaluation(
            &mut transcript,
            counts.sumcheck_max_multiplicands,
            counts.sumcheck_variables,
            &Fe::zero(),
        ) {
            Some(s) => s,
            None => return Err(ProofError::VerificationError),
        };
        if subclaim.evaluation_point.len() != counts.sumcheck_variables {
            return Err(ProofError::VerificationError);
        }
        let evaluation_vec = compute_evaluation_vector(&subclaim.evaluation_point);

        append_scalars(&mut transcript, MessageLabel::QueryMleEvaluations, &self.pre_result_mle_evaluations);
        let evaluation_random_scalars = challenge_scalars(
            &mut transcript,
            MessageLabel::QueryMleEvaluationsChallenge,
            self.pre_result_mle_evaluations.len(),
        );

        let result_evaluations = match result.evaluate(&evaluation_vec) {
            Some(e) => e,
            None => return Err(ProofError::VerificationError),
        };

        let sumcheck_evaluations = SumcheckMleEvaluations {
            table_length: counts.table_length,
            evaluation_vec: evaluation_vec.clone(),
            entrywise_multipliers: sumcheck_random_scalars.entrywise_multipliers,
            pre_result_evaluations: self.pre_result_mle_evaluations.clone(),
            result_evaluations,
        };
        let claims = expr.verifier_evaluate(
            accessor,
            &sumcheck_evaluations,
            &commitments,
            &sumcheck_random_scalars.subpolynomial_multipliers,
            &evaluation_random_scalars,
        );

        // the opening is checked only once the sumcheck evaluation matches
        let opening_ok = if claims.sumcheck_evaluation.equals(&subclaim.expected_evaluation) {
            self.evaluation_proof.verify(
                &mut transcript,
                &claims.folded_commitment,
                &claims.folded_evaluation,
                &evaluation_vec,
            )
        } else {
            false
        };
        conclude(&subclaim, &claims, opening_ok, counts, result)
    }

    /// Proves `expr` over the data behind `accessor` and returns the proof
    /// with the public result. `None` only where the builder's output cannot
    /// make a proof at all: a message too long for the transcript
    /// (`fits_transcript`) or a sumcheck point of the wrong length; the last
    /// step is `assemble`, which decides on both.
    pub fn new<A, B: ProofBuilder<S, P>, E: QueryExpr<A, B>>(
        expr: &E,
        accessor: &A,
        counts: &ProofCounts,
    ) -> (r: Option<(QueryProof<S, P>, ProvableQueryResult)>)
        requires
            counts.sumcheck_variables > 0,
            pow2(counts.sumcheck_variables as nat) <= usize::MAX,
        ensures
            r is Some ==> {
                let (proof, result) = r.unwrap();
                within_transcript_limits(proof, *counts, result)
            },
    {
        let builder = expr.prover_evaluate(accessor, counts);
        let commitments = builder.commit_intermediate_mles();
        let provable_result = builder.make_provable_query_result();
        if !fits_transcript(commitments.len(), &provable_result, counts, 0) {
            return None;
        }
        let mut transcript = make_transcript(&commitments, &provable_result.indexes, &provable_result.data);

        let count = counts.table_length + counts.sumcheck_subpolynomials;
        let random_scalars = challenge_scalars(&mut transcript, MessageLabel::QuerySumcheckChallenge, count);
        let sumcheck_random_scalars = SumcheckRandomScalars::new(counts, &random_scalars);
        let (sumcheck_proof, evaluation_point) = builder.create_sumcheck_proof(&mut transcript, &sumcheck_random_scalars);
        if evaluation_point.len() != counts.sumcheck_variables {
            return None;
        }
        let evaluation_vec = compute_evaluation_vector(&evaluation_point);
        let pre_result_mle_evaluations = builder.evaluate_pre_result_mles(&evaluation_vec);
        if !fits_transcript(commitments.len(), &provable_result, counts, pre_result_mle_evaluations.len()) {
            return None;
        }
        append_scalars(&mut transcript, MessageLabel::QueryMleEvaluations, &pre_result_mle_evaluations);
        let folding_scalars = challenge_scalars(
            &mut transcript,
            MessageLabel::QueryMleEvaluationsChallenge,
            pre_result_mle_evaluations.len(),
        );
        let evaluation_proof = builder.create_evaluation_proof(&mut transcript, &folding_scalars, &evaluation_vec);
        assemble(
            commitments,
            sumcheck_proof,
            evaluation_point.len(),
            pre_result_mle_evaluations,
            evaluation_proof,
            provable_result,
            counts,
        )
    }
}

} // verus!
