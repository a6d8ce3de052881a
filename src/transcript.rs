//! The Fiat-Shamir transcript of a query proof, kept by merlin.
//!
//! A transcript is modelled by the sequence of operations it has absorbed:
//! `(false, label, message)` for an appended message and
//! `(true, label, output)` for drawn challenge bytes.
use crate::commitment::{lemma_points_bytes_len, points_bytes, CompressedPoint};
use crate::field::{group_order, le_value, Fe};
use byte_slice_cast::AsByteSlice;
use merlin::Transcript;
use vstd::prelude::*;

verus! {

#[verifier::external_type_specification]
#[verifier::external_body]
pub struct ExTranscript(Transcript);

/// The operations that a merlin transcript has absorbed, in order.
pub uninterp spec fn absorbed(t: Transcript) -> Seq<(bool, Seq<u8>, Seq<u8>)>;

/// What `Transcript::challenge_bytes` writes for a label and a length, after
/// a given sequence of absorbed operations.
pub uninterp spec fn merlin_challenge(
    ops: Seq<(bool, Seq<u8>, Seq<u8>)>,
    label: Seq<u8>,
    len: nat,
) -> Seq<u8>;

/// The label under which `Transcript::new` appends its own label: `dom-sep`.
pub open spec fn dom_sep() -> Seq<u8> {
    seq![100u8, 111, 109, 45, 115, 101, 112]
}

pub const QUERY_PROOF_BYTES: [u8; 11] = [113, 117, 101, 114, 121, 95, 112, 114, 111, 111, 102];
pub const QUERY_COMMIT_BYTES: [u8; 12] = [113, 117, 101, 114, 121, 95, 99, 111, 109, 109, 105, 116];
pub const QUERY_RESULT_INDEXES_BYTES: [u8; 20] = [113, 117, 101, 114, 121, 95, 114, 101, 115, 117, 108, 116, 95, 105, 110, 100, 101, 120, 101, 115];
pub const QUERY_RESULT_DATA_BYTES: [u8; 17] = [113, 117, 101, 114, 121, 95, 114, 101, 115, 117, 108, 116, 95, 100, 97, 116, 97];
pub const QUERY_SUMCHECK_CHALLENGE_BYTES: [u8; 24] = [113, 117, 101, 114, 121, 95, 115, 117, 109, 99, 104, 101, 99, 107, 95, 99, 104, 97, 108, 108, 101, 110, 103, 101];
pub const QUERY_MLE_EVALUATIONS_BYTES: [u8; 21] = [113, 117, 101, 114, 121, 95, 109, 108, 101, 95, 101, 118, 97, 108, 117, 97, 116, 105, 111, 110, 115];
pub const QUERY_MLE_EVALUATIONS_CHALLENGE_BYTES: [u8; 31] = [113, 117, 101, 114, 121, 95, 109, 108, 101, 95, 101, 118, 97, 108, 117, 97, 116, 105, 111, 110, 115, 95, 99, 104, 97, 108, 108, 101, 110, 103, 101];

/// The labels that separate the steps of a query proof in its transcript.
#[derive(Clone, Copy, Debug, PartialEq, Eq)]
pub enum MessageLabel {
    /// Seeds a fresh transcript.
    QueryProof,
    /// The intermediate commitments.
    QueryCommit,
    /// The row indexes of the result.
    QueryResultIndexes,
    /// The encoded columns of the result.
    QueryResultData,
    /// The scalars that combine the constraint terms.
    QuerySumcheckChallenge,
    /// The claimed evaluations of the pre-result MLEs.
    QueryMleEvaluations,
    /// The scalars that fold the pre-result MLEs.
    QueryMleEvaluationsChallenge,
}

impl MessageLabel {
    pub open spec fn bytes(self) -> Seq<u8> {
        match self {
            MessageLabel::QueryProof => QUERY_PROOF_BYTES@,
            MessageLabel::QueryCommit => QUERY_COMMIT_BYTES@,
            MessageLabel::QueryResultIndexes => QUERY_RESULT_INDEXES_BYTES@,
            MessageLabel::QueryResultData => QUERY_RESULT_DATA_BYTES@,
            MessageLabel::QuerySumcheckChallenge => QUERY_SUMCHECK_CHALLENGE_BYTES@,
            MessageLabel::QueryMleEvaluations => QUERY_MLE_EVALUATIONS_BYTES@,
            MessageLabel::QueryMleEvaluationsChallenge => QUERY_MLE_EVALUATIONS_CHALLENGE_BYTES@,
        }
    }

    pub fn as_bytes(&self) -> (r: &'static [u8])
        ensures
            r@ == self.bytes(),
    {
        match self {
            MessageLabel::QueryProof => &QUERY_PROOF_BYTES,
            MessageLabel::QueryCommit => &QUERY_COMMIT_BYTES,
            MessageLabel::QueryResultIndexes => &QUERY_RESULT_INDEXES_BYTES,
            MessageLabel::QueryResultData => &QUERY_RESULT_DATA_BYTES,
            MessageLabel::QuerySumcheckChallenge => &QUERY_SUMCHECK_CHALLENGE_BYTES,
            MessageLabel::QueryMleEvaluations => &QUERY_MLE_EVALUATIONS_BYTES,
            MessageLabel::QueryMleEvaluationsChallenge => &QUERY_MLE_EVALUATIONS_CHALLENGE_BYTES,
        }
    }
}

/// Relies on `merlin::Transcript::new`: a fresh transcript that has absorbed
/// its label under `dom-sep`; it panics on a label longer than `u32::MAX`
/// bytes.
#[verifier::external_body]
fn transcript_new(label: &'static [u8]) -> (r: Transcript)
    requires
        label@.len() <= u32::MAX,
    ensures
        absorbed(r) == seq![(false, dom_sep(), label@)],
{
    Transcript::new(label)
}

/// Relies on `merlin::Transcript::append_message`, which panics on a message
/// longer than `u32::MAX` bytes.
#[verifier::external_body]
fn transcript_append(t: &mut Transcript, label: &'static [u8], message: &[u8])
    requires
        message@.len() <= u32::MAX,
    ensures
        absorbed(*final(t)) == absorbed(*old(t)).push((false, label@, message@)),
{
    t.append_message(label, message)
}

/// Relies on `merlin::Transcript::challenge_bytes`: it fills `len` bytes that
/// depend on what was absorbed before, the label and the length alone, and
/// panics on a length over `u32::MAX`.
#[verifier::external_body]
fn transcript_challenge(t: &mut Transcript, label: &'static [u8], len: usize) -> (r: Vec<u8>)
    requires
        len <= u32::MAX,
    ensures
        r@ == merlin_challenge(absorbed(*old(t)), label@, len as nat),
        r@.len() == len,
        absorbed(*final(t)) == absorbed(*old(t)).push((true, label@, r@)),
{
    let mut dest = vec![0u8; len];
    t.challenge_bytes(label, &mut dest);
    dest
}

/// The eight little-endian bytes of `x`.
pub open spec fn u64_le(x: u64) -> Seq<u8> {
    Seq::new(8, |j: int| ((x as int / pow256(j as nat)) % 256) as u8)
}

pub open spec fn pow256(e: nat) -> int
    decreases e,
{
    if e == 0 {
        1
    } else {
        256 * pow256((e - 1) as nat)
    }
}

/// The bytes of the words in order, each word little-endian or each big-endian.
pub open spec fn words_bytes(v: Seq<u64>, little: bool) -> Seq<u8>
    decreases v.len(),
{
    if v.len() == 0 {
        Seq::empty()
    } else {
        let w = if little {
            u64_le(v.last())
        } else {
            u64_le(v.last()).reverse()
        };
        words_bytes(v.drop_last(), little) + w
    }
}

/// `b` is the memory image of `v` on some machine: its words in order, in
/// that machine's byte order.
pub open spec fn native_bytes(v: Seq<u64>, b: Seq<u8>) -> bool {
    b == words_bytes(v, true) || b == words_bytes(v, false)
}

/// Relies on `AsByteSlice::as_byte_slice` on `[u64]`: the words' memory image,
/// in the byte order of the machine.
#[verifier::external_body]
fn words_as_bytes(v: &[u64]) -> (r: Vec<u8>)
    ensures
        native_bytes(v@, r@),
{
    v.as_byte_slice().to_vec()
}

/// The concatenated canonical encodings of field elements.
pub open spec fn scalars_bytes(s: Seq<Fe>) -> Seq<u8>
    decreases s.len(),
{
    if s.len() == 0 {
        Seq::empty()
    } else {
        scalars_bytes(s.drop_last()) + s.last().encoding()
    }
}

pub proof fn lemma_scalars_bytes_len(s: Seq<Fe>)
    ensures
        scalars_bytes(s).len() == 32 * s.len(),
    decreases s.len(),
{
    if s.len() > 0 {
        lemma_scalars_bytes_len(s.drop_last());
        s.last().lemma_encoding_len();
    }
}

/// The scalar drawn from the `i`-th 64 bytes of challenge bytes.
pub open spec fn wide_value(bytes: Seq<u8>, i: int) -> nat {
    le_value(bytes.subrange(64 * i, 64 * i + 64)) % group_order()
}

/// Appends a message under a label of the query protocol.
pub fn append_message(t: &mut Transcript, label: MessageLabel, message: &[u8])
    requires
        message@.len() <= u32::MAX,
    ensures
        absorbed(*final(t)) == absorbed(*old(t)).push((false, label.bytes(), message@)),
{
    transcript_append(t, label.as_bytes(), message)
}

/// Appends the encodings of compressed points, in order, as one message.
pub fn append_points(t: &mut Transcript, label: MessageLabel, points: &Vec<CompressedPoint>)
    requires
        32 * points@.len() <= u32::MAX,
    ensures
        absorbed(*final(t)) == absorbed(*old(t)).push((false, label.bytes(), points_bytes(points@))),
{
    let message = crate::commitment::concat_points(points);
    proof {
        lemma_points_bytes_len(points@);
    }
    append_message(t, label, message.as_slice());
}

/// Appends the canonical encodings of field elements, in order, as one message.
pub fn append_scalars(t: &mut Transcript, label: MessageLabel, scalars: &Vec<Fe>)
    requires
        32 * scalars@.len() <= u32::MAX,
    ensures
        absorbed(*final(t)) == absorbed(*old(t)).push((false, label.bytes(), scalars_bytes(scalars@))),
{
    let mut message: Vec<u8> = Vec::new();
    let mut i: usize = 0;
    while i < scalars.len()
        invariant
            0 <= i <= scalars@.len(),
            message@ == scalars_bytes(scalars@.subrange(0, i as int)),
        decreases scalars@.len() - i,
    {
        let enc = scalars[i].to_bytes();
        let ghost before = message@;
        let mut k: usize = 0;
        while k < 32
            invariant
                0 <= k <= 32,
                enc@.len() == 32,
                message@ == before + enc@.subrange(0, k as int),
            decreases 32 - k,
        {
            message.push(enc[k]);
            k += 1;
            proof {
                assert(enc@.subrange(0, k as int) =~= enc@.subrange(0, k - 1) + seq![enc@[k - 1]]);
            }
        }
        proof {
            let pre = scalars@.subrange(0, i as int + 1);
            assert(pre.drop_last() =~= scalars@.subrange(0, i as int));
            assert(enc@.subrange(0, 32) =~= enc@);
        }
        i += 1;
    }
    proof {
        assert(scalars@.subrange(0, scalars@.len() as int) =~= scalars@);
        lemma_scalars_bytes_len(scalars@);
    }
    append_message(t, label, message.as_slice());
}

/// Draws `n` field elements: `64 * n` challenge bytes under the label, each
/// 64 of them read as a little-endian integer reduced modulo the group order.
pub fn challenge_scalars(t: &mut Transcript, label: MessageLabel, n: usize) -> (r: Vec<Fe>)
    requires
        64 * n <= u32::MAX,
    ensures
        ({
            let bytes = merlin_challenge(absorbed(*old(t)), label.bytes(), 64 * n as nat);
            &&& absorbed(*final(t)) == absorbed(*old(t)).push((true, label.bytes(), bytes))
            &&& r@.len() == n
            &&& forall|i: int| 0 <= i < n ==> (#[trigger] r@[i]).val() == wide_value(bytes, i)
        }),
{
    let bytes = transcript_challenge(t, label.as_bytes(), 64 * n);
    let mut r: Vec<Fe> = Vec::new();
    let mut i: usize = 0;
    while i < n
        invariant
            0 <= i <= n,
            64 * n <= u32::MAX,
            bytes@.len() == 64 * n,
            r@.len() == i,
            forall|j: int| 0 <= j < i ==> (#[trigger] r@[j]).val() == wide_value(bytes@, j),
        decreases n - i,
    {
        let mut chunk: [u8; 64] = [0u8; 64];
        let mut k: usize = 0;
        while k < 64
            invariant
                0 <= k <= 64,
                0 <= i < n,
                64 * n <= u32::MAX,
                bytes@.len() == 64 * n,
                forall|m: int| 0 <= m < k ==> chunk@[m] == bytes@[64 * i + m],
            decreases 64 - k,
        {
            chunk[k] = bytes[64 * i + k];
            k += 1;
        }
        proof {
            assert(chunk@ =~= bytes@.subrange(64 * i, 64 * i + 64));
        }
        r.push(Fe::from_bytes_mod_order_wide(&chunk));
        i += 1;
    }
    r
}

/// A fresh transcript for one query proof, bound to the intermediate
/// commitments, the row indexes of the result and its encoded data, in that
/// order, before any challenge is drawn.
pub fn make_transcript(
    commitments: &Vec<CompressedPoint>,
    result_indexes: &Vec<u64>,
    result_data: &Vec<u8>,
) -> (r: Transcript)
    requires
        32 * commitments@.len() <= u32::MAX,
        8 * result_indexes@.len() <= u32::MAX,
        result_data@.len() <= u32::MAX,
    ensures
        is_query_transcript_start(absorbed(r), commitments@, result_indexes@, result_data@),
{
    let mut t = transcript_new(MessageLabel::QueryProof.as_bytes());
    append_points(&mut t, MessageLabel::QueryCommit, commitments);
    let index_bytes = words_as_bytes(result_indexes.as_slice());
    proof {
        lemma_words_bytes_len(result_indexes@, true);
        lemma_words_bytes_len(result_indexes@, false);
    }
    append_message(&mut t, MessageLabel::QueryResultIndexes, index_bytes.as_slice());
    append_message(&mut t, MessageLabel::QueryResultData, result_data.as_slice());
    t
}

/// The four operations that open the transcript of a query proof.
pub open spec fn is_query_transcript_start(
    ops: Seq<(bool, Seq<u8>, Seq<u8>)>,
    commitments: Seq<CompressedPoint>,
    result_indexes: Seq<u64>,
    result_data: Seq<u8>,
) -> bool {
    &&& ops.len() == 4
    &&& ops[0] == (false, dom_sep(), MessageLabel::QueryProof.bytes())
    &&& ops[1] == (false, MessageLabel::QueryCommit.bytes(), points_bytes(commitments))
    &&& ops[2].0 == false && ops[2].1 == MessageLabel::QueryResultIndexes.bytes()
    &&& native_bytes(result_indexes, ops[2].2)
    &&& ops[3] == (false, MessageLabel::QueryResultData.bytes(), result_data)
}

proof fn lemma_words_bytes_len(v: Seq<u64>, little: bool)
    ensures
        words_bytes(v, little).len() == 8 * v.len(),
    decreases v.len(),
{
    if v.len() > 0 {
        lemma_words_bytes_len(v.drop_last(), little);
    }
}

/// Two transcripts that have absorbed the same operations draw the same
/// challenge scalars under the same label, and have absorbed the same
/// operations afterwards, so that every later draw agrees as well.
pub proof fn lemma_challenges_deterministic(
    ops1: Seq<(bool, Seq<u8>, Seq<u8>)>,
    ops2: Seq<(bool, Seq<u8>, Seq<u8>)>,
    label: MessageLabel,
    n: nat,
)
    requires
        ops1 == ops2,
    ensures
        ({
            let b1 = merlin_challenge(ops1, label.bytes(), 64 * n);
            let b2 = merlin_challenge(ops2, label.bytes(), 64 * n);
            &&& forall|i: int| 0 <= i < n ==> #[trigger] wide_value(b1, i) == wide_value(b2, i)
            &&& ops1.push((true, label.bytes(), b1)) == ops2.push((true, label.bytes(), b2))
        }),
{
}

} // verus!
