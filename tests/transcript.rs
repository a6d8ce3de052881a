use proofs::commitment::CompressedPoint;
use proofs::field::Fe;
use proofs::transcript::{append_scalars, challenge_scalars, make_transcript, MessageLabel};

fn fe(x: u64) -> Fe {
    Fe::from_u64(x)
}

fn start(data: &[u8]) -> merlin::Transcript {
    let commitments = vec![CompressedPoint { bytes: [0u8; 32] }];
    make_transcript(&commitments, &vec![0, 1, 2], &data.to_vec())
}

#[test]
fn identical_transcripts_draw_identical_challenges() {
    let mut t1 = start(b"abc");
    let mut t2 = start(b"abc");
    append_scalars(&mut t1, MessageLabel::QueryMleEvaluations, &vec![fe(1), fe(2)]);
    append_scalars(&mut t2, MessageLabel::QueryMleEvaluations, &vec![fe(1), fe(2)]);
    let c1 = challenge_scalars(&mut t1, MessageLabel::QueryMleEvaluationsChallenge, 3);
    let c2 = challenge_scalars(&mut t2, MessageLabel::QueryMleEvaluationsChallenge, 3);
    assert_eq!(c1.len(), 3);
    assert_eq!(c1, c2);
    assert_ne!(c1[0], c1[1]);
    // the next draw differs from the previous one, on both sides alike
    let d1 = challenge_scalars(&mut t1, MessageLabel::QueryMleEvaluationsChallenge, 3);
    let d2 = challenge_scalars(&mut t2, MessageLabel::QueryMleEvaluationsChallenge, 3);
    assert_eq!(d1, d2);
    assert_ne!(c1, d1);
}

#[test]
fn order_of_absorbed_values_changes_challenges() {
    let mut t1 = start(b"abc");
    let mut t2 = start(b"abc");
    append_scalars(&mut t1, MessageLabel::QueryMleEvaluations, &vec![fe(1)]);
    append_scalars(&mut t1, MessageLabel::QueryMleEvaluations, &vec![fe(2)]);
    append_scalars(&mut t2, MessageLabel::QueryMleEvaluations, &vec![fe(2)]);
    append_scalars(&mut t2, MessageLabel::QueryMleEvaluations, &vec![fe(1)]);
    let c1 = challenge_scalars(&mut t1, MessageLabel::QuerySumcheckChallenge, 2);
    let c2 = challenge_scalars(&mut t2, MessageLabel::QuerySumcheckChallenge, 2);
    assert_ne!(c1, c2);
}

#[test]
fn transcript_is_bound_to_the_result() {
    let mut t1 = start(b"abc");
    let mut t2 = start(b"abd");
    let c1 = challenge_scalars(&mut t1, MessageLabel::QuerySumcheckChallenge, 1);
    let c2 = challenge_scalars(&mut t2, MessageLabel::QuerySumcheckChallenge, 1);
    assert_ne!(c1, c2);
}

#[test]
fn labels_separate_challenges() {
    let mut t1 = start(b"abc");
    let mut t2 = start(b"abc");
    let c1 = challenge_scalars(&mut t1, MessageLabel::QuerySumcheckChallenge, 1);
    let c2 = challenge_scalars(&mut t2, MessageLabel::QueryMleEvaluationsChallenge, 1);
    assert_ne!(c1, c2);
}

#[test]
fn challenges_match_merlin_directly() {
    let mut t1 = start(b"abc");
    let mut t2 = start(b"abc");
    let c = challenge_scalars(&mut t1, MessageLabel::QuerySumcheckChallenge, 2);
    let mut buf = [0u8; 128];
    t2.challenge_bytes(b"query_sumcheck_challenge", &mut buf);
    let mut first = [0u8; 64];
    first.copy_from_slice(&buf[..64]);
    let mut second = [0u8; 64];
    second.copy_from_slice(&buf[64..]);
    assert_eq!(c[0], Fe::from_bytes_mod_order_wide(&first));
    assert_eq!(c[1], Fe::from_bytes_mod_order_wide(&second));
}

#[test]
fn no_challenge_scalars() {
    let mut t = start(b"");
    assert!(challenge_scalars(&mut t, MessageLabel::QuerySumcheckChallenge, 0).is_empty());
}
