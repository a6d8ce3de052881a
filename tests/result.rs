use proofs::commitment::{concat_points, decompress_all, CompressedPoint};
use proofs::evaluation::compute_evaluation_vector;
use proofs::field::Fe;
use proofs::result::ProvableQueryResult;

fn fe(x: u64) -> Fe {
    Fe::from_u64(x)
}

fn two_columns() -> ProvableQueryResult {
    let mut data = Vec::new();
    for v in [5u64, 7, 1 << 40, 9] {
        data.extend_from_slice(&v.to_le_bytes());
    }
    ProvableQueryResult { num_columns: 2, indexes: vec![1, 3], data }
}

#[test]
fn result_evaluates_each_column_at_its_rows() {
    let ev = compute_evaluation_vector(&vec![fe(3), fe(5)]);
    let r = two_columns().evaluate(&ev).unwrap();
    assert_eq!(r.len(), 2);
    assert_eq!(r[0], ev[1].mul(&fe(5)).add(&ev[3].mul(&fe(7))));
    assert_eq!(r[1], ev[1].mul(&fe(1 << 40)).add(&ev[3].mul(&fe(9))));
}

#[test]
fn malformed_results_do_not_evaluate() {
    let ev = compute_evaluation_vector(&vec![fe(3)]);
    // row 3 lies outside a two-row vector
    assert!(two_columns().evaluate(&ev).is_none());
    let ev = compute_evaluation_vector(&vec![fe(3), fe(5)]);
    let mut short = two_columns();
    short.data.pop();
    assert!(short.evaluate(&ev).is_none());
    let mut extra = two_columns();
    extra.num_columns = 3;
    assert!(extra.evaluate(&ev).is_none());
}

#[test]
fn empty_result_evaluates_to_zero() {
    let ev = compute_evaluation_vector(&vec![fe(3)]);
    let r = ProvableQueryResult { num_columns: 1, indexes: vec![], data: vec![] };
    assert_eq!(r.evaluate(&ev), Some(vec![Fe::zero()]));
}

#[test]
fn result_decodes_to_columns() {
    let q = two_columns().into_query_result();
    assert_eq!(q.columns, vec![vec![5, 7], vec![1 << 40, 9]]);
}

#[test]
fn points_concatenate_in_order() {
    let a = CompressedPoint { bytes: [1u8; 32] };
    let b = CompressedPoint { bytes: [2u8; 32] };
    let bytes = concat_points(&vec![a, b]);
    assert_eq!(bytes.len(), 64);
    assert!(bytes[..32].iter().all(|x| *x == 1));
    assert!(bytes[32..].iter().all(|x| *x == 2));
}

#[test]
fn decompression_accepts_points_and_rejects_others() {
    let base = curve25519_dalek::constants::RISTRETTO_BASEPOINT_POINT;
    let good = CompressedPoint { bytes: base.compress().to_bytes() };
    let identity = CompressedPoint { bytes: [0u8; 32] };
    let points = decompress_all(&vec![good, identity]).unwrap();
    assert_eq!(points[0], base);
    assert!(decompress_all(&vec![good, CompressedPoint { bytes: [0xff; 32] }]).is_none());
    assert!(decompress_all(&vec![CompressedPoint { bytes: [1u8; 32] }]).is_none());
}
