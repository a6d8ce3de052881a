use proofs::evaluation::compute_evaluation_vector;
use proofs::field::Fe;

fn fe(x: u64) -> Fe {
    Fe::from_u64(x)
}

#[test]
fn evaluation_vector_of_two_variables_has_closed_form() {
    let (a, b) = (fe(3), fe(5));
    let one = Fe::one();
    let v = compute_evaluation_vector(&vec![a, b]);
    assert_eq!(v.len(), 4);
    assert_eq!(v[0], one.sub(&a).mul(&one.sub(&b)));
    assert_eq!(v[1], one.sub(&a).mul(&b));
    assert_eq!(v[2], a.mul(&one.sub(&b)));
    assert_eq!(v[3], a.mul(&b));
    // (1-3)(1-5) = 8, 3*5 = 15, (1-3)*5 = -10, 3*(1-5) = -12
    assert_eq!(v[0], fe(8));
    assert_eq!(v[3], fe(15));
    assert_eq!(v[1].add(&fe(10)), Fe::zero());
    assert_eq!(v[2].add(&fe(12)), Fe::zero());
}

#[test]
fn evaluation_vector_of_one_variable() {
    let v = compute_evaluation_vector(&vec![fe(7)]);
    assert_eq!(v.len(), 2);
    assert_eq!(v[0].add(&fe(6)), Fe::zero());
    assert_eq!(v[1], fe(7));
}

#[test]
fn evaluation_vector_at_a_boolean_point_is_an_indicator() {
    let v = compute_evaluation_vector(&vec![fe(1), fe(0), fe(1)]);
    assert_eq!(v.len(), 8);
    for (i, x) in v.iter().enumerate() {
        let expected = if i == 0b101 { Fe::one() } else { Fe::zero() };
        assert_eq!(*x, expected);
    }
}

#[test]
fn evaluation_vector_sums_to_one() {
    let points = vec![vec![fe(2)], vec![fe(11), fe(123456789)], vec![fe(4), fe(0), fe(99), fe(u64::MAX)]];
    for point in points {
        let v = compute_evaluation_vector(&point);
        assert_eq!(v.len(), 1 << point.len());
        let sum = v.iter().fold(Fe::zero(), |acc, x| acc.add(x));
        assert_eq!(sum, Fe::one());
    }
}

#[test]
fn evaluation_vector_of_no_variables() {
    let v = compute_evaluation_vector(&vec![]);
    assert_eq!(v, vec![Fe::one()]);
}
