//! Commitments in their compressed wire form, and their decompression.
use curve25519_dalek::ristretto::{CompressedRistretto, RistrettoPoint};
use vstd::prelude::*;

verus! {

#[verifier::external_type_specification]
#[verifier::external_body]
pub struct ExRistrettoPoint(RistrettoPoint);

/// A group element in its 32-byte compressed encoding, as read from a proof;
/// it need not encode any point.
#[derive(Clone, Copy, Debug, PartialEq, Eq)]
pub struct CompressedPoint {
    pub bytes: [u8; 32],
}

/// Whether 32 bytes are the canonical encoding of a Ristretto point.
pub uninterp spec fn is_ristretto_encoding(bytes: Seq<u8>) -> bool;

/// Relies on `CompressedRistretto::decompress`: `Some` exactly for the
/// canonical encodings of points.
#[verifier::external_body]
fn decompress_point(p: &CompressedPoint) -> (r: Option<RistrettoPoint>)
    ensures
        r.is_some() == is_ristretto_encoding(p.bytes@),
{
    CompressedRistretto(p.bytes).decompress()
}

/// The concatenated encodings of compressed points.
pub open spec fn points_bytes(s: Seq<CompressedPoint>) -> Seq<u8>
    decreases s.len(),
{
    if s.len() == 0 {
        Seq::empty()
    } else {
        points_bytes(s.drop_last()) + s.last().bytes@
    }
}

pub proof fn lemma_points_bytes_len(s: Seq<CompressedPoint>)
    ensures
        points_bytes(s).len() == 32 * s.len(),
    decreases s.len(),
{
    if s.len() > 0 {
        lemma_points_bytes_len(s.drop_last());
    }
}

/// Every point of the sequence has a valid encoding.
pub open spec fn all_decompress(s: Seq<CompressedPoint>) -> bool {
    forall|i: int| 0 <= i < s.len() ==> is_ristretto_encoding(#[trigger] s[i].bytes@)
}

/// Decompresses every point; `None` as soon as one is not a valid encoding.
pub fn decompress_all(points: &Vec<CompressedPoint>) -> (r: Option<Vec<RistrettoPoint>>)
    ensures
        r.is_some() <==> all_decompress(points@),
        r.is_some() ==> r.unwrap()@.len() == points@.len(),
{
    let mut out: Vec<RistrettoPoint> = Vec::new();
    let mut i: usize = 0;
    while i < points.len()
        invariant
            0 <= i <= points@.len(),
            out@.len() == i,
            forall|j: int| 0 <= j < i ==> is_ristretto_encoding(#[trigger] points@[j].bytes@),
        decreases points@.len() - i,
    {
        match decompress_point(&points[i]) {
            Some(p) => out.push(p),
            None => return None,
        }
        i += 1;
    }
    Some(out)
}

/// The encodings of the points, in order, as one byte string.
pub fn concat_points(points: &Vec<CompressedPoint>) -> (r: Vec<u8>)
    ensures
        r@ == points_bytes(points@),
{
    let mut message: Vec<u8> = Vec::new();
    let mut i: usize = 0;
    while i < points.len()
        invariant
            0 <= i <= points@.len(),
            message@ == points_bytes(points@.subrange(0, i as int)),
        decreases points@.len() - i,
    {
        let enc = points[i].bytes;
        let ghost before = message@;
        let mut k: usize = 0;
        while k < 32
            invariant
                0 <= k <= 32,
                message@ == before + enc@.subrange(0, k as int),
            decreases 32 - k,
        {
            message.push(enc[k]);
            k += 1;
            proof {
                assert(enc@.subrange(0, k as int) =~= enc@.subrange(0, k - 1) + seq![enc@[k - 1]]);
            }
        }
        proof {
            let pre = points@.subrange(0, i as int + 1);
            assert(pre.drop_last() =~= points@.subrange(0, i as int));
            assert(enc@.subrange(0, 32) =~= enc@);
        }
        i += 1;
    }
    proof {
        assert(points@.subrange(0, points@.len() as int) =~= points@);
    }
    message
}

} // verus!
