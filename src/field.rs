//! Elements of the scalar field of the Ristretto group, held as their
//! canonical little-endian encoding.
use curve25519_dalek::scalar::Scalar;
use vstd::arithmetic::div_mod::lemma_small_mod;
use vstd::prelude::*;

verus! {

/// The order of the Ristretto group: 2^252 + 27742317777372353535851937790883648493.
pub open spec fn group_order() -> nat {
    pow2(252) + 27742317777372353535851937790883648493nat
}

pub open spec fn pow2(e: nat) -> nat
    decreases e,
{
    if e == 0 {
        1
    } else {
        2 * pow2((e - 1) as nat)
    }
}

pub proof fn lemma_pow2_positive(e: nat)
    ensures
        pow2(e) > 0,
    decreases e,
{
    if e > 0 {
        lemma_pow2_positive((e - 1) as nat);
    }
}

pub proof fn lemma_group_order_above_one()
    ensures
        group_order() > 1,
{
    lemma_pow2_positive(252);
}

/// The integer that a little-endian byte string encodes.
pub open spec fn le_value(b: Seq<u8>) -> nat
    decreases b.len(),
{
    if b.len() == 0 {
        0
    } else {
        b[0] as nat + 256 * le_value(b.drop_first())
    }
}

proof fn lemma_le_value_injective(a: Seq<u8>, b: Seq<u8>)
    requires
        a.len() == b.len(),
        le_value(a) == le_value(b),
    ensures
        a == b,
    decreases a.len(),
{
    if a.len() > 0 {
        lemma_le_value_injective(a.drop_first(), b.drop_first());
        assert(a =~= seq![a[0]] + a.drop_first());
        assert(b =~= seq![b[0]] + b.drop_first());
    }
}

/// A field element, always reduced below the group order.
#[derive(Clone, Copy, Debug, PartialEq, Eq)]
pub struct Fe {
    bytes: [u8; 32],
}

impl Fe {
    #[verifier::type_invariant]
    spec fn reduced(self) -> bool {
        le_value(self.bytes@) < group_order()
    }

    /// The integer in `[0, group_order())` that this element stands for.
    pub closed spec fn val(self) -> nat {
        le_value(self.bytes@) % group_order()
    }

    pub proof fn lemma_val_below_order(self)
        ensures
            self.val() < group_order(),
    {
        lemma_group_order_above_one();
    }

    /// The canonical little-endian encoding of this element.
    pub closed spec fn encoding(self) -> Seq<u8> {
        self.bytes@
    }

    pub proof fn lemma_encoding_len(self)
        ensures
            self.encoding().len() == 32,
    {
    }

    /// The canonical little-endian encoding of this element.
    pub fn to_bytes(&self) -> (r: [u8; 32])
        ensures
            r@ == self.encoding(),
            le_value(r@) == self.val(),
    {
        proof {
            use_type_invariant(self);
            lemma_small_mod(le_value(self.bytes@), group_order());
        }
        self.bytes
    }

    /// Reads a canonical encoding; `None` where the integer is not below the
    /// group order.
    pub fn from_canonical_bytes(bytes: [u8; 32]) -> (r: Option<Fe>)
        ensures
            r.is_some() <==> le_value(bytes@) < group_order(),
            r.is_some() ==> r.unwrap().val() == le_value(bytes@),
    {
        proof {
            if le_value(bytes@) < group_order() {
                lemma_small_mod(le_value(bytes@), group_order());
            }
        }
        if is_canonical(&bytes) {
            Some(Fe { bytes })
        } else {
            None
        }
    }

    /// Whether two elements are equal.
    pub fn equals(&self, o: &Fe) -> (r: bool)
        ensures
            r == (self.val() == o.val()),
    {
        proof {
            use_type_invariant(self);
            use_type_invariant(o);
            lemma_small_mod(le_value(self.bytes@), group_order());
            lemma_small_mod(le_value(o.bytes@), group_order());
        }
        let mut k: usize = 0;
        while k < 32
            invariant
                0 <= k <= 32,
                forall|m: int| 0 <= m < k ==> self.bytes@[m] == o.bytes@[m],
            decreases 32 - k,
        {
            if self.bytes[k] != o.bytes[k] {
                proof {
                    use_type_invariant(self);
                    use_type_invariant(o);
                    lemma_small_mod(le_value(self.bytes@), group_order());
                    lemma_small_mod(le_value(o.bytes@), group_order());
                    assert(self.bytes@[k as int] != o.bytes@[k as int]);
                    if le_value(self.bytes@) == le_value(o.bytes@) {
                        lemma_le_value_injective(self.bytes@, o.bytes@);
                    }
                }
                return false;
            }
            k += 1;
        }
        proof {
            assert(self.bytes@ =~= o.bytes@);
        }
        true
    }

    pub fn zero() -> (r: Fe)
        ensures
            r.val() == 0,
    {
        scalar_zero()
    }

    pub fn one() -> (r: Fe)
        ensures
            r.val() == 1,
    {
        scalar_one()
    }

    pub fn from_u64(x: u64) -> (r: Fe)
        ensures
            r.val() == x as nat,
    {
        scalar_from_u64(x)
    }

    pub fn add(&self, o: &Fe) -> (r: Fe)
        ensures
            r.val() == (self.val() + o.val()) % group_order(),
    {
        proof {
            use_type_invariant(self);
            use_type_invariant(o);
        }
        scalar_add(self, o)
    }

    pub fn sub(&self, o: &Fe) -> (r: Fe)
        ensures
            r.val() == (self.val() - o.val()) % (group_order() as int),
    {
        proof {
            use_type_invariant(self);
            use_type_invariant(o);
        }
        scalar_sub(self, o)
    }

    pub fn mul(&self, o: &Fe) -> (r: Fe)
        ensures
            r.val() == (self.val() * o.val()) % group_order(),
    {
        proof {
            use_type_invariant(self);
            use_type_invariant(o);
        }
        scalar_mul(self, o)
    }

    /// Reduces a 512-bit little-endian integer modulo the group order.
    pub fn from_bytes_mod_order_wide(bytes: &[u8; 64]) -> (r: Fe)
        ensures
            r.val() == le_value(bytes@) % group_order(),
    {
        scalar_from_wide(bytes)
    }
}

/// Relies on `Scalar::from_canonical_bytes`: `Some` exactly for encodings of
/// integers below the group order.
#[verifier::external_body]
fn is_canonical(bytes: &[u8; 32]) -> (r: bool)
    ensures
        r == (le_value(bytes@) < group_order()),
{
    Scalar::from_canonical_bytes(*bytes).is_some()
}

/// Relies on `Scalar::zero`: the encoding of 0.
#[verifier::external_body]
fn scalar_zero() -> (r: Fe)
    ensures
        r.val() == 0,
{
    Fe { bytes: Scalar::zero().to_bytes() }
}

/// Relies on `Scalar::one`: the encoding of 1.
#[verifier::external_body]
fn scalar_one() -> (r: Fe)
    ensures
        r.val() == 1,
{
    Fe { bytes: Scalar::one().to_bytes() }
}

/// Relies on `Scalar::from(u64)`: the element equal to the integer.
#[verifier::external_body]
fn scalar_from_u64(x: u64) -> (r: Fe)
    ensures
        r.val() == x as nat,
{
    Fe { bytes: Scalar::from(x).to_bytes() }
}

/// Relies on `Scalar + Scalar`: the sum modulo the group order.
#[verifier::external_body]
fn scalar_add(a: &Fe, b: &Fe) -> (r: Fe)
    requires
        le_value(a.bytes@) < group_order(),
        le_value(b.bytes@) < group_order(),
    ensures
        r.val() == (a.val() + b.val()) % group_order(),
{
    Fe { bytes: (Scalar::from_bits(a.bytes) + Scalar::from_bits(b.bytes)).to_bytes() }
}

/// Relies on `Scalar - Scalar`: the difference modulo the group order.
#[verifier::external_body]
fn scalar_sub(a: &Fe, b: &Fe) -> (r: Fe)
    requires
        le_value(a.bytes@) < group_order(),
        le_value(b.bytes@) < group_order(),
    ensures
        r.val() == (a.val() - b.val()) % (group_order() as int),
{
    Fe { bytes: (Scalar::from_bits(a.bytes) - Scalar::from_bits(b.bytes)).to_bytes() }
}

/// Relies on `Scalar * Scalar`: the product modulo the group order.
#[verifier::external_body]
fn scalar_mul(a: &Fe, b: &Fe) -> (r: Fe)
    requires
        le_value(a.bytes@) < group_order(),
        le_value(b.bytes@) < group_order(),
    ensures
        r.val() == (a.val() * b.val()) % group_order(),
{
    Fe { bytes: (Scalar::from_bits(a.bytes) * Scalar::from_bits(b.bytes)).to_bytes() }
}

/// Relies on `Scalar::from_bytes_mod_order_wide`: the 512-bit little-endian
/// integer reduced modulo the group order.
#[verifier::external_body]
fn scalar_from_wide(bytes: &[u8; 64]) -> (r: Fe)
    ensures
        r.val() == le_value(bytes@) % group_order(),
{
    Fe { bytes: Scalar::from_bytes_mod_order_wide(bytes).to_bytes() }
}

} // verus!
