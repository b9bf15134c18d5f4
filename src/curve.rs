use vstd::prelude::*;
use substrate_bn::{pairing_batch, AffineG1, AffineG2, Fq, Fq2, Fr, Group, Gt, G1, G2};
use crate::point::{
    be_value, group_order, is_field_element, on_base_curve, twist_point_accepted, G1Point, G2Point,
};

verus! {

#[verifier::external_type_specification]
#[verifier::external_body]
pub struct ExG1(G1);

#[verifier::external_type_specification]
#[verifier::external_body]
pub struct ExG2(G2);

/// The encoding of the sum of two encoded base-group points.
pub uninterp spec fn g1_sum_of(a: Seq<u8>, b: Seq<u8>) -> Seq<u8>;

/// The encoding of an encoded base-group point times a scalar, given as
/// its residue modulo the group order.
pub uninterp spec fn g1_product_of(p: Seq<u8>, k: nat) -> Seq<u8>;

/// Whether the product of the pairings of the encoded entries (each a
/// base-group encoding followed by a twist-group encoding) is the target
/// group's identity.
pub uninterp spec fn pairing_is_one(entries: Seq<Seq<u8>>) -> bool;

/// The encodings of the entries of a pairing product, one per entry.
pub open spec fn entry_encodings(e: Seq<(G1Point, G2Point)>) -> Seq<Seq<u8>> {
    e.map_values(|p: (G1Point, G2Point)| p.0@ + p.1@)
}

/// Relies on `Fq::from_slice`: a 32-byte slice is accepted exactly when its
/// big-endian value is below the base field's modulus.
#[verifier::external_body]
pub(crate) fn fq_accepts(c: &[u8; 32]) -> (r: bool)
    ensures
        r == is_field_element(c@),
{
    Fq::from_slice(c).is_ok()
}

/// Relies on `AffineG1::new`: two field elements are accepted exactly when
/// y^2 = x^3 + 3 (the base group makes no subgroup test); the coordinates
/// are carried in by `Fq::from_slice`, which accepts them.
#[verifier::external_body]
pub(crate) fn g1_accepts(x: &[u8; 32], y: &[u8; 32]) -> (r: bool)
    requires
        is_field_element(x@),
        is_field_element(y@),
    ensures
        r == on_base_curve(be_value(x@), be_value(y@)),
{
    match (Fq::from_slice(x), Fq::from_slice(y)) {
        (Ok(x), Ok(y)) => AffineG1::new(x, y).is_ok(),
        _ => false,
    }
}

/// Relies on `AffineG2::new` (with `Fq2::new` from real and imaginary
/// parts): whether four field elements form an accepted twist-group point.
#[verifier::external_body]
pub(crate) fn g2_accepts(p: &G2Point) -> (r: bool)
    requires
        p.in_field(),
    ensures
        r == twist_point_accepted(p.x_re@, p.x_im@, p.y_re@, p.y_im@),
{
    let x_re = Fq::from_slice(&p.x_re).unwrap_or(Fq::zero());
    let x_im = Fq::from_slice(&p.x_im).unwrap_or(Fq::zero());
    let y_re = Fq::from_slice(&p.y_re).unwrap_or(Fq::zero());
    let y_im = Fq::from_slice(&p.y_im).unwrap_or(Fq::zero());
    AffineG2::new(Fq2::new(x_re, x_im), Fq2::new(y_re, y_im)).is_ok()
}

/// Relies on `AffineG1::new` and `G1::from`: carries a point into the
/// library's form; the identity, which `AffineG1::new` refuses, is `G1::zero`.
#[verifier::external_body]
fn to_bn_g1(p: &G1Point) -> (r: G1)
    requires
        p.wf(),
{
    let x = Fq::from_slice(&p.x).unwrap_or(Fq::zero());
    let y = Fq::from_slice(&p.y).unwrap_or(Fq::zero());
    match AffineG1::new(x, y) {
        Ok(a) => G1::from(a),
        Err(_) => G1::zero(),
    }
}

/// Relies on `AffineG2::new` and `G2::from`, as `to_bn_g1` does on the base group.
#[verifier::external_body]
fn to_bn_g2(p: &G2Point) -> (r: G2)
    requires
        p.wf(),
{
    let x_re = Fq::from_slice(&p.x_re).unwrap_or(Fq::zero());
    let x_im = Fq::from_slice(&p.x_im).unwrap_or(Fq::zero());
    let y_re = Fq::from_slice(&p.y_re).unwrap_or(Fq::zero());
    let y_im = Fq::from_slice(&p.y_im).unwrap_or(Fq::zero());
    match AffineG2::new(Fq2::new(x_re, x_im), Fq2::new(y_re, y_im)) {
        Ok(a) => G2::from(a),
        Err(_) => G2::zero(),
    }
}

/// Relies on `AffineG1::from_jacobian` and `Fq::to_big_endian`: the identity
/// has no affine form and stays all zeros; any other point is written as
/// its canonical coordinates. Writing into a 32-byte buffer cannot fail:
/// `to_big_endian` refuses only other lengths. Nothing is promised here of
/// the result: a `G1` need not lie on the curve; the callers state what
/// holds of the points they pass.
#[verifier::external_body]
fn from_bn_g1(p: G1) -> (r: G1Point)
{
    let mut r = G1Point { x: [0u8; 32], y: [0u8; 32] };
    if let Some(a) = AffineG1::from_jacobian(p) {
        let _ = a.x().to_big_endian(&mut r.x);
        let _ = a.y().to_big_endian(&mut r.y);
    }
    r
}

/// Relies on `G1 + G1`, the group law, whose identity `G1::zero` leaves the
/// other operand as it is.
#[verifier::external_body]
pub(crate) fn g1_add(a: &G1Point, b: &G1Point) -> (r: G1Point)
    requires
        a.wf(),
        b.wf(),
    ensures
        r.wf(),
        r@ == g1_sum_of(a@, b@),
        a.is_identity() ==> r == *b,
        b.is_identity() ==> r == *a,
{
    from_bn_g1(to_bn_g1(a) + to_bn_g1(b))
}

/// Relies on `Fr::from_slice`, which reduces any 32 bytes modulo the group
/// order, and on `G1 * Fr`: the result depends on the scalar's residue
/// alone, a multiple of the order gives the identity, and any multiple of
/// the identity is the identity.
#[verifier::external_body]
pub(crate) fn g1_mul(p: &G1Point, k: &[u8; 32]) -> (r: G1Point)
    requires
        p.wf(),
    ensures
        r.wf(),
        r@ == g1_product_of(p@, be_value(k@) % group_order()),
        be_value(k@) % group_order() == 0 ==> r.is_identity(),
        p.is_identity() ==> r.is_identity(),
{
    from_bn_g1(to_bn_g1(p) * Fr::from_slice(k).unwrap_or(Fr::zero()))
}

/// Relies on `pairing_batch` and `Gt::one`: whether the product of the
/// pairings of the entries is the target group's identity; the empty
/// product is.
#[verifier::external_body]
pub(crate) fn pairing_product_is_one(entries: &Vec<(G1Point, G2Point)>) -> (r: bool)
    requires
        forall|i: int| 0 <= i < entries@.len() ==> (#[trigger] entries@[i]).0.wf() && entries@[i].1.wf(),
    ensures
        r == pairing_is_one(entry_encodings(entries@)),
        entries@.len() == 0 ==> r,
{
    let pairs: Vec<(G1, G2)> = entries.iter().map(|e| (to_bn_g1(&e.0), to_bn_g2(&e.1))).collect();
    pairing_batch(&pairs) == Gt::one()
}

} // verus!
