use vstd::prelude::*;
use crate::curve::{fq_accepts, g1_accepts, g2_accepts};
use crate::error::{
    encoding_error, field_range_error, not_on_curve_error, PairingErr, ENCODING_ERROR,
    FIELD_RANGE_ERROR, NOT_ON_CURVE_ERROR,
};
use crate::point::{
    all_zero, be_value, lemma_zero_value, is_field_element, on_base_curve, twist_point_accepted, G1Point, G2Point,
    FP_SIZE, G1_SIZE, G2_SIZE, SCALAR_SIZE,
};

verus! {

/// The 32-byte coordinate that starts at byte `k * 32`.
pub open spec fn coord(s: Seq<u8>, k: int) -> Seq<u8> {
    s.subrange(k * 32, k * 32 + 32)
}

/// The outcome code of reading a base-group point from the front of `s`:
/// 0 when it is a point, else the code of the first failure.
pub open spec fn g1_decode_code(s: Seq<u8>) -> i32 {
    if s.len() < 64 {
        ENCODING_ERROR
    } else if !is_field_element(coord(s, 0)) || !is_field_element(coord(s, 1)) {
        FIELD_RANGE_ERROR
    } else if (all_zero(coord(s, 0)) && all_zero(coord(s, 1))) || on_base_curve(
        be_value(coord(s, 0)),
        be_value(coord(s, 1)),
    ) {
        0
    } else {
        NOT_ON_CURVE_ERROR
    }
}

/// The outcome code of reading a twist-group point from the front of `s`.
pub open spec fn g2_decode_code(s: Seq<u8>) -> i32 {
    if s.len() < 128 {
        ENCODING_ERROR
    } else if !is_field_element(coord(s, 0)) || !is_field_element(coord(s, 1))
        || !is_field_element(coord(s, 2)) || !is_field_element(coord(s, 3)) {
        FIELD_RANGE_ERROR
    } else if (all_zero(coord(s, 0)) && all_zero(coord(s, 1)) && all_zero(coord(s, 2)) && all_zero(
        coord(s, 3),
    )) || twist_point_accepted(coord(s, 0), coord(s, 1), coord(s, 2), coord(s, 3)) {
        0
    } else {
        NOT_ON_CURVE_ERROR
    }
}

/// A 64-byte input with a coordinate at or above the field modulus is
/// refused as out of range.
pub proof fn lemma_out_of_range_refused(s: Seq<u8>)
    requires
        s.len() == 64,
        !is_field_element(coord(s, 0)) || !is_field_element(coord(s, 1)),
    ensures
        g1_decode_code(s) == FIELD_RANGE_ERROR,
{
}

/// A 64-byte input whose coordinates are field elements, not both zero,
/// and off the curve is refused as not on the curve.
pub proof fn lemma_off_curve_refused(s: Seq<u8>)
    requires
        s.len() == 64,
        is_field_element(coord(s, 0)),
        is_field_element(coord(s, 1)),
        !(all_zero(coord(s, 0)) && all_zero(coord(s, 1))),
        !on_base_curve(be_value(coord(s, 0)), be_value(coord(s, 1))),
    ensures
        g1_decode_code(s) == NOT_ON_CURVE_ERROR,
{
}

/// Decoding an encoded valid base-group point succeeds and gives back the
/// same coordinates: reading is the inverse of writing.
pub proof fn lemma_g1_round_trip(p: G1Point)
    requires
        p.wf(),
    ensures
        g1_decode_code(p@) == 0,
        p@.subrange(0, 64) == p@,
        coord(p@, 0) == p.x@,
        coord(p@, 1) == p.y@,
{
    assert(coord(p@, 0) =~= p.x@);
    assert(coord(p@, 1) =~= p.y@);
    assert(p@.subrange(0, 64) =~= p@);
    if p.is_identity() {
        lemma_zero_value(p.x@);
        lemma_zero_value(p.y@);
    }
}

/// Decoding the encoding of a valid twist-group point succeeds: reading is
/// the inverse of writing.
pub proof fn lemma_g2_round_trip(p: G2Point)
    requires
        p.wf(),
    ensures
        g2_decode_code(p@) == 0,
        p@.subrange(0, 128) == p@,
{
    assert(coord(p@, 0) =~= p.x_re@);
    assert(coord(p@, 1) =~= p.x_im@);
    assert(coord(p@, 2) =~= p.y_re@);
    assert(coord(p@, 3) =~= p.y_im@);
    assert(p@.subrange(0, 128) =~= p@);
    if p.is_identity() {
        lemma_zero_value(p.x_re@);
        lemma_zero_value(p.x_im@);
        lemma_zero_value(p.y_re@);
        lemma_zero_value(p.y_im@);
    }
}

/// Copies the 32 bytes at `off` out of `s`.
fn read_coord(s: &[u8], off: usize) -> (c: [u8; 32])
    requires
        off + 32 <= s.len(),
    ensures
        c@ == s@.subrange(off as int, off + 32),
{
    let mut c = [0u8; 32];
    let mut i: usize = 0;
    while i < FP_SIZE
        invariant
            i <= 32,
            off + 32 <= s.len(),
            c@.len() == 32,
            forall|j: int| 0 <= j < i ==> c@[j] == s@[off + j],
        decreases 32 - i,
    {
        c[i] = s[off + i];
        i += 1;
    }
    assert(c@ =~= s@.subrange(off as int, off + 32));
    c
}

/// Whether every byte of a coordinate is zero.
fn is_zero_coord(c: &[u8; 32]) -> (r: bool)
    ensures
        r == all_zero(c@),
{
    let mut i: usize = 0;
    while i < FP_SIZE
        invariant
            i <= 32,
            c@.len() == 32,
            forall|j: int| 0 <= j < i ==> c@[j] == 0,
        decreases 32 - i,
    {
        if c[i] != 0 {
            return false;
        }
        i += 1;
    }
    true
}

/// Reads a base-group point from the first 64 bytes of `pt_byte`: x then y,
/// big-endian; all zeros is the identity.
pub fn deserialize_g1(pt_byte: &[u8]) -> (r: Result<G1Point, PairingErr>)
    ensures
        match r {
            Ok(p) => g1_decode_code(pt_byte@) == 0 && p.wf() && p@ == pt_byte@.subrange(0, 64),
            Err(e) => g1_decode_code(pt_byte@) != 0 && e.code == g1_decode_code(pt_byte@),
        },
{
    if pt_byte.len() < G1_SIZE {
        return Err(encoding_error());
    }
    let x = read_coord(pt_byte, 0);
    let y = read_coord(pt_byte, FP_SIZE);
    assert(x@ == coord(pt_byte@, 0) && y@ == coord(pt_byte@, 1));
    if !fq_accepts(&x) || !fq_accepts(&y) {
        return Err(field_range_error());
    }
    let p = G1Point { x, y };
    assert(p@ =~= pt_byte@.subrange(0, 64));
    if is_zero_coord(&x) && is_zero_coord(&y) {
        return Ok(p);
    }
    if g1_accepts(&x, &y) {
        Ok(p)
    } else {
        Err(not_on_curve_error())
    }
}

/// Reads a twist-group point from the first 128 bytes of `pt_byte`: x real,
/// x imaginary, y real, y imaginary, each big-endian; all zeros is the identity.
pub fn deserialize_g2(pt_byte: &[u8]) -> (r: Result<G2Point, PairingErr>)
    ensures
        match r {
            Ok(p) => g2_decode_code(pt_byte@) == 0 && p.wf() && p@ == pt_byte@.subrange(0, 128),
            Err(e) => g2_decode_code(pt_byte@) != 0 && e.code == g2_decode_code(pt_byte@),
        },
{
    if pt_byte.len() < G2_SIZE {
        return Err(encoding_error());
    }
    let x_re = read_coord(pt_byte, 0);
    let x_im = read_coord(pt_byte, FP_SIZE);
    let y_re = read_coord(pt_byte, 2 * FP_SIZE);
    let y_im = read_coord(pt_byte, 3 * FP_SIZE);
    assert(x_re@ == coord(pt_byte@, 0) && x_im@ == coord(pt_byte@, 1));
    assert(y_re@ == coord(pt_byte@, 2) && y_im@ == coord(pt_byte@, 3));
    if !fq_accepts(&x_re) || !fq_accepts(&x_im) || !fq_accepts(&y_re) || !fq_accepts(&y_im) {
        return Err(field_range_error());
    }
    let p = G2Point { x_re, x_im, y_re, y_im };
    assert(p@ =~= pt_byte@.subrange(0, 128));
    if is_zero_coord(&x_re) && is_zero_coord(&x_im) && is_zero_coord(&y_re) && is_zero_coord(
        &y_im,
    ) {
        return Ok(p);
    }
    if g2_accepts(&p) {
        Ok(p)
    } else {
        Err(not_on_curve_error())
    }
}

/// Reads a scalar from the first 32 bytes of `s`. Any 32 bytes are a
/// scalar: the arithmetic reduces them modulo the group order.
pub fn deserialize_scalar(s: &[u8]) -> (r: Result<[u8; 32], PairingErr>)
    ensures
        match r {
            Ok(k) => s@.len() >= 32 && k@ == s@.subrange(0, 32),
            Err(e) => s@.len() < 32 && e.code == ENCODING_ERROR,
        },
{
    if s.len() < SCALAR_SIZE {
        return Err(encoding_error());
    }
    Ok(read_coord(s, 0))
}

/// Writes the 64-byte encoding of `p` to the front of `out`, leaving the
/// rest of `out` as it was.
pub fn serialize_g1(p: &G1Point, out: &mut [u8])
    requires
        old(out)@.len() >= 64,
    ensures
        final(out)@.len() == old(out)@.len(),
        final(out)@.subrange(0, 64) == p@,
        final(out)@.subrange(64, old(out)@.len() as int) == old(out)@.subrange(64, old(out)@.len() as int),
{
    let ghost enc = p@;
    let mut i: usize = 0;
    while i < G1_SIZE
        invariant
            i <= 64,
            enc == p@,
            enc.len() == 64,
            out@.len() == old(out)@.len(),
            old(out)@.len() >= 64,
            forall|j: int| 0 <= j < i ==> out@[j] == enc[j],
            forall|j: int| 64 <= j < out@.len() ==> out@[j] == old(out)@[j],
        decreases 64 - i,
    {
        let b = if i < FP_SIZE {
            p.x[i]
        } else {
            p.y[i - FP_SIZE]
        };
        out[i] = b;
        i += 1;
    }
    assert(out@.subrange(0, 64) =~= p@);
    assert(out@.subrange(64, old(out)@.len() as int) =~= old(out)@.subrange(64, old(out)@.len() as int));
}

} // verus!
