use bn_jni::adapter::{pair_status, pair_verified, status_code};
use bn_jni::codec::{deserialize_g1, deserialize_g2, deserialize_scalar, serialize_g1};
use bn_jni::error::{PairingErr, ENCODING_ERROR, FIELD_RANGE_ERROR, NOT_ON_CURVE_ERROR};
use bn_jni::ops::{alt_bn128_add_internal, alt_bn128_mul_internal, alt_bn128_pair_internal};
use bn_jni::point::G1Point;

const P_HEX: &str = "30644e72e131a029b85045b68181585d97816a916871ca8d3c208c16d87cfd47";
const P_MINUS_2_HEX: &str = "30644e72e131a029b85045b68181585d97816a916871ca8d3c208c16d87cfd45";
const ORDER_HEX: &str = "30644e72e131a029b85045b68181585d2833e84879b9709143e1f593f0000001";
const ORDER_MINUS_1_HEX: &str = "30644e72e131a029b85045b68181585d2833e84879b9709143e1f593f0000000";
const G2_HEX: &str =
    "1800deef121f1e76426a00665e5c4479674322d4f75edadd46debd5cd992f6ed198e9393920d483a7260bfb731fb5d25f1aa493335a9e71297e485b7aef312c212c85ea5db8c6deb4aab71808dcb408fe3d1e7690c43d37b4ce6cc0166fa7daa090689d0585ff075ec9e99ad690c3395bc4b313370b38ef355acdadcd122975b";

fn bytes(h: &str) -> Vec<u8> {
    hex::decode(h).unwrap()
}

fn int32(v: u8) -> Vec<u8> {
    let mut b = vec![0u8; 32];
    b[31] = v;
    b
}

fn point(x: &[u8], y: &[u8]) -> Vec<u8> {
    let mut b = x.to_vec();
    b.extend_from_slice(y);
    b
}

fn generator() -> Vec<u8> {
    point(&int32(1), &int32(2))
}

fn neg_generator() -> Vec<u8> {
    point(&int32(1), &bytes(P_MINUS_2_HEX))
}

fn add(a: &[u8], b: &[u8]) -> (Result<(), PairingErr>, Vec<u8>) {
    let mut out = vec![0u8; 64];
    let r = alt_bn128_add_internal(a, b, &mut out);
    (r, out)
}

fn mul(a: &[u8], k: &[u8]) -> (Result<(), PairingErr>, Vec<u8>) {
    let mut out = vec![0u8; 64];
    let r = alt_bn128_mul_internal(a, k, &mut out);
    (r, out)
}

#[test]
fn add_identity_to_identity() {
    let zero = vec![0u8; 64];
    let (r, out) = add(&zero, &zero);
    assert_eq!(status_code(&r), 0);
    assert_eq!(out, vec![0u8; 64]);
}

#[test]
fn add_identity_keeps_point() {
    let zero = vec![0u8; 64];
    let (r, out) = add(&generator(), &zero);
    assert!(r.is_ok());
    assert_eq!(out, generator());
    let (r, out) = add(&zero, &generator());
    assert!(r.is_ok());
    assert_eq!(out, generator());
}

#[test]
fn add_generator_to_itself() {
    let (r, out) = add(&generator(), &generator());
    assert!(r.is_ok());
    let x = bytes("030644e72e131a029b85045b68181585d97816a916871ca8d3c208c16d87cfd3");
    let y = bytes("15ed738c0e0a7c92e7845f96b2ae9c0a68a6a449e3538fc7ff3ebf7a5a18a2c4");
    assert_eq!(out, point(&x, &y));
}

#[test]
fn add_point_and_negation_is_identity() {
    let (r, out) = add(&generator(), &neg_generator());
    assert!(r.is_ok());
    assert_eq!(out, vec![0u8; 64]);
}

#[test]
fn add_writes_only_the_first_64_bytes() {
    let mut out = vec![7u8; 70];
    let r = alt_bn128_add_internal(&generator(), &vec![0u8; 64], &mut out);
    assert!(r.is_ok());
    assert_eq!(out[..64].to_vec(), generator());
    assert_eq!(out[64..].to_vec(), vec![7u8; 6]);
}

#[test]
fn add_rejects_coordinate_at_modulus() {
    let bad = point(&bytes(P_HEX), &int32(2));
    let mut out = vec![9u8; 64];
    let r = alt_bn128_add_internal(&bad, &generator(), &mut out);
    assert_eq!(status_code(&r), FIELD_RANGE_ERROR);
    assert_eq!(out, vec![9u8; 64]);
    let bad_y = point(&int32(1), &bytes(P_HEX));
    let (r, _) = add(&generator(), &bad_y);
    assert_eq!(r.unwrap_err().code, FIELD_RANGE_ERROR);
}

#[test]
fn add_rejects_point_off_curve() {
    let bad = point(&int32(1), &int32(3));
    let (r, _) = add(&generator(), &bad);
    assert_eq!(status_code(&r), NOT_ON_CURVE_ERROR);
}

#[test]
fn add_rejects_short_buffer() {
    let short = vec![0u8; 63];
    let (r, _) = add(&short, &generator());
    assert_eq!(status_code(&r), ENCODING_ERROR);
}

#[test]
fn zero_test() {
    let (r, out) = mul(&generator(), &vec![0u8; 32]);
    assert_eq!(status_code(&r), 0);
    assert_eq!(out, vec![0u8; 64]);
}

#[test]
fn mul_by_group_order_is_identity() {
    let (r, out) = mul(&generator(), &bytes(ORDER_HEX));
    assert!(r.is_ok());
    assert_eq!(out, vec![0u8; 64]);
}

#[test]
fn mul_by_nine() {
    let (r, out) = mul(&generator(), &int32(9));
    assert!(r.is_ok());
    let x = bytes("039730ea8dff1254c0fee9c0ea777d29a9c710b7e616683f194f18c43b43b869");
    let y = bytes("073a5ffcc6fc7a28c30723d6e58ce577356982d65b833a5a5c15bf9024b43d98");
    assert_eq!(out, point(&x, &y));
    assert!(deserialize_g1(&out).is_ok());
}

#[test]
fn mul_by_order_minus_one_negates() {
    let (r, out) = mul(&generator(), &bytes(ORDER_MINUS_1_HEX));
    assert!(r.is_ok());
    assert_eq!(out, neg_generator());
}

#[test]
fn mul_identity_is_identity() {
    let (r, out) = mul(&vec![0u8; 64], &int32(5));
    assert!(r.is_ok());
    assert_eq!(out, vec![0u8; 64]);
}

#[test]
fn mul_rejects_short_scalar() {
    let (r, _) = mul(&generator(), &vec![1u8; 31]);
    assert_eq!(status_code(&r), ENCODING_ERROR);
}

#[test]
fn mul_rejects_bad_point() {
    let (r, _) = mul(&point(&int32(1), &int32(3)), &int32(2));
    assert_eq!(status_code(&r), NOT_ON_CURVE_ERROR);
}

#[test]
fn pair_empty_is_true() {
    let r = alt_bn128_pair_internal(&[], &[], 0);
    assert_eq!(r.unwrap(), true);
}

#[test]
fn pair_with_negation_is_true() {
    let mut g1s = generator();
    g1s.extend_from_slice(&neg_generator());
    let mut g2s = bytes(G2_HEX);
    g2s.extend_from_slice(&bytes(G2_HEX));
    let r = alt_bn128_pair_internal(&g1s, &g2s, 2);
    assert_eq!(pair_status(&r), (0, Some(1)));
    assert!(pair_verified(&r));
}

#[test]
fn pair_single_generator_is_false() {
    let r = alt_bn128_pair_internal(&generator(), &bytes(G2_HEX), 1);
    assert_eq!(pair_status(&r), (0, Some(0)));
    assert!(!pair_verified(&r));
}

#[test]
fn pair_with_identity_entries_is_true() {
    let r = alt_bn128_pair_internal(&vec![0u8; 64], &bytes(G2_HEX), 1);
    assert_eq!(r.unwrap(), true);
    let r = alt_bn128_pair_internal(&generator(), &vec![0u8; 128], 1);
    assert_eq!(r.unwrap(), true);
}

#[test]
fn pair_rejects_short_lists() {
    let r = alt_bn128_pair_internal(&generator(), &bytes(G2_HEX), 2);
    assert_eq!(pair_status(&r), (ENCODING_ERROR, None));
    assert!(!pair_verified(&r));
    let r = alt_bn128_pair_internal(&generator(), &bytes(G2_HEX)[..127], 1);
    assert_eq!(r.unwrap_err().code, ENCODING_ERROR);
}

#[test]
fn pair_missing_twist_chunk_is_short_before_bad_point() {
    let bad = point(&bytes(P_HEX), &int32(2));
    let r = alt_bn128_pair_internal(&bad, &[], 1);
    assert_eq!(r.unwrap_err().code, ENCODING_ERROR);
    let mut bad_g2 = vec![0u8; 128];
    bad_g2[31] = 1;
    let r = alt_bn128_pair_internal(&[], &bad_g2, 1);
    assert_eq!(r.unwrap_err().code, ENCODING_ERROR);
}

#[test]
fn mul_depends_on_scalar_mod_order() {
    let nine_plus_order = bytes("30644e72e131a029b85045b68181585d2833e84879b9709143e1f593f000000a");
    let (r1, a) = mul(&generator(), &int32(9));
    let (r2, b) = mul(&generator(), &nine_plus_order);
    assert!(r1.is_ok() && r2.is_ok());
    assert_eq!(a, b);
}

#[test]
fn pair_rejects_bad_entries() {
    let mut bad_g2 = vec![0u8; 128];
    bad_g2[31] = 1;
    let r = alt_bn128_pair_internal(&generator(), &bad_g2, 1);
    assert_eq!(r.unwrap_err().code, NOT_ON_CURVE_ERROR);
    let mut out_of_range = bytes(G2_HEX);
    out_of_range[96..].copy_from_slice(&bytes(P_HEX));
    let r = alt_bn128_pair_internal(&generator(), &out_of_range, 1);
    assert_eq!(r.unwrap_err().code, FIELD_RANGE_ERROR);
    let r = alt_bn128_pair_internal(&point(&int32(1), &int32(3)), &bytes(G2_HEX), 1);
    assert_eq!(r.unwrap_err().code, NOT_ON_CURVE_ERROR);
}

#[test]
fn codec_round_trip() {
    let p = deserialize_g1(&generator()).unwrap();
    let mut out = vec![0u8; 64];
    serialize_g1(&p, &mut out);
    assert_eq!(out, generator());
    let q = deserialize_g2(&bytes(G2_HEX)).unwrap();
    assert_eq!(q.x_re.to_vec(), bytes(G2_HEX)[..32].to_vec());
    assert_eq!(q.y_im.to_vec(), bytes(G2_HEX)[96..].to_vec());
    let id = G1Point::identity();
    assert_eq!(id.x, [0u8; 32]);
    assert_eq!(id.y, [0u8; 32]);
}

#[test]
fn scalar_reads_first_32_bytes() {
    let mut s = int32(9);
    s.push(5);
    assert_eq!(deserialize_scalar(&s).unwrap().to_vec(), int32(9));
    assert_eq!(deserialize_scalar(&[1u8; 3]).unwrap_err().code, ENCODING_ERROR);
}

#[test]
fn error_carries_code_and_text() {
    let e = PairingErr::new(-2, "out of range");
    assert_eq!(e.code, -2);
    assert_eq!(e.description(), "out of range");
    assert_eq!(status_code(&Err(e)), -2);
}
