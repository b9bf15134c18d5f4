use vstd::prelude::*;
use crate::codec::{coord, deserialize_g1, lemma_g1_round_trip, deserialize_scalar, deserialize_g2, g1_decode_code, g2_decode_code, serialize_g1};
use crate::curve::{
    entry_encodings, g1_add, g1_mul, g1_product_of, g1_sum_of, pairing_is_one,
    pairing_product_is_one,
};
use crate::error::{encoding_error, PairingErr, ENCODING_ERROR};
use crate::point::{all_zero, be_value, lemma_zero_value, group_order, G1Point, G2Point, G1_SIZE, G2_SIZE};

verus! {

/// The 64 bytes that encode a base-group point at the front of `s`.
pub open spec fn g1_part(s: Seq<u8>) -> Seq<u8> {
    s.subrange(0, 64)
}

/// The outcome code of adding the points at the front of two buffers.
pub open spec fn add_code(p1: Seq<u8>, p2: Seq<u8>) -> i32 {
    if g1_decode_code(p1) != 0 {
        g1_decode_code(p1)
    } else {
        g1_decode_code(p2)
    }
}

/// The outcome code of multiplying the point at the front of `pt` by the
/// scalar at the front of `scalar`.
pub open spec fn mul_code(pt: Seq<u8>, scalar: Seq<u8>) -> i32 {
    if g1_decode_code(pt) != 0 {
        g1_decode_code(pt)
    } else if scalar.len() < 32 {
        ENCODING_ERROR
    } else {
        0
    }
}

/// The outcome code of reading entry `i` of the base-group list.
pub open spec fn g1_entry_code(g1s: Seq<u8>, i: int) -> i32 {
    if g1s.len() < 64 * (i + 1) {
        ENCODING_ERROR
    } else {
        g1_decode_code(g1s.subrange(64 * i, 64 * i + 64))
    }
}

/// The outcome code of reading entry `i` of the twist-group list.
pub open spec fn g2_entry_code(g2s: Seq<u8>, i: int) -> i32 {
    if g2s.len() < 128 * (i + 1) {
        ENCODING_ERROR
    } else {
        g2_decode_code(g2s.subrange(128 * i, 128 * i + 128))
    }
}

/// The outcome code of reading the first `n` entries of a pairing check:
/// the code of the first entry that fails, else 0. Both chunks of an entry
/// are cut out before either is read, so an entry with a missing chunk
/// fails as too short whatever its other chunk holds.
pub open spec fn pair_code(g1s: Seq<u8>, g2s: Seq<u8>, n: nat) -> i32
    decreases n,
{
    if n == 0 {
        0
    } else if pair_code(g1s, g2s, (n - 1) as nat) != 0 {
        pair_code(g1s, g2s, (n - 1) as nat)
    } else if g1s.len() < 64 * n || g2s.len() < 128 * n {
        ENCODING_ERROR
    } else if g1_entry_code(g1s, n - 1) != 0 {
        g1_entry_code(g1s, n - 1)
    } else {
        g2_entry_code(g2s, n - 1)
    }
}

/// The encodings of the first `n` entries: base-group chunk then twist-group chunk.
pub open spec fn pair_entries(g1s: Seq<u8>, g2s: Seq<u8>, n: nat) -> Seq<Seq<u8>> {
    Seq::new(n, |i: int| g1s.subrange(64 * i, 64 * i + 64) + g2s.subrange(128 * i, 128 * i + 128))
}

/// Once an entry has failed, the outcome of a longer list is that failure.
proof fn lemma_pair_code_stays(g1s: Seq<u8>, g2s: Seq<u8>, m: nat, n: nat)
    requires
        m <= n,
        pair_code(g1s, g2s, m) != 0,
    ensures
        pair_code(g1s, g2s, n) == pair_code(g1s, g2s, m),
    decreases n - m,
{
    if m < n {
        lemma_pair_code_stays(g1s, g2s, m, (n - 1) as nat);
    }
}

/// A zero 64-byte encoding has zero coordinates.
proof fn lemma_zero_coords(s: Seq<u8>)
    requires
        s.len() >= 64,
        all_zero(g1_part(s)),
    ensures
        all_zero(coord(s, 0)),
        all_zero(coord(s, 1)),
        be_value(coord(s, 0)) == 0,
        be_value(coord(s, 1)) == 0,
{
    assert forall|j: int| 0 <= j < 32 implies coord(s, 0)[j] == 0 && coord(s, 1)[j] == 0 by {
        assert(g1_part(s)[j] == 0 && g1_part(s)[j + 32] == 0);
    }
    lemma_zero_value(coord(s, 0));
    lemma_zero_value(coord(s, 1));
}

/// The coordinates of a point read from the front of `s` are the first two
/// coordinates of `s`.
proof fn lemma_g1_parts(p: G1Point, s: Seq<u8>)
    requires
        s.len() >= 64,
        p@ == s.subrange(0, 64),
    ensures
        p.x@ == coord(s, 0),
        p.y@ == coord(s, 1),
{
    assert forall|j: int| 0 <= j < 32 implies p.x@[j] == coord(s, 0)[j] && p.y@[j] == coord(s, 1)[j] by {
        assert(p@[j] == p.x@[j] && p@[j + 32] == p.y@[j]);
    }
    assert(p.x@ =~= coord(s, 0));
    assert(p.y@ =~= coord(s, 1));
}

/// Adds the base-group points encoded at the front of `p1_byte` and
/// `p2_byte` and writes the sum's encoding to the front of `out_byte`. The
/// sum is again a valid encoding; the identity (all zeros) leaves the other
/// operand as it is; on failure nothing is written.
pub fn alt_bn128_add_internal(p1_byte: &[u8], p2_byte: &[u8], out_byte: &mut [u8]) -> (r: Result<(), PairingErr>)
    requires
        old(out_byte)@.len() >= 64,
    ensures
        final(out_byte)@.len() == old(out_byte)@.len(),
        match r {
            Ok(()) => add_code(p1_byte@, p2_byte@) == 0
                && g1_part(final(out_byte)@) == g1_sum_of(g1_part(p1_byte@), g1_part(p2_byte@))
                && g1_decode_code(final(out_byte)@) == 0
                && final(out_byte)@.subrange(64, old(out_byte)@.len() as int)
                    == old(out_byte)@.subrange(64, old(out_byte)@.len() as int),
            Err(e) => add_code(p1_byte@, p2_byte@) != 0 && e.code == add_code(p1_byte@, p2_byte@)
                && final(out_byte)@ == old(out_byte)@,
        },
        g1_decode_code(p1_byte@) == 0 && p2_byte@.len() >= 64 && all_zero(g1_part(p2_byte@)) ==> r
            is Ok && g1_part(final(out_byte)@) == g1_part(p1_byte@),
        g1_decode_code(p2_byte@) == 0 && p1_byte@.len() >= 64 && all_zero(g1_part(p1_byte@)) ==> r
            is Ok && g1_part(final(out_byte)@) == g1_part(p2_byte@),
{
    proof {
        if p1_byte@.len() >= 64 && all_zero(g1_part(p1_byte@)) {
            lemma_zero_coords(p1_byte@);
        }
        if p2_byte@.len() >= 64 && all_zero(g1_part(p2_byte@)) {
            lemma_zero_coords(p2_byte@);
        }
    }
    let p1 = match deserialize_g1(p1_byte) {
        Ok(p) => p,
        Err(e) => return Err(e),
    };
    let p2 = match deserialize_g1(p2_byte) {
        Ok(p) => p,
        Err(e) => return Err(e),
    };
    proof {
        lemma_g1_parts(p1, p1_byte@);
        lemma_g1_parts(p2, p2_byte@);
    }
    let res = g1_add(&p1, &p2);
    serialize_g1(&res, out_byte);
    proof {
        lemma_g1_round_trip(res);
        assert(coord(out_byte@, 0) =~= coord(res@, 0));
        assert(coord(out_byte@, 1) =~= coord(res@, 1));
    }
    Ok(())
}

/// Multiplies the base-group point encoded at the front of `pt_byte` by the
/// scalar in the first 32 bytes of `scalar_byte` and writes the product's
/// encoding to the front of `out_byte`. The product is again a valid
/// encoding, and a scalar that is a multiple of the group order (zero among
/// them) gives the identity; on failure nothing is written.
pub fn alt_bn128_mul_internal(pt_byte: &[u8], scalar_byte: &[u8], out_byte: &mut [u8]) -> (r: Result<(), PairingErr>)
    requires
        old(out_byte)@.len() >= 64,
    ensures
        final(out_byte)@.len() == old(out_byte)@.len(),
        match r {
            Ok(()) => mul_code(pt_byte@, scalar_byte@) == 0
                && g1_part(final(out_byte)@) == g1_product_of(
                    g1_part(pt_byte@),
                    be_value(scalar_byte@.subrange(0, 32)) % group_order(),
                )
                && g1_decode_code(final(out_byte)@) == 0
                && final(out_byte)@.subrange(64, old(out_byte)@.len() as int)
                    == old(out_byte)@.subrange(64, old(out_byte)@.len() as int),
            Err(e) => mul_code(pt_byte@, scalar_byte@) != 0 && e.code == mul_code(pt_byte@, scalar_byte@)
                && final(out_byte)@ == old(out_byte)@,
        },
        mul_code(pt_byte@, scalar_byte@) == 0 && be_value(scalar_byte@.subrange(0, 32)) % group_order() == 0
            ==> r is Ok && all_zero(g1_part(final(out_byte)@)),
        mul_code(pt_byte@, scalar_byte@) == 0 && all_zero(g1_part(pt_byte@)) ==> r is Ok && all_zero(
            g1_part(final(out_byte)@),
        ),
{
    let pt = match deserialize_g1(pt_byte) {
        Ok(p) => p,
        Err(e) => return Err(e),
    };
    proof {
        lemma_g1_parts(pt, pt_byte@);
        if all_zero(g1_part(pt_byte@)) {
            lemma_zero_coords(pt_byte@);
        }
    }
    let k = match deserialize_scalar(scalar_byte) {
        Ok(k) => k,
        Err(e) => return Err(e),
    };
    let res = g1_mul(&pt, &k);
    serialize_g1(&res, out_byte);
    proof {
        lemma_g1_round_trip(res);
        assert(coord(out_byte@, 0) =~= coord(res@, 0));
        assert(coord(out_byte@, 1) =~= coord(res@, 1));
        if res.is_identity() {
            assert forall|j: int| 0 <= j < 64 implies g1_part(out_byte@)[j] == 0 by {
                if j < 32 {
                    assert(res@[j] == res.x@[j]);
                } else {
                    assert(res@[j] == res.y@[j - 32]);
                }
            }
        }
    }
    Ok(())
}

/// Checks whether the product of the pairings of the first `point_list_len`
/// entries is the target group's identity. Entry `i` is the base-group point
/// in bytes `64 * i ..` of `g1_list_byte` with the twist-group point in bytes
/// `128 * i ..` of `g2_list_byte`; the first entry that cannot be read ends the
/// check with its error.
pub fn alt_bn128_pair_internal(g1_list_byte: &[u8], g2_list_byte: &[u8], point_list_len: usize) -> (r: Result<bool, PairingErr>)
    ensures
        match r {
            Ok(b) => pair_code(g1_list_byte@, g2_list_byte@, point_list_len as nat) == 0
                && b == pairing_is_one(pair_entries(g1_list_byte@, g2_list_byte@, point_list_len as nat)),
            Err(e) => pair_code(g1_list_byte@, g2_list_byte@, point_list_len as nat) != 0
                && e.code == pair_code(g1_list_byte@, g2_list_byte@, point_list_len as nat),
        },
        point_list_len == 0 ==> r == Ok::<bool, PairingErr>(true),
{
    let ghost g1s = g1_list_byte@;
    let ghost g2s = g2_list_byte@;
    let l1 = g1_list_byte.len();
    let l2 = g2_list_byte.len();
    let n1 = l1 / G1_SIZE;
    let n2 = l2 / G2_SIZE;
    let mut pair_list: Vec<(G1Point, G2Point)> = Vec::new();
    let mut i: usize = 0;
    while i < point_list_len
        invariant
            i <= point_list_len,
            g1s == g1_list_byte@,
            g2s == g2_list_byte@,
            l1 == g1s.len(),
            l2 == g2s.len(),
            n1 == g1s.len() / 64,
            n2 == g2s.len() / 128,
            pair_code(g1s, g2s, i as nat) == 0,
            pair_list@.len() == i,
            forall|j: int| 0 <= j < i ==> (#[trigger] pair_list@[j]).0.wf() && pair_list@[j].1.wf()
                && pair_list@[j].0@ == g1s.subrange(64 * j, 64 * j + 64)
                && pair_list@[j].1@ == g2s.subrange(128 * j, 128 * j + 128),
        decreases point_list_len - i,
    {
        if i >= n1 || i >= n2 {
            proof {
                if i >= n1 {
                    assert(g1s.len() < 64 * (i + 1)) by (nonlinear_arith)
                        requires n1 == g1s.len() / 64, i >= n1;
                } else {
                    assert(g2s.len() < 128 * (i + 1)) by (nonlinear_arith)
                        requires n2 == g2s.len() / 128, i >= n2;
                }
                lemma_pair_code_stays(g1s, g2s, (i + 1) as nat, point_list_len as nat);
            }
            return Err(encoding_error());
        }
        proof {
            assert(64 * i + 64 <= g1s.len()) by (nonlinear_arith)
                requires n1 == g1s.len() / 64, i < n1;
            assert(128 * i + 128 <= g2s.len()) by (nonlinear_arith)
                requires n2 == g2s.len() / 128, i < n2;
        }
        let g1_chunk = &g1_list_byte[G1_SIZE * i..G1_SIZE * (i + 1)];
        let g2_chunk = &g2_list_byte[G2_SIZE * i..G2_SIZE * (i + 1)];
        assert(g1_chunk@ == g1s.subrange(64 * i, 64 * i + 64));
        assert(g2_chunk@ == g2s.subrange(128 * i, 128 * i + 128));
        let g1 = match deserialize_g1(g1_chunk) {
            Ok(p) => p,
            Err(e) => {
                proof {
                    lemma_pair_code_stays(g1s, g2s, (i + 1) as nat, point_list_len as nat);
                }
                return Err(e);
            },
        };
        let g2 = match deserialize_g2(g2_chunk) {
            Ok(p) => p,
            Err(e) => {
                proof {
                    lemma_pair_code_stays(g1s, g2s, (i + 1) as nat, point_list_len as nat);
                }
                return Err(e);
            },
        };
        pair_list.push((g1, g2));
        i += 1;
    }
    let one = pairing_product_is_one(&pair_list);
    proof {
        assert(entry_encodings(pair_list@) =~= pair_entries(g1s, g2s, point_list_len as nat));
    }
    Ok(one)
}

} // verus!
