use vstd::prelude::*;

verus! {

/// Width in bytes of one big-endian field coordinate on the wire.
pub const FP_SIZE: usize = 32;

/// Width in bytes of an encoded base-group point.
pub const G1_SIZE: usize = 64;

/// Width in bytes of an encoded twist-group point.
pub const G2_SIZE: usize = 128;

/// Width in bytes of an encoded scalar.
pub const SCALAR_SIZE: usize = 32;

/// The unsigned integer that a byte sequence spells in big-endian order.
pub open spec fn be_value(s: Seq<u8>) -> nat
    decreases s.len(),
{
    if s.len() == 0 {
        0
    } else {
        be_value(s.drop_last()) * 256 + s.last() as nat
    }
}

/// All zeros has the value zero.
pub proof fn lemma_zero_value(s: Seq<u8>)
    requires
        all_zero(s),
    ensures
        be_value(s) == 0,
    decreases s.len(),
{
    if s.len() > 0 {
        lemma_zero_value(s.drop_last());
    }
}

/// The prime modulus of the curve's base field.
pub open spec fn field_modulus() -> nat {
    0x30644e72e131a029b85045b68181585d * 0x1_0000_0000_0000_0000_0000_0000_0000_0000
        + 0x97816a916871ca8d3c208c16d87cfd47
}

/// The prime order of the base group, modulo which scalars act.
pub open spec fn group_order() -> nat {
    0x30644e72e131a029b85045b68181585d * 0x1_0000_0000_0000_0000_0000_0000_0000_0000
        + 0x2833e84879b9709143e1f593f0000001
}

/// A 32-byte coordinate names a base-field element when it is below the modulus.
pub open spec fn is_field_element(c: Seq<u8>) -> bool {
    be_value(c) < field_modulus()
}

/// The base curve's equation y^2 = x^3 + 3 over the base field.
pub open spec fn on_base_curve(x: nat, y: nat) -> bool {
    (y * y) % field_modulus() == (x * x * x + 3) % field_modulus()
}

/// Every byte is zero.
pub open spec fn all_zero(s: Seq<u8>) -> bool {
    forall|i: int| 0 <= i < s.len() ==> s[i] == 0
}

/// Whether the arithmetic library accepts four field coordinates
/// (x real, x imaginary, y real, y imaginary) as an affine point of
/// the twist group: on the twisted curve and in the prime-order subgroup.
pub uninterp spec fn twist_point_accepted(x_re: Seq<u8>, x_im: Seq<u8>, y_re: Seq<u8>, y_im: Seq<u8>) -> bool;

/// A point of the base group in affine coordinates; the all-zero pair
/// stands for the identity.
#[derive(Clone, Copy, Debug)]
pub struct G1Point {
    pub x: [u8; 32],
    pub y: [u8; 32],
}

/// A point of the twist group: each coordinate is an element of the
/// quadratic extension, given by its real and imaginary parts; all zero
/// stands for the identity.
#[derive(Clone, Copy, Debug)]
pub struct G2Point {
    pub x_re: [u8; 32],
    pub x_im: [u8; 32],
    pub y_re: [u8; 32],
    pub y_im: [u8; 32],
}

impl View for G1Point {
    type V = Seq<u8>;

    /// The 64-byte wire encoding: x then y.
    open spec fn view(&self) -> Seq<u8> {
        self.x@ + self.y@
    }
}

impl View for G2Point {
    type V = Seq<u8>;

    /// The 128-byte wire encoding: x real, x imaginary, y real, y imaginary.
    open spec fn view(&self) -> Seq<u8> {
        self.x_re@ + self.x_im@ + self.y_re@ + self.y_im@
    }
}

impl G1Point {
    pub open spec fn is_identity(&self) -> bool {
        all_zero(self.x@) && all_zero(self.y@)
    }

    /// The identity, or coordinates in the field that satisfy the curve equation.
    pub open spec fn wf(&self) -> bool {
        self.is_identity() || (is_field_element(self.x@) && is_field_element(self.y@)
            && on_base_curve(be_value(self.x@), be_value(self.y@)))
    }

    pub fn identity() -> (r: G1Point)
        ensures
            r.is_identity(),
            r.wf(),
            r@ == Seq::new(64, |i: int| 0u8),
    {
        let r = G1Point { x: [0u8; 32], y: [0u8; 32] };
        assert(r@ =~= Seq::new(64, |i: int| 0u8));
        r
    }
}

impl G2Point {
    pub open spec fn is_identity(&self) -> bool {
        all_zero(self.x_re@) && all_zero(self.x_im@) && all_zero(self.y_re@) && all_zero(self.y_im@)
    }

    pub open spec fn in_field(&self) -> bool {
        is_field_element(self.x_re@) && is_field_element(self.x_im@)
            && is_field_element(self.y_re@) && is_field_element(self.y_im@)
    }

    /// The identity, or coordinates in the field that the library accepts as a point.
    pub open spec fn wf(&self) -> bool {
        self.is_identity() || (self.in_field() && twist_point_accepted(
            self.x_re@,
            self.x_im@,
            self.y_re@,
            self.y_im@,
        ))
    }
}

} // verus!
