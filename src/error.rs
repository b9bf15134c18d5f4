use vstd::prelude::*;

verus! {

/// Code of a failure to write a coordinate in the arithmetic library's format.
pub const ENCODING_ERROR: i32 = -1;

/// Code of a 32-byte value that is not below the base field's modulus.
pub const FIELD_RANGE_ERROR: i32 = -2;

/// Code of coordinates that are not a point of the curve and not the identity.
pub const NOT_ON_CURVE_ERROR: i32 = -3;

/// A failure of one operation: a stable numeric code and a detail text.
#[derive(Debug)]
pub struct PairingErr {
    pub code: i32,
    pub details: String,
}

impl PairingErr {
    pub fn new(c: i32, msg: &str) -> (r: PairingErr)
        ensures
            r.code == c,
            r.details@ == msg@,
    {
        broadcast use vstd::string::group_string_axioms;
        PairingErr { code: c, details: msg.to_string() }
    }

    /// The detail text of the failure.
    pub fn description(&self) -> (r: &str)
        ensures
            r@ == self.details@,
    {
        self.details.as_str()
    }
}

/// The error of a 32-byte coordinate at or above the field modulus.
pub fn field_range_error() -> (r: PairingErr)
    ensures
        r.code == FIELD_RANGE_ERROR,
{
    PairingErr::new(FIELD_RANGE_ERROR, "coordinate is not an element of the base field")
}

/// The error of coordinates that do not lie on the curve.
pub fn not_on_curve_error() -> (r: PairingErr)
    ensures
        r.code == NOT_ON_CURVE_ERROR,
{
    PairingErr::new(NOT_ON_CURVE_ERROR, "point is not on the curve")
}

/// The error of a buffer too short to hold what is read from or written to it.
pub fn encoding_error() -> (r: PairingErr)
    ensures
        r.code == ENCODING_ERROR,
{
    PairingErr::new(ENCODING_ERROR, "buffer is too short for the encoding")
}

} // verus!
