use vstd::prelude::*;
use crate::error::PairingErr;

verus! {

/// The native surface's status of an addition or a multiplication: 0 on
/// success, else the error's code.
pub fn status_code(r: &Result<(), PairingErr>) -> (c: i32)
    ensures
        c == match r {
            Ok(_) => 0i32,
            Err(e) => e.code,
        },
{
    match r {
        Ok(_) => 0,
        Err(e) => e.code,
    }
}

/// The native surface's outcome of a pairing check: the status, and on
/// success the flag to write, 1 when the product is the identity, else 0.
pub fn pair_status(r: &Result<bool, PairingErr>) -> (out: (i32, Option<i32>))
    ensures
        match r {
            Ok(b) => out == (0i32, Some(if *b { 1i32 } else { 0i32 })),
            Err(e) => out == (e.code, None::<i32>),
        },
{
    match r {
        Ok(b) => (0, Some(if *b { 1 } else { 0 })),
        Err(e) => (e.code, None),
    }
}

/// The managed surface's answer to a pairing check: whether it succeeded
/// and found the product to be the identity; a failure to read an entry
/// answers false.
pub fn pair_verified(r: &Result<bool, PairingErr>) -> (v: bool)
    ensures
        v == match r {
            Ok(b) => *b,
            Err(_) => false,
        },
{
    match r {
        Ok(b) => *b,
        Err(_) => false,
    }
}

} // verus!
