//! Conversions for the foreign library's sentinel-encoded return values:
//! a tri-state boolean word and a size word that is negative on error.

use vstd::prelude::*;

verus! {

/// Decode a foreign tri-state boolean word: negative means "error pending,
/// consult the context", zero means false, positive means true.
pub fn isl_bool_to_optional_bool(b: i32) -> (r: Option<bool>)
    ensures
        r == (if b < 0 {
            None::<bool>
        } else if b == 0 {
            Some(false)
        } else {
            Some(true)
        }),
{
    if b < 0 {
        None
    } else if b == 0 {
        Some(false)
    } else {
        Some(true)
    }
}

/// Decode a foreign size word: a negative value means "error pending,
/// consult the context", any other value is the count itself.
pub fn isl_size_to_optional_u32(s: i32) -> (r: Option<u32>)
    ensures
        r == (if s < 0 {
            None::<u32>
        } else {
            Some(s as u32)
        }),
{
    if s < 0 {
        None
    } else {
        Some(s as u32)
    }
}

} // verus!
