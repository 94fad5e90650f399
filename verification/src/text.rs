//! Building ASCII strings from verified byte sequences.

use vstd::prelude::*;

verus! {

/// Relies on String::from_utf8: a sequence of bytes below 128 is valid
/// UTF-8, and decodes to the string whose characters are exactly those byte
/// values.
#[verifier::external_body]
pub fn ascii_bytes_to_string(v: Vec<u8>) -> (r: String)
    requires
        forall|i: int| 0 <= i < v@.len() ==> v@[i] < 128,
    ensures
        r@ == v@.map_values(|b: u8| b as char),
{
    String::from_utf8(v).unwrap()
}

} // verus!
