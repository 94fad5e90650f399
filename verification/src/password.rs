//! Encoding a cipher block as a printable password.
//!
//! Each of the 8 ciphertext bytes selects one character of a fixed
//! 32-character alphabet by reduction modulo the alphabet size. The
//! alphabet holds the digits and upper-case letters with the visually
//! ambiguous 0, 1, I and O left out; it and the byte order are part of the
//! wire contract.

use vstd::prelude::*;
use crate::text::ascii_bytes_to_string;

verus! {

/// The password alphabet: digits and upper-case letters without 0, 1, I, O.
/// As ASCII codes: the digits 2 through 9, then A through Z with I and O
/// skipped.
pub const ALPHABET: [u8; 32] = [
    50, 51, 52, 53, 54, 55, 56, 57, 65, 66, 67, 68, 69, 70, 71, 72, 74, 75, 76, 77, 78, 80, 81,
    82, 83, 84, 85, 86, 87, 88, 89, 90,
];

/// The password alphabet as a byte sequence.
pub open spec fn alphabet() -> Seq<u8> {
    ALPHABET@
}

/// The password alphabet as characters.
pub open spec fn alphabet_chars() -> Seq<char> {
    alphabet().map_values(|b: u8| b as char)
}

/// The password bytes of a cipher block: each byte reduced modulo the
/// alphabet size and replaced by the alphabet byte it selects.
pub open spec fn spec_password_bytes(ct: Seq<u8>) -> Seq<u8> {
    Seq::new(ct.len(), |i: int| alphabet()[(ct[i] % 32) as int])
}

/// The password of a cipher block, as characters, byte order preserved.
pub open spec fn spec_encode_password(ct: Seq<u8>) -> Seq<char> {
    spec_password_bytes(ct).map_values(|b: u8| b as char)
}

/// Encode a cipher block as its password.
pub fn encode_password(ct: &Vec<u8>) -> (p: String)
    requires
        ct@.len() == 8,
    ensures
        p@ == spec_encode_password(ct@),
        p@.len() == 8,
{
    let mut v: Vec<u8> = Vec::new();
    let mut i: usize = 0;
    while i < ct.len()
        invariant
            i <= ct@.len() == 8,
            v@ =~= spec_password_bytes(ct@).take(i as int),
        decreases ct@.len() - i,
    {
        let idx = ct[i] % 32;
        v.push(ALPHABET[idx as usize]);
        i += 1;
    }
    assert(v@ =~= spec_password_bytes(ct@));
    assert(forall|j: int| 0 <= j < 32 ==> ALPHABET@[j] < 128);
    ascii_bytes_to_string(v)
}

/// Every password of an 8-byte cipher block has exactly 8 characters, each
/// drawn from the fixed alphabet.
pub proof fn lemma_password_well_formed(ct: Seq<u8>)
    requires
        ct.len() == 8,
    ensures
        spec_encode_password(ct).len() == 8,
        forall|i: int|
            0 <= i < 8 ==> alphabet_chars().contains(#[trigger] spec_encode_password(ct)[i]),
{
    assert forall|i: int| 0 <= i < 8 implies alphabet_chars().contains(
        #[trigger] spec_encode_password(ct)[i],
    ) by {
        let idx = (ct[i] % 32) as int;
        assert(0 <= idx < 32);
        assert(alphabet_chars()[idx] == spec_encode_password(ct)[i]);
    }
}

} // verus!
