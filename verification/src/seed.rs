//! Seed validation and key derivation.
//!
//! A usable seed is 4 to 8 printable ASCII bytes. It expands into exactly
//! 8 bytes of key material by cycling its bytes, so every seed byte
//! influences the key; longer seeds are rejected, never truncated.

use vstd::prelude::*;
use vstd::arithmetic::div_mod::lemma_small_mod;

verus! {

/// A printable ASCII byte (space through tilde).
pub open spec fn is_printable(b: u8) -> bool {
    32 <= b <= 126
}

/// A usable seed: 4 to 8 bytes, all printable ASCII.
pub open spec fn seed_ok(s: Seq<u8>) -> bool {
    &&& 4 <= s.len() <= 8
    &&& forall|i: int| 0 <= i < s.len() ==> is_printable(#[trigger] s[i])
}

/// The 8 key bytes a seed expands to: the seed's bytes repeated in a cycle.
pub open spec fn spec_derive_key(s: Seq<u8>) -> Seq<u8>
    recommends
        s.len() >= 1,
{
    Seq::new(8, |i: int| s[i % (s.len() as int)])
}

/// Check that a seed is usable: 4 to 8 bytes, all printable ASCII.
pub fn check_seed(s: &Vec<u8>) -> (r: bool)
    ensures
        r == seed_ok(s@),
{
    if s.len() < 4 || s.len() > 8 {
        return false;
    }
    let mut i: usize = 0;
    while i < s.len()
        invariant
            i <= s@.len(),
            4 <= s@.len() <= 8,
            forall|j: int| 0 <= j < i ==> is_printable(#[trigger] s@[j]),
        decreases s@.len() - i,
    {
        if s[i] < 32 || s[i] > 126 {
            assert(!is_printable(s@[i as int]));
            return false;
        }
        i += 1;
    }
    true
}

/// Expand an already validated seed into the 8 key bytes. The precondition
/// keeps unvalidated input out statically: no cipher work can start from a
/// seed that `check_seed` would reject.
pub fn derive_key(s: &Vec<u8>) -> (k: Vec<u8>)
    requires
        seed_ok(s@),
    ensures
        k@ == spec_derive_key(s@),
        k@.len() == 8,
{
    let mut k: Vec<u8> = Vec::new();
    let mut i: usize = 0;
    while i < 8
        invariant
            i <= 8,
            4 <= s@.len() <= 8,
            k@ =~= spec_derive_key(s@).take(i as int),
        decreases 8 - i,
    {
        k.push(s[i % s.len()]);
        i += 1;
    }
    assert(k@ =~= spec_derive_key(s@));
    k
}

/// Key derivation loses nothing within one seed length: distinct seeds of
/// the same length expand to distinct key material.
pub proof fn lemma_derive_key_injective_same_len(s1: Seq<u8>, s2: Seq<u8>)
    requires
        seed_ok(s1),
        seed_ok(s2),
        s1.len() == s2.len(),
        spec_derive_key(s1) == spec_derive_key(s2),
    ensures
        s1 == s2,
{
    assert forall|i: int| 0 <= i < s1.len() implies s1[i] == s2[i] by {
        lemma_small_mod(i as nat, s1.len());
        assert(i % (s1.len() as int) == i);
        assert(spec_derive_key(s1)[i] == s1[i]);
        assert(spec_derive_key(s2)[i] == s2[i]);
    }
    assert(s1 =~= s2);
}

/// The uppercase hexadecimal digit of a value below 16.
pub open spec fn hex_digit(v: int) -> u8
    recommends
        0 <= v < 16,
{
    if v < 10 {
        (48 + v) as u8
    } else {
        (55 + v) as u8
    }
}

/// The diagnostic rendering of the 8 key bytes: two uppercase hexadecimal
/// digits per byte, high nibble first.
pub open spec fn spec_key_hex(k: Seq<u8>) -> Seq<u8> {
    Seq::new(
        2 * k.len(),
        |i: int|
            if i % 2 == 0 {
                hex_digit((k[i / 2] >> 4) as int)
            } else {
                hex_digit((k[i / 2] & 15) as int)
            },
    )
}

/// The uppercase hexadecimal digit of a value below 16.
fn hex_digit_of(v: u8) -> (r: u8)
    requires
        v < 16,
    ensures
        r == hex_digit(v as int),
        r < 128,
{
    if v < 10 {
        48 + v
    } else {
        55 + v
    }
}

/// Render the 8 key bytes as 16 uppercase hexadecimal digits.
pub fn key_hex(k: &Vec<u8>) -> (r: Vec<u8>)
    requires
        k@.len() == 8,
    ensures
        r@ == spec_key_hex(k@),
        forall|i: int| 0 <= i < r@.len() ==> #[trigger] r@[i] < 128,
{
    let mut r: Vec<u8> = Vec::new();
    let mut i: usize = 0;
    while i < 8
        invariant
            i <= 8,
            k@.len() == 8,
            r@ =~= spec_key_hex(k@).take(2 * i as int),
            forall|j: int| 0 <= j < r@.len() ==> #[trigger] r@[j] < 128,
        decreases 8 - i,
    {
        let b = k[i];
        assert(b >> 4 < 16) by (bit_vector);
        assert(b & 15 < 16) by (bit_vector);
        r.push(hex_digit_of(b >> 4));
        r.push(hex_digit_of(b & 15));
        i += 1;
    }
    assert(r@ =~= spec_key_hex(k@));
    r
}

} // verus!
