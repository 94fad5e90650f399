//! The block-cipher engine: key schedule and 16-round Feistel encryption of
//! one 64-bit block.
//!
//! The specification functions here define the cipher mathematically over
//! bit sequences; the executable functions are proved to compute exactly
//! those sequences. Encryption cannot fail: any 64-bit key and block produce
//! exactly one 64-bit ciphertext.

use vstd::prelude::*;
use crate::bits::{
    apply_table, b2u, bits_of_bytes, bits_to_bytes, byte_of_bits, bytes_of_bits, bytes_to_bits,
    concat_bits, select, sub_bits, table_in_range, xor, xor_bits,
};
use crate::tables::{lemma_tables_in_range, E, FP, IP, P, PC1, PC2, SBOXES, SHIFTS};

verus! {

/// `s` rotated left by `n` positions.
pub open spec fn rotl(s: Seq<bool>, n: int) -> Seq<bool>
    recommends
        0 <= n <= s.len(),
{
    s.subrange(n, s.len() as int) + s.subrange(0, n)
}

/// The left 28-bit key-schedule half after `i` rounds of rotation.
pub open spec fn c_half(key: Seq<bool>, i: int) -> Seq<bool>
    decreases i,
{
    if i <= 0 {
        apply_table(key, PC1@).take(28)
    } else {
        rotl(c_half(key, i - 1), SHIFTS@[i - 1] as int)
    }
}

/// The right 28-bit key-schedule half after `i` rounds of rotation.
pub open spec fn d_half(key: Seq<bool>, i: int) -> Seq<bool>
    decreases i,
{
    if i <= 0 {
        apply_table(key, PC1@).skip(28)
    } else {
        rotl(d_half(key, i - 1), SHIFTS@[i - 1] as int)
    }
}

/// The 48-bit subkey of round `i` (1 through 16): the compressed
/// concatenation of the rotated key halves.
pub open spec fn subkey(key: Seq<bool>, i: int) -> Seq<bool>
    recommends
        1 <= i <= 16,
{
    apply_table(c_half(key, i) + d_half(key, i), PC2@)
}

/// The row-and-column index a 6-bit group selects within a substitution box:
/// the outer two bits pick the row, the inner four the column.
pub open spec fn sbox_index(s: Seq<bool>) -> int
    recommends
        s.len() == 6,
{
    32 * b2u(s[0]) + 16 * b2u(s[5]) + 8 * b2u(s[1]) + 4 * b2u(s[2]) + 2 * b2u(s[3]) + b2u(s[4])
}

/// The four bits of a substitution-box entry, most significant first.
pub open spec fn nibble_bits(v: u8) -> Seq<bool> {
    seq![(v >> 3) & 1 == 1, (v >> 2) & 1 == 1, (v >> 1) & 1 == 1, v & 1 == 1]
}

/// The output of substitution box `g` on the 6-bit group `s`.
pub open spec fn sbox_one(g: int, s: Seq<bool>) -> Seq<bool>
    recommends
        0 <= g < 8,
        s.len() == 6,
{
    nibble_bits(SBOXES@[g]@[sbox_index(s)])
}

/// The substitution layer: 48 bits in, 32 bits out, box `g` acting on the
/// `g`-th group of 6 bits.
#[verifier::opaque]
pub open spec fn sbox_layer(x: Seq<bool>) -> Seq<bool>
    recommends
        x.len() == 48,
{
    sbox_one(0, x.subrange(0, 6)) + sbox_one(1, x.subrange(6, 12)) + sbox_one(
        2,
        x.subrange(12, 18),
    ) + sbox_one(3, x.subrange(18, 24)) + sbox_one(4, x.subrange(24, 30)) + sbox_one(
        5,
        x.subrange(30, 36),
    ) + sbox_one(6, x.subrange(36, 42)) + sbox_one(7, x.subrange(42, 48))
}

/// The round function: expand the right half to 48 bits, mix in the subkey,
/// substitute, and permute.
#[verifier::opaque]
pub open spec fn feistel_f(r: Seq<bool>, k: Seq<bool>) -> Seq<bool>
    recommends
        r.len() == 32,
        k.len() == 48,
{
    apply_table(sbox_layer(xor_bits(apply_table(r, E@), k)), P@)
}

/// The halves after `n` Feistel rounds starting from `(l0, r0)`.
pub open spec fn round_halves(key: Seq<bool>, l0: Seq<bool>, r0: Seq<bool>, n: int) -> (Seq<
    bool,
>, Seq<bool>)
    decreases n,
{
    if n <= 0 {
        (l0, r0)
    } else {
        let prev = round_halves(key, l0, r0, n - 1);
        (prev.1, xor_bits(prev.0, feistel_f(prev.1, subkey(key, n))))
    }
}

/// Encryption over bits: initial permutation, 16 rounds, swap of the final
/// halves, final permutation.
pub open spec fn encrypt_bits(key: Seq<bool>, pt: Seq<bool>) -> Seq<bool>
    recommends
        key.len() == 64,
        pt.len() == 64,
{
    let ip = apply_table(pt, IP@);
    let lr = round_halves(key, ip.take(32), ip.skip(32), 16);
    apply_table(lr.1 + lr.0, FP@)
}

/// Encryption of one 8-byte block under an 8-byte key.
pub open spec fn spec_encrypt_block(key: Seq<u8>, pt: Seq<u8>) -> Seq<u8> {
    bytes_of_bits(encrypt_bits(bits_of_bytes(key), bits_of_bytes(pt)))
}

/// `s` rotated left by `n` positions.
fn rotate_left(x: &Vec<bool>, n: usize) -> (r: Vec<bool>)
    requires
        n <= x@.len(),
    ensures
        r@ == rotl(x@, n as int),
{
    let hi = sub_bits(x, n, x.len());
    let lo = sub_bits(x, 0, n);
    concat_bits(&hi, &lo)
}

/// The 16 round subkeys derived from the 64 key bits.
fn key_schedule(key: &Vec<bool>) -> (ks: Vec<Vec<bool>>)
    requires
        key@.len() == 64,
    ensures
        ks@.len() == 16,
        forall|i: int| 0 <= i < 16 ==> #[trigger] ks@[i]@ == subkey(key@, i + 1),
{
    proof {
        lemma_tables_in_range();
    }
    let pc1 = select(key, &PC1);
    let mut c = sub_bits(&pc1, 0, 28);
    let mut d = sub_bits(&pc1, 28, 56);
    let mut ks: Vec<Vec<bool>> = Vec::new();
    let mut i: usize = 0;
    assert(c@ == c_half(key@, 0));
    assert(d@ == d_half(key@, 0));
    while i < 16
        invariant
            i <= 16,
            key@.len() == 64,
            ks@.len() == i,
            c@ == c_half(key@, i as int),
            d@ == d_half(key@, i as int),
            c@.len() == 28,
            d@.len() == 28,
            forall|j: int| 0 <= j < i ==> #[trigger] ks@[j]@ == subkey(key@, j + 1),
        decreases 16 - i,
    {
        proof {
            lemma_tables_in_range();
        }
        let sh = SHIFTS[i] as usize;
        c = rotate_left(&c, sh);
        d = rotate_left(&d, sh);
        let cd = concat_bits(&c, &d);
        let k = select(&cd, &PC2);
        assert(k@ == subkey(key@, i + 1));
        ks.push(k);
        i += 1;
    }
    ks
}

/// One substitution box applied to the 6-bit group starting at `off`.
#[verifier::rlimit(50)]
fn sbox_group(x: &Vec<bool>, g: usize, off: usize) -> (r: Vec<bool>)
    requires
        g < 8,
        off + 6 <= x@.len() <= 64,
    ensures
        r@ == sbox_one(g as int, x@.subrange(off as int, off as int + 6)),
{
    let idx: usize = (if x[off] {
        32
    } else {
        0
    }) + (if x[off + 5] {
        16
    } else {
        0
    }) + (if x[off + 1] {
        8
    } else {
        0
    }) + (if x[off + 2] {
        4
    } else {
        0
    }) + (if x[off + 3] {
        2
    } else {
        0
    }) + (if x[off + 4] {
        1
    } else {
        0
    });
    assert(idx == sbox_index(x@.subrange(off as int, off as int + 6)));
    let v = SBOXES[g][idx];
    let mut r: Vec<bool> = Vec::new();
    r.push((v >> 3) & 1 == 1);
    r.push((v >> 2) & 1 == 1);
    r.push((v >> 1) & 1 == 1);
    r.push(v & 1 == 1);
    assert(r@ =~= nibble_bits(v));
    r
}

/// The full substitution layer of one round.
fn sbox_apply(x: &Vec<bool>) -> (r: Vec<bool>)
    requires
        x@.len() == 48,
    ensures
        r@ == sbox_layer(x@),
        r@.len() == 32,
{
    proof {
        reveal_with_fuel(sbox_layer_prefix, 9);
    }
    let mut r = sbox_group(x, 0, 0);
    let mut g: usize = 1;
    while g < 8
        invariant
            1 <= g <= 8,
            x@.len() == 48,
            r@ =~= sbox_layer_prefix(x@, g as int),
        decreases 8 - g,
    {
        let mut next = sbox_group(x, g, 6 * g);
        r.append(&mut next);
        g += 1;
    }
    proof {
        reveal_with_fuel(sbox_layer_prefix, 9);
        reveal(sbox_layer);
    }
    assert(r@ =~= sbox_layer(x@));
    r
}

/// The concatenated outputs of the first `g` substitution boxes.
pub open spec fn sbox_layer_prefix(x: Seq<bool>, g: int) -> Seq<bool>
    recommends
        x.len() == 48,
        0 <= g <= 8,
    decreases g,
{
    if g <= 0 {
        Seq::empty()
    } else {
        sbox_layer_prefix(x, g - 1) + sbox_one(g - 1, x.subrange(6 * (g - 1), 6 * g))
    }
}

/// The round function applied to the right half and one subkey.
fn round_fn(r: &Vec<bool>, k: &Vec<bool>) -> (out: Vec<bool>)
    requires
        r@.len() == 32,
        k@.len() == 48,
    ensures
        out@ == feistel_f(r@, k@),
        out@.len() == 32,
{
    proof {
        lemma_tables_in_range();
        reveal(feistel_f);
    }
    let expanded = select(r, &E);
    let mixed = xor(&expanded, k);
    let substituted = sbox_apply(&mixed);
    select(&substituted, &P)
}

/// Encrypt one 8-byte block under an 8-byte key.
#[verifier::rlimit(50)]
pub fn encrypt_block(key: &Vec<u8>, pt: &Vec<u8>) -> (ct: Vec<u8>)
    requires
        key@.len() == 8,
        pt@.len() == 8,
    ensures
        ct@ == spec_encrypt_block(key@, pt@),
        ct@.len() == 8,
{
    proof {
        lemma_tables_in_range();
    }
    let key_bits = bytes_to_bits(key);
    let pt_bits = bytes_to_bits(pt);
    let ks = key_schedule(&key_bits);
    let ip = select(&pt_bits, &IP);
    let mut l = sub_bits(&ip, 0, 32);
    let mut r = sub_bits(&ip, 32, 64);
    assert(l@ == apply_table(pt_bits@, IP@).take(32));
    assert(r@ == apply_table(pt_bits@, IP@).skip(32));
    let mut n: usize = 0;
    while n < 16
        invariant
            n <= 16,
            key_bits@.len() == 64,
            ks@.len() == 16,
            forall|i: int| 0 <= i < 16 ==> #[trigger] ks@[i]@ == subkey(key_bits@, i + 1),
            l@ == round_halves(
                key_bits@,
                apply_table(pt_bits@, IP@).take(32),
                apply_table(pt_bits@, IP@).skip(32),
                n as int,
            ).0,
            r@ == round_halves(
                key_bits@,
                apply_table(pt_bits@, IP@).take(32),
                apply_table(pt_bits@, IP@).skip(32),
                n as int,
            ).1,
            l@.len() == 32,
            r@.len() == 32,
        decreases 16 - n,
    {
        let f_out = round_fn(&r, &ks[n]);
        let new_r = xor(&l, &f_out);
        l = r;
        r = new_r;
        n += 1;
    }
    let out = concat_bits(&r, &l);
    let ct_bits = select(&out, &FP);
    bits_to_bytes(&ct_bits)
}

} // verus!
