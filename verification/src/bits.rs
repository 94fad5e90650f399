//! Bit sequences and their conversions to and from bytes.
//!
//! The cipher is specified over sequences of bits; bits are numbered with the
//! most significant bit of each byte first, as the cipher's tables expect.

use vstd::prelude::*;

verus! {

/// The bit of `b` at position `j` (0 through 7), counting the most
/// significant bit as position 0.
pub open spec fn bit_of_byte(b: u8, j: int) -> bool
    recommends
        0 <= j < 8,
{
    (b >> ((7 - j) as u8)) & 1 == 1
}

/// All bits of a byte sequence, most significant bit of each byte first.
pub open spec fn bits_of_bytes(s: Seq<u8>) -> Seq<bool> {
    Seq::new(s.len() * 8, |i: int| bit_of_byte(s[i / 8], i % 8))
}

/// 1 for a set bit, 0 for a clear one.
pub open spec fn b2u(b: bool) -> u8 {
    if b {
        1
    } else {
        0
    }
}

/// The byte whose bits are `s`, most significant first.
pub open spec fn byte_of_bits(s: Seq<bool>) -> u8
    recommends
        s.len() == 8,
{
    (128 * b2u(s[0]) + 64 * b2u(s[1]) + 32 * b2u(s[2]) + 16 * b2u(s[3]) + 8 * b2u(s[4]) + 4 * b2u(
        s[5],
    ) + 2 * b2u(s[6]) + b2u(s[7])) as u8
}

/// The bytes of a bit sequence whose length is a multiple of 8.
pub open spec fn bytes_of_bits(s: Seq<bool>) -> Seq<u8> {
    Seq::new(s.len() / 8, |i: int| byte_of_bits(s.subrange(8 * i, 8 * i + 8)))
}

/// Pointwise exclusive or of two bit sequences of equal length.
pub open spec fn xor_bits(a: Seq<bool>, b: Seq<bool>) -> Seq<bool>
    recommends
        a.len() == b.len(),
{
    Seq::new(a.len(), |i: int| a[i] != b[i])
}

/// Every entry of `t` is a 1-indexed position into a sequence of length `n`.
pub open spec fn table_in_range(t: Seq<u8>, n: int) -> bool {
    forall|i: int| 0 <= i < t.len() ==> 1 <= #[trigger] t[i] <= n
}

/// The selection `r[i] = x[t[i] - 1]`: `t` lists 1-indexed source positions,
/// as the cipher's permutation, expansion and compression tables do.
pub open spec fn apply_table(x: Seq<bool>, t: Seq<u8>) -> Seq<bool>
    recommends
        table_in_range(t, x.len() as int),
{
    Seq::new(t.len(), |i: int| x[t[i] - 1])
}

/// Expand bytes into their bits, most significant bit of each byte first.
pub fn bytes_to_bits(s: &Vec<u8>) -> (r: Vec<bool>)
    requires
        s@.len() <= 8,
    ensures
        r@ == bits_of_bytes(s@),
{
    let mut r: Vec<bool> = Vec::new();
    let mut i: usize = 0;
    while i < s.len()
        invariant
            i <= s@.len() <= 8,
            r@ =~= bits_of_bytes(s@).take(8 * i as int),
        decreases s@.len() - i,
    {
        let b = s[i];
        let mut j: usize = 0;
        while j < 8
            invariant
                i < s@.len() <= 8,
                j <= 8,
                b == s@[i as int],
                r@ =~= bits_of_bytes(s@).take(8 * i as int + j as int),
            decreases 8 - j,
        {
            let sh: u8 = (7 - j) as u8;
            r.push((b >> sh) & 1 == 1);
            assert(bits_of_bytes(s@)[8 * i as int + j as int] == bit_of_byte(b, j as int));
            j += 1;
        }
        i += 1;
    }
    r
}

/// Pack bits (a multiple of 8 of them, at most 64) back into bytes.
pub fn bits_to_bytes(s: &Vec<bool>) -> (r: Vec<u8>)
    requires
        s@.len() % 8 == 0,
        s@.len() <= 64,
    ensures
        r@ == bytes_of_bits(s@),
{
    let mut r: Vec<u8> = Vec::new();
    let mut i: usize = 0;
    while 8 * i < s.len()
        invariant
            s@.len() % 8 == 0,
            s@.len() <= 64,
            8 * i <= s@.len(),
            r@ =~= bytes_of_bits(s@).take(i as int),
        decreases s@.len() - 8 * i,
    {
        assert(8 * i + 8 <= s@.len());
        let v: u8 = (if s[8 * i] {
            128
        } else {
            0
        }) + (if s[8 * i + 1] {
            64
        } else {
            0
        }) + (if s[8 * i + 2] {
            32
        } else {
            0
        }) + (if s[8 * i + 3] {
            16
        } else {
            0
        }) + (if s[8 * i + 4] {
            8
        } else {
            0
        }) + (if s[8 * i + 5] {
            4
        } else {
            0
        }) + (if s[8 * i + 6] {
            2
        } else {
            0
        }) + (if s[8 * i + 7] {
            1
        } else {
            0
        });
        assert(v == byte_of_bits(s@.subrange(8 * i as int, 8 * i as int + 8)));
        r.push(v);
        i += 1;
    }
    assert(r@ =~= bytes_of_bits(s@));
    r
}

/// Pointwise exclusive or.
pub fn xor(a: &Vec<bool>, b: &Vec<bool>) -> (r: Vec<bool>)
    requires
        a@.len() == b@.len(),
    ensures
        r@ == xor_bits(a@, b@),
{
    let mut r: Vec<bool> = Vec::new();
    let mut i: usize = 0;
    while i < a.len()
        invariant
            i <= a@.len(),
            a@.len() == b@.len(),
            r@ =~= xor_bits(a@, b@).take(i as int),
        decreases a@.len() - i,
    {
        r.push(a[i] != b[i]);
        i += 1;
    }
    r
}

/// Select bits through a table of 1-indexed positions.
pub fn select<const N: usize>(x: &Vec<bool>, t: &[u8; N]) -> (r: Vec<bool>)
    requires
        table_in_range(t@, x@.len() as int),
    ensures
        r@ == apply_table(x@, t@),
{
    let mut r: Vec<bool> = Vec::new();
    let mut i: usize = 0;
    while i < N
        invariant
            i <= N,
            t@.len() == N,
            table_in_range(t@, x@.len() as int),
            r@ =~= apply_table(x@, t@).take(i as int),
        decreases N - i,
    {
        let p = t[i];
        r.push(x[(p - 1) as usize]);
        i += 1;
    }
    r
}

/// Copy the bit range `[from, to)` out of `x`.
pub fn sub_bits(x: &Vec<bool>, from: usize, to: usize) -> (r: Vec<bool>)
    requires
        from <= to <= x@.len(),
    ensures
        r@ == x@.subrange(from as int, to as int),
{
    let mut r: Vec<bool> = Vec::new();
    let mut i: usize = from;
    while i < to
        invariant
            from <= i <= to <= x@.len(),
            r@ =~= x@.subrange(from as int, i as int),
        decreases to - i,
    {
        r.push(x[i]);
        i += 1;
    }
    r
}

/// Concatenate two bit sequences.
pub fn concat_bits(a: &Vec<bool>, b: &Vec<bool>) -> (r: Vec<bool>)
    ensures
        r@ == a@ + b@,
{
    let mut r: Vec<bool> = Vec::new();
    let mut i: usize = 0;
    while i < a.len()
        invariant
            i <= a@.len(),
            r@ =~= a@.take(i as int),
        decreases a@.len() - i,
    {
        r.push(a[i]);
        i += 1;
    }
    let mut j: usize = 0;
    while j < b.len()
        invariant
            j <= b@.len(),
            r@ =~= a@ + b@.take(j as int),
        decreases b@.len() - j,
    {
        r.push(b[j]);
        j += 1;
    }
    r
}

} // verus!
