//! The generation engine: single-date and date-range password generation,
//! and the diagnostic rendering of the derived key.
//!
//! Every validation failure is detected before any cipher work: a bad seed
//! is reported first, then a bad date, then a bad range. The engine never
//! panics; it only returns the declared error values.

use vstd::prelude::*;
use vstd::string::{StrSliceExecFns, StringSliceAdditionalSpecFns};
use crate::cipher::{encrypt_block, spec_encrypt_block};
use crate::dates::{
    day_number, day_number_of, date_string, encode_date, lemma_day_number_bounds,
    lemma_next_day_number, max_date, next_day, nth_next_day, parse_date, spec_date_string,
    spec_encode_date, spec_parse_date, valid_date, CalendarDate,
};
use crate::password::{encode_password, spec_encode_password};
use crate::seed::{check_seed, derive_key, key_hex, seed_ok, spec_derive_key, spec_key_hex};

verus! {

/// The seed used when the caller supplies none.
pub const DEFAULT_SEED: &'static str = "MPSJKMDH";

/// A validation failure, carrying the offending input.
#[derive(Debug)]
pub enum PotdError {
    /// The seed is not 4 to 8 printable ASCII characters.
    InvalidSeed { input: String },
    /// The date string is not a genuine `YYYY-MM-DD` calendar date.
    InvalidDate { input: String },
    /// The start date of a range falls after its end date.
    InvalidDateRange { start: String, end: String },
}

/// The password of one date under one seed: the date's plaintext block
/// encrypted under the seed's key material, encoded as a password.
pub open spec fn spec_generate(seed: Seq<u8>, d: CalendarDate) -> Seq<char> {
    spec_encode_password(spec_encrypt_block(spec_derive_key(seed), spec_encode_date(d)))
}

/// Generation is deterministic: equal seed bytes and equal dates always
/// yield the same password, whichever calls produced them.
pub proof fn lemma_generate_deterministic(
    s1: Seq<u8>,
    d1: CalendarDate,
    s2: Seq<u8>,
    d2: CalendarDate,
)
    requires
        s1 == s2,
        d1 == d2,
    ensures
        spec_generate(s1, d1) == spec_generate(s2, d2),
{
}

/// Generate the password of the day `date` (in `YYYY-MM-DD` form) under
/// `seed`. The seed is validated first, then the date; the password exists
/// exactly when both are valid.
pub fn generate(date: &str, seed: &str) -> (r: Result<String, PotdError>)
    ensures
        r is Ok <==> seed_ok(seed.spec_bytes()) && spec_parse_date(date.spec_bytes()) is Some,
        spec_parse_date(date.spec_bytes()) matches Some(d) ==> (seed_ok(seed.spec_bytes()) ==> (
        r matches Ok(p) && p@ == spec_generate(seed.spec_bytes(), d) && p@.len() == 8)),
        !seed_ok(seed.spec_bytes()) ==> (r matches Err(PotdError::InvalidSeed { input })
            && input@ == seed@),
        seed_ok(seed.spec_bytes()) && spec_parse_date(date.spec_bytes()) is None ==> (
        r matches Err(PotdError::InvalidDate { input }) && input@ == date@),
{
    let seed_bytes = seed.as_bytes_vec();
    if !check_seed(&seed_bytes) {
        return Err(PotdError::InvalidSeed { input: seed.to_owned() });
    }
    let date_bytes = date.as_bytes_vec();
    match parse_date(&date_bytes) {
        None => Err(PotdError::InvalidDate { input: date.to_owned() }),
        Some(d) => {
            let key = derive_key(&seed_bytes);
            let pt = encode_date(d);
            let ct = encrypt_block(&key, &pt);
            Ok(encode_password(&ct))
        },
    }
}

/// Generate the passwords of every day from `start` to `end` inclusive, in
/// chronological order, each keyed by its canonical `YYYY-MM-DD` form. The
/// seed is validated first, then the start date, then the end date; a start
/// after the end is rejected, a start equal to the end yields one entry.
pub fn generate_range(start: &str, end: &str, seed: &str) -> (r: Result<
    Vec<(String, String)>,
    PotdError,
>)
    ensures
        r is Ok <==> seed_ok(seed.spec_bytes()) && spec_parse_date(start.spec_bytes()) is Some
            && spec_parse_date(end.spec_bytes()) is Some && day_number(
            spec_parse_date(start.spec_bytes()).unwrap(),
        ) <= day_number(spec_parse_date(end.spec_bytes()).unwrap()),
        !seed_ok(seed.spec_bytes()) ==> (r matches Err(PotdError::InvalidSeed { input })
            && input@ == seed@),
        seed_ok(seed.spec_bytes()) && spec_parse_date(start.spec_bytes()) is None ==> (
        r matches Err(PotdError::InvalidDate { input }) && input@ == start@),
        seed_ok(seed.spec_bytes()) && spec_parse_date(start.spec_bytes()) is Some
            && spec_parse_date(end.spec_bytes()) is None ==> (r matches Err(
        PotdError::InvalidDate { input },
        ) && input@ == end@),
        spec_parse_date(start.spec_bytes()) matches Some(ds) ==> (spec_parse_date(
            end.spec_bytes(),
        ) matches Some(de) ==> (seed_ok(seed.spec_bytes()) && day_number(ds) > day_number(de)
            ==> (r matches Err(PotdError::InvalidDateRange { start: a, end: b }) && a@ == start@
            && b@ == end@))),
        spec_parse_date(start.spec_bytes()) matches Some(ds) ==> (spec_parse_date(
            end.spec_bytes(),
        ) matches Some(de) ==> (seed_ok(seed.spec_bytes()) && day_number(ds) <= day_number(de)
            ==> (r matches Ok(v) && {
            &&& v@.len() == day_number(de) - day_number(ds) + 1
            &&& forall|i: int|
                0 <= i < v@.len() ==> {
                    let di = nth_next_day(ds, i);
                    &&& (#[trigger] v@[i]).0@ == spec_date_string(di)
                    &&& v@[i].1@ == spec_generate(seed.spec_bytes(), di)
                    &&& valid_date(di)
                    &&& day_number(di) == day_number(ds) + i
                }
        }))),
{
    let seed_bytes = seed.as_bytes_vec();
    if !check_seed(&seed_bytes) {
        return Err(PotdError::InvalidSeed { input: seed.to_owned() });
    }
    let start_bytes = start.as_bytes_vec();
    let ds = match parse_date(&start_bytes) {
        None => {
            return Err(PotdError::InvalidDate { input: start.to_owned() });
        },
        Some(d) => d,
    };
    let end_bytes = end.as_bytes_vec();
    let de = match parse_date(&end_bytes) {
        None => {
            return Err(PotdError::InvalidDate { input: end.to_owned() });
        },
        Some(d) => d,
    };
    let start_num = day_number_of(ds);
    let end_num = day_number_of(de);
    if start_num > end_num {
        return Err(PotdError::InvalidDateRange { start: start.to_owned(), end: end.to_owned() });
    }
    let key = derive_key(&seed_bytes);
    let mut out: Vec<(String, String)> = Vec::new();
    let mut cur = ds;
    let mut cur_num = start_num;
    proof {
        lemma_day_number_bounds(ds);
        lemma_day_number_bounds(de);
    }
    loop
        invariant_except_break
            valid_date(cur),
            valid_date(ds),
            valid_date(de),
            cur_num as int == day_number(cur),
            start_num as int == day_number(ds),
            end_num as int == day_number(de),
            start_num <= cur_num <= end_num,
            day_number(de) <= day_number(max_date()),
            cur == nth_next_day(ds, cur_num as int - start_num as int),
            out@.len() == cur_num - start_num,
            seed_bytes@ == seed.spec_bytes(),
            key@ == spec_derive_key(seed.spec_bytes()),
            forall|i: int|
                0 <= i < out@.len() ==> {
                    let di = nth_next_day(ds, i);
                    &&& (#[trigger] out@[i]).0@ == spec_date_string(di)
                    &&& out@[i].1@ == spec_generate(seed.spec_bytes(), di)
                    &&& valid_date(di)
                    &&& day_number(di) == day_number(ds) + i
                },
        ensures
            out@.len() == end_num - start_num + 1,
            forall|i: int|
                0 <= i < out@.len() ==> {
                    let di = nth_next_day(ds, i);
                    &&& (#[trigger] out@[i]).0@ == spec_date_string(di)
                    &&& out@[i].1@ == spec_generate(seed.spec_bytes(), di)
                    &&& valid_date(di)
                    &&& day_number(di) == day_number(ds) + i
                },
        decreases end_num - cur_num,
    {
        let entry_key = date_string(cur);
        let pt = encode_date(cur);
        let ct = encrypt_block(&key, &pt);
        let password = encode_password(&ct);
        proof {
            assert(nth_next_day(ds, cur_num as int - start_num as int) == cur);
        }
        out.push((entry_key, password));
        if cur_num == end_num {
            break ;
        }
        proof {
            lemma_next_day_number(cur);
            if cur == max_date() {
                assert(day_number(de) <= day_number(cur));
            }
        }
        cur = next_day(cur);
        cur_num = cur_num + 1;
    }
    Ok(out)
}

/// The diagnostic rendering a seed's key material gets: sixteen uppercase
/// hexadecimal characters, two per key byte.
pub open spec fn spec_seed_hex(seed: Seq<u8>) -> Seq<char> {
    spec_key_hex(spec_derive_key(seed)).map_values(|b: u8| b as char)
}

/// Render the key material derived from `seed` in hexadecimal, for display
/// and configuration use only; the rendering exists exactly when the seed
/// is valid.
pub fn seed_to_des(seed: &str) -> (r: Result<String, PotdError>)
    ensures
        r is Ok <==> seed_ok(seed.spec_bytes()),
        r matches Ok(h) ==> h@ == spec_seed_hex(seed.spec_bytes()),
        !seed_ok(seed.spec_bytes()) ==> (r matches Err(PotdError::InvalidSeed { input })
            && input@ == seed@),
{
    let seed_bytes = seed.as_bytes_vec();
    if !check_seed(&seed_bytes) {
        return Err(PotdError::InvalidSeed { input: seed.to_owned() });
    }
    let key = derive_key(&seed_bytes);
    let hex = key_hex(&key);
    assert(forall|i: int| 0 <= i < hex@.len() ==> hex@[i] < 128);
    Ok(crate::text::ascii_bytes_to_string(hex))
}

} // verus!
