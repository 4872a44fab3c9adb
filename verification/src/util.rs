//! The checksum predicate, the digest of a candidate, and the parser of a
//! digest written in hexadecimal.

use vstd::prelude::*;
use vstd::string::StringSliceAdditionalSpecFns;

verus! {

/// The sum of the decimal digits of `n`, the least significant weighted by
/// `index`, the next by `index + 1`, and so on.
pub open spec fn weighted_digit_sum(n: nat, index: nat) -> nat
    decreases n,
{
    if n == 0 {
        0
    } else {
        (n % 10) * index + weighted_digit_sum(n / 10, index + 1)
    }
}

/// Whether the weighted digit sum of `test`, with weights 1, 2, 3, ... from the
/// least significant digit, is a multiple of `modulo`.
pub open spec fn m_proef_spec(test: u32, modulo: u32) -> bool {
    weighted_digit_sum(test as nat, 1) % (modulo as nat) == 0
}

/// The largest value that can be left of a `u32` once `index - 1` digits
/// have been taken off it.
spec fn remainder_cap(index: nat) -> nat {
    if index <= 1 {
        4294967295
    } else if index == 2 {
        429496729
    } else if index == 3 {
        42949672
    } else if index == 4 {
        4294967
    } else if index == 5 {
        429496
    } else if index == 6 {
        42949
    } else if index == 7 {
        4294
    } else if index == 8 {
        429
    } else if index == 9 {
        42
    } else if index == 10 {
        4
    } else {
        0
    }
}

/// Verifies if a given number passes the m_proef test: its digits, weighted by
/// their position counted from the right, sum to a multiple of `modulo`.
pub fn m_proef(test: u32, modulo: u32) -> (passes: bool)
    requires
        modulo != 0,
    ensures
        passes == m_proef_spec(test, modulo),
{
    let mut rest: u32 = test;
    let mut counter: u32 = 0;
    let mut index: u32 = 1;
    while rest != 0
        invariant
            1 <= index <= 11,
            rest <= remainder_cap(index as nat),
            counter <= 90 * (index - 1),
            counter + weighted_digit_sum(rest as nat, index as nat) == weighted_digit_sum(
                test as nat,
                1,
            ),
        decreases rest,
    {
        let digit: u32 = rest % 10;
        assert(digit * index <= 90) by (nonlinear_arith)
            requires
                digit <= 9,
                index <= 10,
        ;
        counter += digit * index;
        rest /= 10;
        index += 1;
    }
    (counter % modulo) == 0
}

/// The decimal numeral of `n` in ASCII, most significant digit first, without
/// leading zeros.
pub open spec fn decimal(n: nat) -> Seq<u8>
    decreases n,
{
    if n < 10 {
        seq![(48 + n) as u8]
    } else {
        decimal(n / 10).push((48 + n % 10) as u8)
    }
}

/// Appends the decimal numeral of `x` to `buffer`.
pub fn write_decimal(buffer: &mut Vec<u8>, x: u32)
    ensures
        final(buffer)@ == old(buffer)@ + decimal(x as nat),
    decreases x,
{
    if x >= 10 {
        write_decimal(buffer, x / 10);
    }
    let digit: u32 = x % 10;
    buffer.push((48 + digit) as u8);
}

/// The hasher `sha1::Sha1`, carried about and never looked into.
#[verifier::external_type_specification]
#[verifier::external_body]
pub struct ExSha1(sha1::Sha1);

/// The SHA-1 digest of a byte string, as `sha1::Sha1::digest` computes it of
/// the bytes that the hasher was fed.
pub uninterp spec fn sha1_of(data: Seq<u8>) -> Seq<u8>;

/// A hasher in its initial state, from `sha1::Sha1::new`.
#[verifier::external_body]
pub(crate) fn new_hasher() -> sha1::Sha1 {
    sha1::Sha1::new()
}

/// Runs `sha1::Sha1::reset`, `update` and `digest` on `hasher`, and
/// `Digest::bytes` on what comes out. The reset discards whatever the hasher
/// was fed before, so the result is the SHA-1 digest of `data` alone.
#[verifier::external_body]
pub(crate) fn rehash(hasher: &mut sha1::Sha1, data: &[u8]) -> (digest: [u8; 20])
    ensures
        digest@ == sha1_of(data@),
{
    hasher.reset();
    hasher.update(data);
    hasher.digest().bytes()
}

/// Whether `hash` is the digest of the decimal numeral of `x`.
pub open spec fn valid_hash_spec(x: u32, hash: Seq<u8>) -> bool {
    sha1_of(decimal(x as nat)) == hash
}

/// Byte-wise comparison of a computed digest with the one that is sought.
pub fn digest_matches(digest: &[u8; 20], hash: &[u8; 20]) -> (same: bool)
    ensures
        same == (digest@ == hash@),
{
    let mut i: usize = 0;
    while i < 20
        invariant
            i <= 20,
            forall|j: int| 0 <= j < i ==> digest@[j] == hash@[j],
        decreases 20 - i,
    {
        if digest[i] != hash[i] {
            return false;
        }
        i += 1;
    }
    assert(digest@ =~= hash@);
    true
}

/// Whether `x`, written in decimal, hashes to `hash`. The buffer and the
/// hasher are scratch space: what they held before is discarded, and the
/// buffer is left holding the numeral.
pub fn valid_hash_fast(
    x: u32,
    hash: &[u8; 20],
    buffer: &mut Vec<u8>,
    sha1: &mut sha1::Sha1,
) -> (valid: bool)
    ensures
        valid == valid_hash_spec(x, hash@),
        final(buffer)@ == decimal(x as nat),
{
    buffer.clear();
    write_decimal(buffer, x);
    let digest = rehash(sha1, buffer.as_slice());
    digest_matches(&digest, hash)
}

/// Whether `x`, written in decimal, hashes to `hash`.
pub fn valid_hash(x: u32, hash: &[u8; 20]) -> (valid: bool)
    ensures
        valid == valid_hash_spec(x, hash@),
{
    let mut sha1 = new_hasher();
    let mut buffer: Vec<u8> = Vec::with_capacity(10);
    valid_hash_fast(x, hash, &mut buffer, &mut sha1)
}

/// The value of one hexadecimal digit in ASCII, of either case.
pub open spec fn hex_digit_value(c: u8) -> Option<u8> {
    if 48 <= c <= 57 {
        Some((c - 48) as u8)
    } else if 97 <= c <= 102 {
        Some((c - 87) as u8)
    } else if 65 <= c <= 70 {
        Some((c - 55) as u8)
    } else {
        None
    }
}

/// The byte that a field of two characters stands for. The field is read as
/// the standard integer parser reads a numeral in base 16: two digits, or a
/// plus sign and one digit.
pub open spec fn hex_pair_value(first: u8, second: u8) -> Option<u8> {
    match hex_digit_value(second) {
        None => None,
        Some(low) => if first == 43 {
            Some(low)
        } else {
            match hex_digit_value(first) {
                None => None,
                Some(high) => Some((16 * high + low) as u8),
            }
        },
    }
}

/// The byte that field `i` of `text` stands for, the fields being two
/// characters wide.
pub open spec fn hex_field_value(text: Seq<u8>, i: int) -> Option<u8> {
    hex_pair_value(text[2 * i], text[2 * i + 1])
}

/// The digest that forty bytes of text stand for, two characters to the byte;
/// `None` for any other length and where a field is no numeral.
pub open spec fn hex_digest_spec(text: Seq<u8>) -> Option<Seq<u8>> {
    if text.len() == 40 && (forall|i: int| 0 <= i < 20 ==> hex_field_value(text, i) is Some) {
        Some(Seq::new(20, |i: int| hex_field_value(text, i).unwrap()))
    } else {
        None
    }
}

/// The value of one hexadecimal digit, if `c` is one.
pub fn hex_digit(c: u8) -> (value: Option<u8>)
    ensures
        value == hex_digit_value(c),
{
    if 48 <= c && c <= 57 {
        Some(c - 48)
    } else if 97 <= c && c <= 102 {
        Some(c - 87)
    } else if 65 <= c && c <= 70 {
        Some(c - 55)
    } else {
        None
    }
}

/// The byte that the two characters `first` and `second` stand for, if any.
pub fn hex_pair(first: u8, second: u8) -> (value: Option<u8>)
    ensures
        value == hex_pair_value(first, second),
{
    match hex_digit(second) {
        None => None,
        Some(low) => {
            if first == 43 {
                Some(low)
            } else {
                match hex_digit(first) {
                    None => None,
                    Some(high) => Some(16 * high + low),
                }
            }
        },
    }
}

/// Transform a string of hexadecimal values to a byte string of twenty bytes.
pub fn sha1_hex_to_bytes(hex: &str) -> (digest: Option<Box<[u8; 20]>>)
    ensures
        match digest {
            Some(bytes) => hex_digest_spec(hex.spec_bytes()) == Some(bytes@),
            None => hex_digest_spec(hex.spec_bytes()) is None,
        },
{
    let bytes = hex.as_bytes();
    if bytes.len() != 40 {
        return None;
    }
    let mut buffer: [u8; 20] = [0; 20];
    let mut i: usize = 0;
    while i < 20
        invariant
            i <= 20,
            bytes@ == hex.spec_bytes(),
            bytes@.len() == 40,
            forall|j: int| 0 <= j < i ==> hex_field_value(bytes@, j) == Some(buffer@[j]),
        decreases 20 - i,
    {
        let first: usize = i * 2;
        let second: usize = first + 1;
        match hex_pair(bytes[first], bytes[second]) {
            Some(b) => {
                buffer[i] = b;
            },
            None => {
                assert(hex_field_value(bytes@, i as int) is None);
                return None;
            },
        }
        i += 1;
    }
    Some(Box::new(buffer))
}

} // verus!
