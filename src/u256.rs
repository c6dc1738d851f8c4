//! A 256-bit unsigned plaintext held as two 128-bit halves, with its exact
//! word and byte conversions.
use crate::digits::{
    bytes_as_digits, digits_ok, digits_of_u128, digits_value, lemma_value_split,
    lemma_value_unique, two_pow_128, u128_of_digits, words_as_digits,
};
use vstd::arithmetic::div_mod::lemma_fundamental_div_mod_converse;
use vstd::arithmetic::power::{lemma_pow_adds, lemma_pow_multiplies, pow};
use vstd::prelude::*;

verus! {

/// 256-bit unsigned integer: `low` holds bits 0..128, `high` bits 128..256.
#[derive(Clone, Copy, Debug, PartialEq, Eq)]
pub struct U256 {
    pub low: u128,
    pub high: u128,
}

impl U256 {
    /// The number this value stands for.
    pub open spec fn value(&self) -> int {
        self.low + self.high * two_pow_128()
    }
}

/// `2^256`, one past the largest `U256`.
pub open spec fn two_pow_256() -> int {
    two_pow_128() * two_pow_128()
}

/// The number that a little-endian byte image stands for.
pub open spec fn le_value(bytes: Seq<u8>) -> int {
    digits_value(bytes_as_digits(bytes), 256)
}

/// The number that a big-endian byte image stands for.
pub open spec fn be_value(bytes: Seq<u8>) -> int {
    le_value(bytes.reverse())
}

pub proof fn lemma_pow_256_16()
    ensures
        pow(256, 16) == two_pow_128(),
        pow(4, 64) == two_pow_128(),
{
    reveal(pow);
    assert(pow(256, 0) == 1);
    assert(pow(256, 1) == 256);
    assert(pow(256, 2) == 65536);
    lemma_pow_adds(256, 2, 2);
    assert(pow(256, 4) == 0x1_0000_0000int);
    lemma_pow_adds(256, 4, 4);
    assert(pow(256, 8) == 0x1_0000_0000int * 0x1_0000_0000int);
    lemma_pow_adds(256, 8, 8);
    assert(pow(256, 16) == 0x1_0000_0000_0000_0000int * 0x1_0000_0000_0000_0000int);
    assert(pow(4, 0) == 1);
    assert(pow(4, 1) == 4);
    assert(pow(4, 2) == 16);
    lemma_pow_adds(4, 2, 2);
    assert(pow(4, 4) == 256);
    lemma_pow_multiplies(4, 4, 16);
    assert(pow(pow(4, 4), 16) == pow(4, 64));
}

proof fn lemma_bytes_digits_ok(bytes: Seq<u8>)
    ensures
        digits_ok(bytes_as_digits(bytes), 256),
{
    let ds = bytes_as_digits(bytes);
    assert forall|i: int| 0 <= i < ds.len() implies 0 <= #[trigger] ds[i] < 256 by {
        assert(ds[i] == bytes[i] as int);
    }
}

/// Builds a value from four 64-bit words, least significant first.
pub fn u256_from_words(words: &[u64; 4]) -> (r: U256)
    ensures
        r.value() == words[0] + words[1] * 0x1_0000_0000_0000_0000int + words[2] * two_pow_128()
            + words[3] * (two_pow_128() * 0x1_0000_0000_0000_0000int),
{
    let low: u128 = (words[0] as u128) + (words[1] as u128) * 0x1_0000_0000_0000_0000u128;
    let high: u128 = (words[2] as u128) + (words[3] as u128) * 0x1_0000_0000_0000_0000u128;
    let r = U256 { low, high };
    proof {
        let w2 = words[2] as int;
        let w3 = words[3] as int;
        let t = two_pow_128();
        assert((w2 + w3 * 0x1_0000_0000_0000_0000int) * t == w2 * t + w3 * (t
            * 0x1_0000_0000_0000_0000int)) by (nonlinear_arith);
    }
    r
}

/// Reads the two halves out of 32 digits in base 256.
fn u256_of_byte_digits(ds: &Vec<u64>) -> (r: U256)
    requires
        ds@.len() == 32,
        digits_ok(words_as_digits(ds@), 256),
    ensures
        r.value() == digits_value(words_as_digits(ds@), 256),
{
    proof {
        lemma_pow_256_16();
    }
    let low = u128_of_digits(ds, 0, 16, 256);
    let high = u128_of_digits(ds, 16, 32, 256);
    proof {
        let all = words_as_digits(ds@);
        lemma_value_split(all, 16, 256);
        assert(all.subrange(16, all.len() as int) =~= all.subrange(16, 32));
        assert(high as int * two_pow_128() == two_pow_128() * high as int) by (nonlinear_arith);
    }
    U256 { low, high }
}

/// Builds a value from its little-endian byte image.
pub fn u256_from_little_endian_bytes(bytes: &[u8; 32]) -> (r: U256)
    ensures
        r.value() == le_value(bytes@),
{
    let mut ds: Vec<u64> = Vec::new();
    let mut i: usize = 0;
    while i < 32
        invariant
            i <= 32,
            bytes@.len() == 32,
            ds@.len() == i,
            forall|j: int| 0 <= j < i ==> #[trigger] ds@[j] == bytes@[j] as u64,
        decreases 32 - i,
    {
        ds.push(bytes[i] as u64);
        i = i + 1;
    }
    proof {
        lemma_bytes_digits_ok(bytes@);
        assert(words_as_digits(ds@) =~= bytes_as_digits(bytes@));
    }
    u256_of_byte_digits(&ds)
}

/// Builds a value from its big-endian byte image.
pub fn u256_from_big_endian_bytes(bytes: &[u8; 32]) -> (r: U256)
    ensures
        r.value() == be_value(bytes@),
{
    let mut ds: Vec<u64> = Vec::new();
    let mut i: usize = 0;
    while i < 32
        invariant
            i <= 32,
            bytes@.len() == 32,
            ds@.len() == i,
            forall|j: int| 0 <= j < i ==> #[trigger] ds@[j] == bytes@[31 - j] as u64,
        decreases 32 - i,
    {
        ds.push(bytes[31 - i] as u64);
        i = i + 1;
    }
    proof {
        lemma_bytes_digits_ok(bytes@.reverse());
        assert(words_as_digits(ds@) =~= bytes_as_digits(bytes@.reverse()));
    }
    u256_of_byte_digits(&ds)
}

/// The 32 digits in base 256 of a value, least significant first.
fn byte_digits_of_u256(input: &U256) -> (r: Vec<u64>)
    ensures
        r@.len() == 32,
        digits_ok(words_as_digits(r@), 256),
        digits_value(words_as_digits(r@), 256) == input.value(),
{
    proof {
        lemma_pow_256_16();
    }
    let mut r = digits_of_u128(input.low, 256, 16);
    let mut hi = digits_of_u128(input.high, 256, 16);
    let ghost lo_s = words_as_digits(r@);
    let ghost hi_s = words_as_digits(hi@);
    r.append(&mut hi);
    proof {
        let all = words_as_digits(r@);
        assert(all =~= lo_s + hi_s);
        assert(all.subrange(0, 16) =~= lo_s);
        assert(all.subrange(16, 32) =~= hi_s);
        lemma_value_split(all, 16, 256);
        assert(two_pow_128() * input.high as int == input.high as int * two_pow_128())
            by (nonlinear_arith);
    }
    r
}

/// Writes the little-endian byte image of `input` into `result`.
pub fn u256_little_endian_bytes(input: &U256, result: &mut [u8; 32])
    ensures
        le_value(final(result)@) == input.value(),
{
    let ds = byte_digits_of_u256(input);
    let mut i: usize = 0;
    while i < 32
        invariant
            i <= 32,
            ds@.len() == 32,
            digits_ok(words_as_digits(ds@), 256),
            forall|j: int| 0 <= j < i ==> #[trigger] result@[j] as int == ds@[j],
        decreases 32 - i,
    {
        proof {
            assert(words_as_digits(ds@)[i as int] == ds@[i as int]);
        }
        result[i] = ds[i] as u8;
        i = i + 1;
    }
    proof {
        assert(bytes_as_digits(result@) =~= words_as_digits(ds@));
    }
}

/// Writes the big-endian byte image of `input` into `result`.
pub fn u256_big_endian_bytes(input: &U256, result: &mut [u8; 32])
    ensures
        be_value(final(result)@) == input.value(),
{
    let ds = byte_digits_of_u256(input);
    let mut i: usize = 0;
    while i < 32
        invariant
            i <= 32,
            ds@.len() == 32,
            digits_ok(words_as_digits(ds@), 256),
            forall|j: int| 0 <= j < i ==> #[trigger] result@[31 - j] as int == ds@[j],
        decreases 32 - i,
    {
        proof {
            assert(words_as_digits(ds@)[i as int] == ds@[i as int]);
        }
        result[31 - i] = ds[i] as u8;
        i = i + 1;
    }
    proof {
        assert forall|j: int| 0 <= j < 32 implies #[trigger] bytes_as_digits(result@.reverse())[j]
            == words_as_digits(ds@)[j] by {
            assert(result@.reverse()[j] == result@[31 - j]);
        }
        assert(bytes_as_digits(result@.reverse()) =~= words_as_digits(ds@));
    }
}

/// Two 32-byte images that stand for the same number are the same image:
/// writing back the value read from a buffer reproduces the buffer.
pub proof fn lemma_le_bytes_round_trip(bytes: Seq<u8>, written: Seq<u8>)
    requires
        bytes.len() == 32,
        written.len() == 32,
        le_value(written) == le_value(bytes),
    ensures
        written == bytes,
{
    lemma_bytes_digits_ok(bytes);
    lemma_bytes_digits_ok(written);
    lemma_value_unique(bytes_as_digits(written), bytes_as_digits(bytes), 256);
    assert forall|i: int| 0 <= i < 32 implies written[i] == bytes[i] by {
        assert(bytes_as_digits(written)[i] == bytes_as_digits(bytes)[i]);
    }
    assert(written =~= bytes);
}

/// The big-endian counterpart of `lemma_le_bytes_round_trip`.
pub proof fn lemma_be_bytes_round_trip(bytes: Seq<u8>, written: Seq<u8>)
    requires
        bytes.len() == 32,
        written.len() == 32,
        be_value(written) == be_value(bytes),
    ensures
        written == bytes,
{
    lemma_le_bytes_round_trip(bytes.reverse(), written.reverse());
    assert forall|i: int| 0 <= i < 32 implies written[i] == bytes[i] by {
        assert(written.reverse()[31 - i] == bytes.reverse()[31 - i]);
    }
    assert(written =~= bytes);
}

/// Reading a buffer little-endian and reading its reversal big-endian give
/// the same number.
pub proof fn lemma_le_matches_reversed_be(bytes: Seq<u8>)
    requires
        bytes.len() == 32,
    ensures
        be_value(bytes.reverse()) == le_value(bytes),
{
    assert(bytes.reverse().reverse() =~= bytes);
}

/// A `U256` is determined by the number it stands for.
pub proof fn lemma_value_determines(a: U256, b: U256)
    requires
        a.value() == b.value(),
    ensures
        a == b,
{
    let t = two_pow_128();
    assert(a.value() == a.high * t + a.low);
    assert(b.value() == b.high * t + b.low);
    lemma_fundamental_div_mod_converse(a.value(), t, a.high as int, a.low as int);
    lemma_fundamental_div_mod_converse(b.value(), t, b.high as int, b.low as int);
}

/// Every `U256` stands for a number in `0 .. 2^256`.
pub proof fn lemma_value_range(a: U256)
    ensures
        0 <= a.value() < two_pow_256(),
{
    let t = two_pow_128();
    assert(0 <= a.low + a.high * t < t * t) by (nonlinear_arith)
        requires
            0 <= a.low < t,
            0 <= a.high < t,
    ;
}

} // verus!
