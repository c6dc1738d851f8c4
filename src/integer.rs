//! Encrypted integers: a block sequence tagged with its logical type,
//! encryption and decryption against the key hierarchy, and the homomorphic
//! operation set evaluated with the current server key.
use crate::digits::{digits_of_u128, digits_value, lemma_value_split, two_pow_128, u128_of_digits, words_as_digits};
use crate::errors::FheError;
use crate::keys::{Config, ServerKeyContext};
use crate::params::{lemma_blocks_cover_bits, num_blocks, plain_modulus, type_blocks, FheTypeId};
use crate::radix::{
    add_blocks, bit_op_blocks, bit_op_value, blocks_modulus, blocks_ok, blocks_value,
    bool_blocks, eq_blocks, lemma_blocks_bound, mul_blocks, sub_blocks, BitOp,
};
use crate::u256::{lemma_pow_256_16, U256};
use vstd::arithmetic::power::{lemma_pow_adds, lemma_pow_increases, pow};
use vstd::prelude::*;

verus! {

/// A radix-decomposed encrypted integer. Each block is evaluated by the
/// clear reference block engine, which keeps the block's message as is;
/// every rule above the block level (decomposition, carries, borrows,
/// recomposition, key and type checks) is the one a lattice engine obeys.
#[derive(Debug)]
pub struct RadixCiphertext {
    pub type_id: FheTypeId,
    pub blocks: Vec<u64>,
}

impl RadixCiphertext {
    /// The plaintext the ciphertext decrypts to.
    pub open spec fn value(&self) -> int {
        blocks_value(self.blocks@)
    }

    /// The block count is the one registered for the type, every block holds
    /// a digit, and the plaintext lies in the type's range.
    pub open spec fn wf(&self) -> bool {
        &&& self.blocks@.len() == type_blocks(self.type_id)
        &&& blocks_ok(self.blocks@)
        &&& 0 <= self.value() < plain_modulus(self.type_id)
    }
}

/// A homomorphic binary operation.
#[derive(Clone, Copy, Debug, PartialEq, Eq, Structural)]
pub enum BinaryOp {
    Add,
    Sub,
    Mul,
    BitAnd,
    BitOr,
    BitXor,
    Eq,
    Ge,
    Gt,
    Le,
    Lt,
    Min,
    Max,
}

pub open spec fn is_bitwise(op: BinaryOp) -> bool {
    op == BinaryOp::BitAnd || op == BinaryOp::BitOr || op == BinaryOp::BitXor
}

pub open spec fn indicator(b: bool) -> int {
    if b {
        1
    } else {
        0
    }
}

/// What `op` computes on the plaintexts of type `t`: arithmetic wraps modulo
/// `2^bits`, bit operations act on the base-4 digits (two bits each),
/// comparisons give `1` or `0`, and `min` / `max` pick an operand.
pub open spec fn plain_op(op: BinaryOp, a: int, b: int, t: FheTypeId) -> int {
    let m = plain_modulus(t);
    let n = type_blocks(t);
    match op {
        BinaryOp::Add => (a + b) % m,
        BinaryOp::Sub => (a - b) % m,
        BinaryOp::Mul => (a * b) % m,
        BinaryOp::BitAnd => bit_op_value(BitOp::And, a, b, n),
        BinaryOp::BitOr => bit_op_value(BitOp::Or, a, b, n),
        BinaryOp::BitXor => bit_op_value(BitOp::Xor, a, b, n),
        BinaryOp::Eq => indicator(a == b),
        BinaryOp::Ge => indicator(a >= b),
        BinaryOp::Gt => indicator(a > b),
        BinaryOp::Le => indicator(a <= b),
        BinaryOp::Lt => indicator(a < b),
        BinaryOp::Min => if a <= b {
            a
        } else {
            b
        },
        BinaryOp::Max => if a >= b {
            a
        } else {
            b
        },
    }
}

/// The operations a type offers: booleans have the bit operations only.
pub open spec fn supports(op: BinaryOp, t: FheTypeId) -> bool {
    t != FheTypeId::Bool || is_bitwise(op)
}

/// The outcome of evaluating `op` with the server key of `context`: the
/// plaintext of the result, or the error.
pub open spec fn outcome(
    op: BinaryOp,
    a: int,
    b: int,
    t: FheTypeId,
    context: ServerKeyContext,
) -> Result<int, FheError> {
    match context.current {
        None => Err(FheError::MissingContext),
        Some(key) => if key.config.enables(t) {
            Ok(plain_op(op, a, b, t))
        } else {
            Err(FheError::UnsupportedType(t))
        },
    }
}

proof fn lemma_single_block(s: Seq<u64>)
    requires
        s.len() == 1,
    ensures
        blocks_value(s) == s[0],
{
    let w = words_as_digits(s);
    assert(w.drop_last() =~= Seq::<int>::empty());
    assert(w.last() == s[0]);
    assert(digits_value(w.drop_last(), 4) == 0);
    reveal(pow);
    assert(pow(4, 0) == 1);
}

/// A copy of a block sequence.
fn copy_blocks(a: &Vec<u64>) -> (r: Vec<u64>)
    ensures
        r@ == a@,
{
    let mut r: Vec<u64> = Vec::new();
    let mut i: usize = 0;
    while i < a.len()
        invariant
            i <= a@.len(),
            r@ == a@.subrange(0, i as int),
        decreases a@.len() - i,
    {
        r.push(a[i]);
        i = i + 1;
        proof {
            assert(r@ =~= a@.subrange(0, i as int));
        }
    }
    proof {
        assert(r@ =~= a@);
    }
    r
}

/// The block-level evaluation of `op`, once keys have been checked.
fn evaluate_blocks(op: BinaryOp, lhs: &RadixCiphertext, rhs: &RadixCiphertext) -> (r: Vec<u64>)
    requires
        lhs.wf(),
        rhs.wf(),
        lhs.type_id == rhs.type_id,
        supports(op, lhs.type_id),
    ensures
        r@.len() == lhs.blocks@.len(),
        blocks_ok(r@),
        blocks_value(r@) == plain_op(op, lhs.value(), rhs.value(), lhs.type_id),
        0 <= blocks_value(r@) < plain_modulus(lhs.type_id),
{
    let t = lhs.type_id;
    let a = &lhs.blocks;
    let b = &rhs.blocks;
    let n = a.len();
    proof {
        if t != FheTypeId::Bool {
            lemma_blocks_cover_bits(t);
        }
        lemma_blocks_bound(a@);
        lemma_blocks_bound(b@);
    }
    let r = match op {
        BinaryOp::Add => add_blocks(a, b),
        BinaryOp::Sub => sub_blocks(a, b).0,
        BinaryOp::Mul => mul_blocks(a, b),
        BinaryOp::BitAnd => bit_op_blocks(BitOp::And, a, b),
        BinaryOp::BitOr => bit_op_blocks(BitOp::Or, a, b),
        BinaryOp::BitXor => bit_op_blocks(BitOp::Xor, a, b),
        BinaryOp::Eq => bool_blocks(eq_blocks(a, b), n),
        BinaryOp::Ge => bool_blocks(!sub_blocks(a, b).1, n),
        BinaryOp::Gt => bool_blocks(sub_blocks(b, a).1, n),
        BinaryOp::Le => bool_blocks(!sub_blocks(b, a).1, n),
        BinaryOp::Lt => bool_blocks(sub_blocks(a, b).1, n),
        BinaryOp::Min => if sub_blocks(b, a).1 {
            copy_blocks(b)
        } else {
            copy_blocks(a)
        },
        BinaryOp::Max => if sub_blocks(a, b).1 {
            copy_blocks(b)
        } else {
            copy_blocks(a)
        },
    };
    proof {
        lemma_blocks_bound(r@);
        if t == FheTypeId::Bool {
            lemma_single_block(a@);
            lemma_single_block(b@);
            lemma_single_block(r@);
            reveal(pow);
            assert(pow(2, 0) == 1);
            assert(pow(2, 1) == 2);
            let x = a@[0];
            let y = b@[0];
            assert(x & y < 2 && x | y < 2 && x ^ y < 2) by (bit_vector)
                requires
                    x < 2,
                    y < 2,
            ;
        } else {
            reveal(pow);
            assert(pow(4, 0) == 1);
            assert(pow(4, 1) == 4);
            lemma_pow_increases(4, 1, n as nat);
        }
    }
    r
}

/// Evaluates `op` on two ciphertexts of the same type with the current
/// server key. Fails with `MissingContext` when no key is installed, and with
/// `UnsupportedType` when the key's configuration did not enable the type.
pub fn evaluate(
    op: BinaryOp,
    lhs: &RadixCiphertext,
    rhs: &RadixCiphertext,
    context: &ServerKeyContext,
) -> (r: Result<RadixCiphertext, FheError>)
    requires
        lhs.wf(),
        rhs.wf(),
        lhs.type_id == rhs.type_id,
        supports(op, lhs.type_id),
    ensures
        match outcome(op, lhs.value(), rhs.value(), lhs.type_id, *context) {
            Ok(v) => r is Ok && r->Ok_0.wf() && r->Ok_0.type_id == lhs.type_id && r->Ok_0.value()
                == v,
            Err(e) => r == Err::<RadixCiphertext, FheError>(e),
        },
{
    match &context.current {
        None => Err(FheError::MissingContext),
        Some(key) => match key.config.check_enabled(lhs.type_id) {
            Err(e) => Err(e),
            Ok(()) => {
                let blocks = evaluate_blocks(op, lhs, rhs);
                Ok(RadixCiphertext { type_id: lhs.type_id, blocks })
            },
        },
    }
}

/// Evaluates `op` in place: on success `lhs` holds what `evaluate` returns;
/// on failure it is left unchanged.
pub fn evaluate_assign(
    op: BinaryOp,
    lhs: &mut RadixCiphertext,
    rhs: &RadixCiphertext,
    context: &ServerKeyContext,
) -> (r: Result<(), FheError>)
    requires
        old(lhs).wf(),
        rhs.wf(),
        old(lhs).type_id == rhs.type_id,
        supports(op, old(lhs).type_id),
    ensures
        final(lhs).wf(),
        final(lhs).type_id == old(lhs).type_id,
        match outcome(op, old(lhs).value(), rhs.value(), old(lhs).type_id, *context) {
            Ok(v) => r is Ok && final(lhs).value() == v,
            Err(e) => r == Err::<(), FheError>(e) && final(lhs).blocks@ == old(lhs).blocks@,
        },
{
    match evaluate(op, lhs, rhs, context) {
        Ok(result) => {
            *lhs = result;
            Ok(())
        },
        Err(e) => Err(e),
    }
}

/// `2^bits` of the types whose plaintexts fit a `u128`.
fn small_plain_modulus(t: FheTypeId) -> (r: u128)
    requires
        t != FheTypeId::Uint256,
    ensures
        r == plain_modulus(t),
{
    proof {
        reveal(pow);
        assert(pow(2, 0) == 1);
        assert(pow(2, 1) == 2);
        assert(pow(2, 2) == 4);
        lemma_pow_adds(2, 2, 2);
        assert(pow(2, 4) == 16);
        lemma_pow_adds(2, 4, 2);
        assert(pow(2, 6) == 64);
        lemma_pow_adds(2, 4, 4);
        assert(pow(2, 8) == 256);
        lemma_pow_adds(2, 8, 2);
        assert(pow(2, 10) == 1024);
        lemma_pow_adds(2, 8, 4);
        assert(pow(2, 12) == 4096);
        lemma_pow_adds(2, 8, 6);
        assert(pow(2, 14) == 16384);
        lemma_pow_adds(2, 8, 8);
        assert(pow(2, 16) == 65536);
    }
    match t {
        FheTypeId::Bool => 2,
        FheTypeId::Uint8 => 256,
        FheTypeId::Uint10 => 1024,
        FheTypeId::Uint12 => 4096,
        FheTypeId::Uint14 => 16384,
        FheTypeId::Uint16 => 65536,
        FheTypeId::Uint256 => 0,
    }
}

/// Encrypts `value` as a ciphertext of type `t` under a key built from
/// `config`. Fails with `UnsupportedType` when `config` did not enable `t`,
/// and with `InvalidArgument` when `value` is outside the type's range.
pub fn try_encrypt(value: u128, t: FheTypeId, config: &Config) -> (r: Result<
    RadixCiphertext,
    FheError,
>)
    ensures
        !config.enables(t) ==> r == Err::<RadixCiphertext, FheError>(
            FheError::UnsupportedType(t),
        ),
        config.enables(t) && value >= plain_modulus(t) ==> r == Err::<RadixCiphertext, FheError>(
            FheError::InvalidArgument,
        ),
        config.enables(t) && value < plain_modulus(t) ==> r is Ok && r->Ok_0.wf()
            && r->Ok_0.type_id == t && r->Ok_0.value() == value,
{
    if !config.enabled.is_enabled(t) {
        return Err(FheError::UnsupportedType(t));
    }
    let n = num_blocks(t);
    proof {
        lemma_pow_256_16();
        if t != FheTypeId::Bool {
            lemma_blocks_cover_bits(t);
        } else {
            reveal(pow);
            assert(pow(4, 0) == 1);
            assert(pow(4, 1) == 4);
            assert(pow(2, 0) == 1);
            assert(pow(2, 1) == 2);
        }
    }
    if t == FheTypeId::Uint256 {
        proof {
            lemma_pow_increases(4, 64, 128);
        }
        let blocks = digits_of_u128(value, 4, n);
        return Ok(RadixCiphertext { type_id: t, blocks });
    }
    if value >= small_plain_modulus(t) {
        return Err(FheError::InvalidArgument);
    }
    let blocks = digits_of_u128(value, 4, n);
    Ok(RadixCiphertext { type_id: t, blocks })
}

/// Encrypts a 256-bit plaintext; fails with `UnsupportedType` when `config`
/// did not enable the 256-bit type.
pub fn try_encrypt_u256(value: &U256, config: &Config) -> (r: Result<RadixCiphertext, FheError>)
    ensures
        !config.enables(FheTypeId::Uint256) ==> r == Err::<RadixCiphertext, FheError>(
            FheError::UnsupportedType(FheTypeId::Uint256),
        ),
        config.enables(FheTypeId::Uint256) ==> r is Ok && r->Ok_0.wf() && r->Ok_0.type_id
            == FheTypeId::Uint256 && r->Ok_0.value() == value.value(),
{
    if !config.enabled.is_enabled(FheTypeId::Uint256) {
        return Err(FheError::UnsupportedType(FheTypeId::Uint256));
    }
    proof {
        lemma_pow_256_16();
        lemma_blocks_cover_bits(FheTypeId::Uint256);
    }
    let mut blocks = digits_of_u128(value.low, 4, 64);
    let mut hi = digits_of_u128(value.high, 4, 64);
    let ghost lo_s = words_as_digits(blocks@);
    let ghost hi_s = words_as_digits(hi@);
    blocks.append(&mut hi);
    proof {
        let all = words_as_digits(blocks@);
        assert(all =~= lo_s + hi_s);
        assert(all.subrange(0, 64) =~= lo_s);
        assert(all.subrange(64, 128) =~= hi_s);
        lemma_value_split(all, 64, 4);
        assert(two_pow_128() * value.high as int == value.high as int * two_pow_128())
            by (nonlinear_arith);
        lemma_blocks_bound(blocks@);
    }
    Ok(RadixCiphertext { type_id: FheTypeId::Uint256, blocks })
}

/// Decrypts a ciphertext whose plaintext fits a `u128`; fails with
/// `UnsupportedType` when the key's configuration did not enable its type.
pub fn decrypt_u128(ct: &RadixCiphertext, config: &Config) -> (r: Result<u128, FheError>)
    requires
        ct.wf(),
        ct.type_id != FheTypeId::Uint256,
    ensures
        !config.enables(ct.type_id) ==> r == Err::<u128, FheError>(
            FheError::UnsupportedType(ct.type_id),
        ),
        config.enables(ct.type_id) ==> r == Ok::<u128, FheError>(ct.value() as u128),
        r is Ok ==> r->Ok_0 == ct.value(),
{
    match config.check_enabled(ct.type_id) {
        Err(e) => Err(e),
        Ok(()) => {
            let n = num_blocks(ct.type_id);
            proof {
                lemma_pow_256_16();
                lemma_pow_increases(4, n as nat, 64);
                assert(words_as_digits(ct.blocks@).subrange(0, n as int) =~= words_as_digits(
                    ct.blocks@,
                ));
            }
            Ok(u128_of_digits(&ct.blocks, 0, n, 4))
        },
    }
}

/// Decrypts a 256-bit ciphertext; fails with `UnsupportedType` when the key's
/// configuration did not enable the 256-bit type.
pub fn decrypt_u256(ct: &RadixCiphertext, config: &Config) -> (r: Result<U256, FheError>)
    requires
        ct.wf(),
        ct.type_id == FheTypeId::Uint256,
    ensures
        !config.enables(FheTypeId::Uint256) ==> r == Err::<U256, FheError>(
            FheError::UnsupportedType(FheTypeId::Uint256),
        ),
        config.enables(FheTypeId::Uint256) ==> r is Ok && r->Ok_0.value() == ct.value(),
{
    match config.check_enabled(ct.type_id) {
        Err(e) => Err(e),
        Ok(()) => {
            proof {
                lemma_pow_256_16();
            }
            let low = u128_of_digits(&ct.blocks, 0, 64, 4);
            let high = u128_of_digits(&ct.blocks, 64, 128, 4);
            proof {
                let all = words_as_digits(ct.blocks@);
                lemma_value_split(all, 64, 4);
                assert(all.subrange(64, all.len() as int) =~= all.subrange(64, 128));
                assert(high as int * two_pow_128() == two_pow_128() * high as int)
                    by (nonlinear_arith);
            }
            Ok(U256 { low, high })
        },
    }
}

} // verus!
