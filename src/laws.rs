//! Laws relating encryption, decryption, evaluation and the server key
//! context, stated over the models the entry points' contracts use.
use crate::errors::FheError;
use crate::integer::{outcome, plain_op, BinaryOp, RadixCiphertext};
use crate::keys::{
    installed, unset_result, ConcreteClientKey, ConcretePublicKey, ConcreteServerKey,
    ServerKeyContext,
};
use crate::digits::digits_value;
use crate::params::{plain_modulus, type_blocks, FheTypeId};
use crate::radix::{bit_op_digit, digit, BitOp};
use vstd::arithmetic::power::pow;
use crate::typed::{decryption, encryption};
use vstd::prelude::*;

verus! {

/// Decrypting what a client key encrypted gives the plaintext back.
pub proof fn lemma_client_key_round_trip(
    v: int,
    t: FheTypeId,
    client_key: ConcreteClientKey,
    ct: RadixCiphertext,
)
    requires
        0 <= v < plain_modulus(t),
        ct.type_id == t,
        encryption(v, t, client_key.config) == Ok::<int, FheError>(ct.value()),
    ensures
        decryption(ct, client_key.config) == Ok::<int, FheError>(v),
{
}

/// Decrypting, with the client key, what its public key encrypted gives the
/// plaintext back.
pub proof fn lemma_public_key_round_trip(
    v: int,
    t: FheTypeId,
    client_key: ConcreteClientKey,
    public_key: ConcretePublicKey,
    ct: RadixCiphertext,
)
    requires
        0 <= v < plain_modulus(t),
        public_key.config == client_key.config,
        ct.type_id == t,
        encryption(v, t, public_key.config) == Ok::<int, FheError>(ct.value()),
    ensures
        decryption(ct, client_key.config) == Ok::<int, FheError>(v),
{
}

/// Evaluating with the server key of a client key, then decrypting with that
/// client key, gives the plaintext operation's result.
pub proof fn lemma_homomorphic_correctness(
    op: BinaryOp,
    a: RadixCiphertext,
    b: RadixCiphertext,
    result: RadixCiphertext,
    client_key: ConcreteClientKey,
    server_key: ConcreteServerKey,
)
    requires
        server_key.config == client_key.config,
        client_key.config.enables(a.type_id),
        result.type_id == a.type_id,
        outcome(op, a.value(), b.value(), a.type_id, installed(server_key)) == Ok::<int, FheError>(
            result.value(),
        ),
    ensures
        decryption(result, client_key.config) == Ok::<int, FheError>(
            plain_op(op, a.value(), b.value(), a.type_id),
        ),
{
}

/// An operation on a type that the installed key's configuration never
/// enabled fails with `UnsupportedType`, and never yields a value.
pub proof fn lemma_type_mismatch(
    op: BinaryOp,
    a: int,
    b: int,
    t: FheTypeId,
    server_key: ConcreteServerKey,
)
    requires
        !server_key.config.enables(t),
    ensures
        outcome(op, a, b, t, installed(server_key)) == Err::<int, FheError>(
            FheError::UnsupportedType(t),
        ),
        forall|c: ConcreteClientKey, ct: RadixCiphertext|
            c.config == server_key.config && ct.type_id == t ==> #[trigger] decryption(
                ct,
                c.config,
            ) == Err::<int, FheError>(FheError::UnsupportedType(t)),
{
}

/// An operation with no server key installed fails with `MissingContext`.
pub proof fn lemma_missing_context(op: BinaryOp, a: int, b: int, t: FheTypeId)
    ensures
        outcome(op, a, b, t, ServerKeyContext { current: None }) == Err::<int, FheError>(
            FheError::MissingContext,
        ),
        unset_result(ServerKeyContext { current: None }) == Err::<ConcreteServerKey, FheError>(
            FheError::MissingContext,
        ),
{
}

/// Installing a server key and removing it again hands back that very key,
/// which then evaluates exactly as the installed one did.
pub proof fn lemma_set_then_unset(server_key: ConcreteServerKey, op: BinaryOp, a: int, b: int, t: FheTypeId)
    ensures
        unset_result(installed(server_key)) == Ok::<ConcreteServerKey, FheError>(server_key),
        outcome(op, a, b, t, installed(unset_result(installed(server_key))->Ok_0)) == outcome(
            op,
            a,
            b,
            t,
            installed(server_key),
        ),
{
}

proof fn lemma_digits_of_byte(a: u8)
    ensures
        digit(a as int, 0) == (a % 4) as int,
        digit(a as int, 1) == ((a / 4) % 4) as int,
        digit(a as int, 2) == ((a / 16) % 4) as int,
        digit(a as int, 3) == ((a / 64) % 4) as int,
{
    reveal(pow);
    assert(pow(4, 0) == 1);
    assert(pow(4, 1) == 4);
    assert(pow(4, 2) == 16);
    assert(pow(4, 3) == 64);
}

proof fn lemma_four_digit_value(s: Seq<int>)
    requires
        s.len() == 4,
    ensures
        digits_value(s, 4) == s[0] + 4 * s[1] + 16 * s[2] + 64 * s[3],
{
    reveal(pow);
    assert(pow(4, 0) == 1);
    assert(pow(4, 1) == 4);
    assert(pow(4, 2) == 16);
    assert(pow(4, 3) == 64);
    let s3 = s.drop_last();
    let s2 = s3.drop_last();
    let s1 = s2.drop_last();
    assert(s1.drop_last() =~= Seq::<int>::empty());
    assert(digits_value(s1.drop_last(), 4) == 0);
    assert(s1.last() == s[0] && s2.last() == s[1] && s3.last() == s[2] && s.last() == s[3]);
    assert(digits_value(s1, 4) == s[0]);
    assert(digits_value(s2, 4) == s[0] + s[1] * 4);
    assert(digits_value(s3, 4) == s[0] + s[1] * 4 + s[2] * 16);
}

/// On the 8-bit type, the digit-wise bit operations are the machine's `&`,
/// `|` and `^`.
pub proof fn lemma_uint8_bit_ops_are_machine_ops(a: u8, b: u8)
    ensures
        plain_op(BinaryOp::BitAnd, a as int, b as int, FheTypeId::Uint8) == (a & b) as int,
        plain_op(BinaryOp::BitOr, a as int, b as int, FheTypeId::Uint8) == (a | b) as int,
        plain_op(BinaryOp::BitXor, a as int, b as int, FheTypeId::Uint8) == (a ^ b) as int,
{
    lemma_digits_of_byte(a);
    lemma_digits_of_byte(b);
    let (a0, a1, a2, a3) = ((a % 4) as u64, ((a / 4) % 4) as u64, ((a / 16) % 4) as u64, ((a / 64) % 4) as u64);
    let (b0, b1, b2, b3) = ((b % 4) as u64, ((b / 4) % 4) as u64, ((b / 16) % 4) as u64, ((b / 64) % 4) as u64);
    assert((a & b) as u64 == (a0 & b0) + 4 * (a1 & b1) + 16 * (a2 & b2) + 64 * (a3 & b3)
        && (a | b) as u64 == (a0 | b0) + 4 * (a1 | b1) + 16 * (a2 | b2) + 64 * (a3 | b3)
        && (a ^ b) as u64 == (a0 ^ b0) + 4 * (a1 ^ b1) + 16 * (a2 ^ b2) + 64 * (a3 ^ b3))
        by (bit_vector)
        requires
            a0 == (a % 4) as u64,
            a1 == ((a / 4) % 4) as u64,
            a2 == ((a / 16) % 4) as u64,
            a3 == ((a / 64) % 4) as u64,
            b0 == (b % 4) as u64,
            b1 == ((b / 4) % 4) as u64,
            b2 == ((b / 16) % 4) as u64,
            b3 == ((b / 64) % 4) as u64,
    ;
    let n = type_blocks(FheTypeId::Uint8);
    assert(n == 4);
    let fa = |i: int| bit_op_digit(BitOp::And, digit(a as int, i as nat), digit(b as int, i as nat));
    let fo = |i: int| bit_op_digit(BitOp::Or, digit(a as int, i as nat), digit(b as int, i as nat));
    let fx = |i: int| bit_op_digit(BitOp::Xor, digit(a as int, i as nat), digit(b as int, i as nat));
    lemma_four_digit_value(Seq::new(4, fa));
    lemma_four_digit_value(Seq::new(4, fo));
    lemma_four_digit_value(Seq::new(4, fx));
}

} // verus!
