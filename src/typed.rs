//! The typed encrypted values and their entry points: each type fixes the
//! logical width of its ciphertext, so operands always agree on their layout.
use crate::errors::FheError;
use crate::integer::{
    decrypt_u128, decrypt_u256, evaluate, evaluate_assign, is_bitwise, outcome, try_encrypt,
    try_encrypt_u256, BinaryOp, RadixCiphertext,
};
use crate::keys::{ConcreteClientKey, ConcretePublicKey, Config, ServerKeyContext};
use crate::params::FheTypeId;
use crate::u256::U256;
use vstd::prelude::*;

verus! {

/// An encrypted boolean.
#[derive(Debug)]
pub struct FheBool {
    pub ciphertext: RadixCiphertext,
}

/// An encrypted 8-bit unsigned integer.
#[derive(Debug)]
pub struct FheUint8 {
    pub ciphertext: RadixCiphertext,
}

/// An encrypted 16-bit unsigned integer.
#[derive(Debug)]
pub struct FheUint16 {
    pub ciphertext: RadixCiphertext,
}

/// An encrypted 256-bit unsigned integer.
#[derive(Debug)]
pub struct FheUint256 {
    pub ciphertext: RadixCiphertext,
}

/// The plaintext a successful encryption of `v` as type `t` under a key
/// built from `config` decrypts to, or the error it fails with.
pub open spec fn encryption(v: int, t: FheTypeId, config: Config) -> Result<int, FheError> {
    if !config.enables(t) {
        Err(FheError::UnsupportedType(t))
    } else {
        Ok(v)
    }
}

/// What decrypting `ct` with a key built from `config` yields.
pub open spec fn decryption(ct: RadixCiphertext, config: Config) -> Result<int, FheError> {
    if !config.enables(ct.type_id) {
        Err(FheError::UnsupportedType(ct.type_id))
    } else {
        Ok(ct.value())
    }
}

impl FheBool {
    pub open spec fn wf(&self) -> bool {
        self.ciphertext.wf() && self.ciphertext.type_id == FheTypeId::Bool
    }

    pub open spec fn value(&self) -> int {
        self.ciphertext.value()
    }

    fn encrypt_with_config(value: bool, config: &Config) -> (r: Result<FheBool, FheError>)
        ensures
            match encryption(if value { 1int } else { 0int }, FheTypeId::Bool, *config) {
                Ok(v) => r is Ok && r->Ok_0.wf() && r->Ok_0.value() == v,
                Err(e) => r == Err::<FheBool, FheError>(e),
            },
    {
        let plain: u128 = if value {
            1
        } else {
            0
        };
        proof {
            vstd::arithmetic::power::lemma_pow1(2);
        }
        match try_encrypt(plain, FheTypeId::Bool, config) {
            Ok(ciphertext) => Ok(FheBool { ciphertext }),
            Err(e) => Err(e),
        }
    }

    /// A bit operation (`BitAnd`, `BitOr` or `BitXor`) with the current
    /// server key.
    pub fn evaluate(&self, op: BinaryOp, rhs: &FheBool, context: &ServerKeyContext) -> (r: Result<
        FheBool,
        FheError,
    >)
        requires
            self.wf(),
            rhs.wf(),
            is_bitwise(op),
        ensures
            match outcome(op, self.value(), rhs.value(), FheTypeId::Bool, *context) {
                Ok(v) => r is Ok && r->Ok_0.wf() && r->Ok_0.value() == v,
                Err(e) => r == Err::<FheBool, FheError>(e),
            },
    {
        match evaluate(op, &self.ciphertext, &rhs.ciphertext, context) {
            Ok(ciphertext) => Ok(FheBool { ciphertext }),
            Err(e) => Err(e),
        }
    }
}

/// Encrypts a boolean with a client key.
pub fn fhe_bool_try_encrypt_with_client_key_bool(value: bool, client_key: &ConcreteClientKey) -> (r:
    Result<FheBool, FheError>)
    ensures
        match encryption(if value { 1int } else { 0int }, FheTypeId::Bool, client_key.config) {
            Ok(v) => r is Ok && r->Ok_0.wf() && r->Ok_0.value() == v,
            Err(e) => r == Err::<FheBool, FheError>(e),
        },
{
    FheBool::encrypt_with_config(value, &client_key.config)
}

/// Encrypts a boolean with a public key.
pub fn fhe_bool_try_encrypt_with_public_key(value: bool, public_key: &ConcretePublicKey) -> (r:
    Result<FheBool, FheError>)
    ensures
        match encryption(if value { 1int } else { 0int }, FheTypeId::Bool, public_key.config) {
            Ok(v) => r is Ok && r->Ok_0.wf() && r->Ok_0.value() == v,
            Err(e) => r == Err::<FheBool, FheError>(e),
        },
{
    FheBool::encrypt_with_config(value, &public_key.config)
}

/// Decrypts a boolean.
pub fn fhe_bool_decrypt(encrypted_value: &FheBool, client_key: &ConcreteClientKey) -> (r: Result<
    bool,
    FheError,
>)
    requires
        encrypted_value.wf(),
    ensures
        match decryption(encrypted_value.ciphertext, client_key.config) {
            Ok(v) => r == Ok::<bool, FheError>(v == 1),
            Err(e) => r == Err::<bool, FheError>(e),
        },
{
    match decrypt_u128(&encrypted_value.ciphertext, &client_key.config) {
        Ok(v) => Ok(v == 1),
        Err(e) => Err(e),
    }
}

impl FheUint8 {
    pub open spec fn wf(&self) -> bool {
        self.ciphertext.wf() && self.ciphertext.type_id == FheTypeId::Uint8
    }

    pub open spec fn value(&self) -> int {
        self.ciphertext.value()
    }

    fn encrypt_with_config(value: u8, config: &Config) -> (r: Result<FheUint8, FheError>)
        ensures
            match encryption(value as int, FheTypeId::Uint8, *config) {
                Ok(v) => r is Ok && r->Ok_0.wf() && r->Ok_0.value() == v,
                Err(e) => r == Err::<FheUint8, FheError>(e),
            },
    {
        proof {
            crate::params::lemma_blocks_cover_bits(FheTypeId::Uint8);
            lemma_u8_in_range(value);
        }
        match try_encrypt(value as u128, FheTypeId::Uint8, config) {
            Ok(ciphertext) => Ok(FheUint8 { ciphertext }),
            Err(e) => Err(e),
        }
    }

    /// Encrypts with a client key.
    pub fn encrypt(value: u8, client_key: &ConcreteClientKey) -> (r: Result<FheUint8, FheError>)
        ensures
            match encryption(value as int, FheTypeId::Uint8, client_key.config) {
                Ok(v) => r is Ok && r->Ok_0.wf() && r->Ok_0.value() == v,
                Err(e) => r == Err::<FheUint8, FheError>(e),
            },
    {
        FheUint8::encrypt_with_config(value, &client_key.config)
    }

    /// Decrypts with a client key.
    pub fn decrypt(&self, client_key: &ConcreteClientKey) -> (r: Result<u8, FheError>)
        requires
            self.wf(),
        ensures
            match decryption(self.ciphertext, client_key.config) {
                Ok(v) => r is Ok && r->Ok_0 == v,
                Err(e) => r == Err::<u8, FheError>(e),
            },
    {
        proof {
            crate::params::lemma_blocks_cover_bits(FheTypeId::Uint8);
            lemma_pow_2_8();
        }
        match decrypt_u128(&self.ciphertext, &client_key.config) {
            Ok(v) => Ok(v as u8),
            Err(e) => Err(e),
        }
    }

    /// Evaluates `op` with the current server key.
    pub fn evaluate(&self, op: BinaryOp, rhs: &FheUint8, context: &ServerKeyContext) -> (r: Result<
        FheUint8,
        FheError,
    >)
        requires
            self.wf(),
            rhs.wf(),
        ensures
            match outcome(op, self.value(), rhs.value(), FheTypeId::Uint8, *context) {
                Ok(v) => r is Ok && r->Ok_0.wf() && r->Ok_0.value() == v,
                Err(e) => r == Err::<FheUint8, FheError>(e),
            },
    {
        match evaluate(op, &self.ciphertext, &rhs.ciphertext, context) {
            Ok(ciphertext) => Ok(FheUint8 { ciphertext }),
            Err(e) => Err(e),
        }
    }

    /// Evaluates `op` in place with the current server key.
    pub fn evaluate_assign(&mut self, op: BinaryOp, rhs: &FheUint8, context: &ServerKeyContext) -> (r:
        Result<(), FheError>)
        requires
            old(self).wf(),
            rhs.wf(),
        ensures
            final(self).wf(),
            match outcome(op, old(self).value(), rhs.value(), FheTypeId::Uint8, *context) {
                Ok(v) => r is Ok && final(self).value() == v,
                Err(e) => r == Err::<(), FheError>(e) && final(self).value() == old(self).value(),
            },
    {
        evaluate_assign(op, &mut self.ciphertext, &rhs.ciphertext, context)
    }
}

/// Encrypts an 8-bit value with a client key.
pub fn fhe_uint8_try_encrypt_with_client_key_u8(value: u8, client_key: &ConcreteClientKey) -> (r:
    Result<FheUint8, FheError>)
    ensures
        match encryption(value as int, FheTypeId::Uint8, client_key.config) {
            Ok(v) => r is Ok && r->Ok_0.wf() && r->Ok_0.value() == v,
            Err(e) => r == Err::<FheUint8, FheError>(e),
        },
{
    FheUint8::encrypt(value, client_key)
}

/// Encrypts an 8-bit value with a public key.
pub fn fhe_uint8_try_encrypt_with_public_key(value: u8, public_key: &ConcretePublicKey) -> (r:
    Result<FheUint8, FheError>)
    ensures
        match encryption(value as int, FheTypeId::Uint8, public_key.config) {
            Ok(v) => r is Ok && r->Ok_0.wf() && r->Ok_0.value() == v,
            Err(e) => r == Err::<FheUint8, FheError>(e),
        },
{
    FheUint8::encrypt_with_config(value, &public_key.config)
}

/// Decrypts an 8-bit value.
pub fn fhe_uint8_decrypt(encrypted_value: &FheUint8, client_key: &ConcreteClientKey) -> (r: Result<
    u8,
    FheError,
>)
    requires
        encrypted_value.wf(),
    ensures
        match decryption(encrypted_value.ciphertext, client_key.config) {
            Ok(v) => r is Ok && r->Ok_0 == v,
            Err(e) => r == Err::<u8, FheError>(e),
        },
{
    encrypted_value.decrypt(client_key)
}

proof fn lemma_u8_in_range(value: u8)
    ensures
        (value as int) < crate::params::plain_modulus(FheTypeId::Uint8),
{
    lemma_pow_2_8();
}

proof fn lemma_pow_2_8()
    ensures
        crate::params::plain_modulus(FheTypeId::Uint8) == 256,
        crate::params::plain_modulus(FheTypeId::Uint16) == 65536,
{
    use_type_pow();
}

proof fn use_type_pow()
    ensures
        vstd::arithmetic::power::pow(2, 8) == 256,
        vstd::arithmetic::power::pow(2, 16) == 65536,
{
    reveal(vstd::arithmetic::power::pow);
    assert(vstd::arithmetic::power::pow(2, 0) == 1);
    assert(vstd::arithmetic::power::pow(2, 1) == 2);
    assert(vstd::arithmetic::power::pow(2, 2) == 4);
    vstd::arithmetic::power::lemma_pow_adds(2, 2, 2);
    assert(vstd::arithmetic::power::pow(2, 4) == 16);
    vstd::arithmetic::power::lemma_pow_adds(2, 4, 4);
    assert(vstd::arithmetic::power::pow(2, 8) == 256);
    vstd::arithmetic::power::lemma_pow_adds(2, 8, 8);
}

impl FheUint16 {
    pub open spec fn wf(&self) -> bool {
        self.ciphertext.wf() && self.ciphertext.type_id == FheTypeId::Uint16
    }

    pub open spec fn value(&self) -> int {
        self.ciphertext.value()
    }

    /// Encrypts with a client key.
    pub fn encrypt(value: u16, client_key: &ConcreteClientKey) -> (r: Result<FheUint16, FheError>)
        ensures
            match encryption(value as int, FheTypeId::Uint16, client_key.config) {
                Ok(v) => r is Ok && r->Ok_0.wf() && r->Ok_0.value() == v,
                Err(e) => r == Err::<FheUint16, FheError>(e),
            },
    {
        proof {
            lemma_pow_2_8();
        }
        match try_encrypt(value as u128, FheTypeId::Uint16, &client_key.config) {
            Ok(ciphertext) => Ok(FheUint16 { ciphertext }),
            Err(e) => Err(e),
        }
    }

    /// Decrypts with a client key.
    pub fn decrypt(&self, client_key: &ConcreteClientKey) -> (r: Result<u16, FheError>)
        requires
            self.wf(),
        ensures
            match decryption(self.ciphertext, client_key.config) {
                Ok(v) => r is Ok && r->Ok_0 == v,
                Err(e) => r == Err::<u16, FheError>(e),
            },
    {
        proof {
            lemma_pow_2_8();
        }
        match decrypt_u128(&self.ciphertext, &client_key.config) {
            Ok(v) => Ok(v as u16),
            Err(e) => Err(e),
        }
    }

    /// Evaluates `op` with the current server key.
    pub fn evaluate(&self, op: BinaryOp, rhs: &FheUint16, context: &ServerKeyContext) -> (r: Result<
        FheUint16,
        FheError,
    >)
        requires
            self.wf(),
            rhs.wf(),
        ensures
            match outcome(op, self.value(), rhs.value(), FheTypeId::Uint16, *context) {
                Ok(v) => r is Ok && r->Ok_0.wf() && r->Ok_0.value() == v,
                Err(e) => r == Err::<FheUint16, FheError>(e),
            },
    {
        match evaluate(op, &self.ciphertext, &rhs.ciphertext, context) {
            Ok(ciphertext) => Ok(FheUint16 { ciphertext }),
            Err(e) => Err(e),
        }
    }
}

impl FheUint256 {
    pub open spec fn wf(&self) -> bool {
        self.ciphertext.wf() && self.ciphertext.type_id == FheTypeId::Uint256
    }

    pub open spec fn value(&self) -> int {
        self.ciphertext.value()
    }

    fn encrypt_with_config(value: &U256, config: &Config) -> (r: Result<FheUint256, FheError>)
        ensures
            match encryption(value.value(), FheTypeId::Uint256, *config) {
                Ok(v) => r is Ok && r->Ok_0.wf() && r->Ok_0.value() == v,
                Err(e) => r == Err::<FheUint256, FheError>(e),
            },
    {
        match try_encrypt_u256(value, config) {
            Ok(ciphertext) => Ok(FheUint256 { ciphertext }),
            Err(e) => Err(e),
        }
    }

    /// Evaluates `op` with the current server key.
    pub fn evaluate(&self, op: BinaryOp, rhs: &FheUint256, context: &ServerKeyContext) -> (r: Result<
        FheUint256,
        FheError,
    >)
        requires
            self.wf(),
            rhs.wf(),
        ensures
            match outcome(op, self.value(), rhs.value(), FheTypeId::Uint256, *context) {
                Ok(v) => r is Ok && r->Ok_0.wf() && r->Ok_0.value() == v,
                Err(e) => r == Err::<FheUint256, FheError>(e),
            },
    {
        match evaluate(op, &self.ciphertext, &rhs.ciphertext, context) {
            Ok(ciphertext) => Ok(FheUint256 { ciphertext }),
            Err(e) => Err(e),
        }
    }

    /// Evaluates `op` in place with the current server key.
    pub fn evaluate_assign(&mut self, op: BinaryOp, rhs: &FheUint256, context: &ServerKeyContext) -> (r:
        Result<(), FheError>)
        requires
            old(self).wf(),
            rhs.wf(),
        ensures
            final(self).wf(),
            match outcome(op, old(self).value(), rhs.value(), FheTypeId::Uint256, *context) {
                Ok(v) => r is Ok && final(self).value() == v,
                Err(e) => r == Err::<(), FheError>(e) && final(self).value() == old(self).value(),
            },
    {
        evaluate_assign(op, &mut self.ciphertext, &rhs.ciphertext, context)
    }
}

/// Encrypts a 256-bit value with a client key.
pub fn fhe_uint256_try_encrypt_with_client_key_u256(value: &U256, client_key: &ConcreteClientKey) -> (r:
    Result<FheUint256, FheError>)
    ensures
        match encryption(value.value(), FheTypeId::Uint256, client_key.config) {
            Ok(v) => r is Ok && r->Ok_0.wf() && r->Ok_0.value() == v,
            Err(e) => r == Err::<FheUint256, FheError>(e),
        },
{
    FheUint256::encrypt_with_config(value, &client_key.config)
}

/// Encrypts a 256-bit value with a public key.
pub fn fhe_uint256_try_encrypt_with_public_key_u256(value: &U256, public_key: &ConcretePublicKey) -> (r:
    Result<FheUint256, FheError>)
    ensures
        match encryption(value.value(), FheTypeId::Uint256, public_key.config) {
            Ok(v) => r is Ok && r->Ok_0.wf() && r->Ok_0.value() == v,
            Err(e) => r == Err::<FheUint256, FheError>(e),
        },
{
    FheUint256::encrypt_with_config(value, &public_key.config)
}

/// Decrypts a 256-bit value.
pub fn fhe_uint256_decrypt(encrypted_value: &FheUint256, client_key: &ConcreteClientKey) -> (r:
    Result<U256, FheError>)
    requires
        encrypted_value.wf(),
    ensures
        match decryption(encrypted_value.ciphertext, client_key.config) {
            Ok(v) => r is Ok && r->Ok_0.value() == v,
            Err(e) => r == Err::<U256, FheError>(e),
        },
{
    decrypt_u256(&encrypted_value.ciphertext, &client_key.config)
}

} // verus!
