//! The parameter registry: each logical integer type is bound, once and for
//! all, to its radix block layout and block parameters.
use vstd::arithmetic::power::pow;
use vstd::prelude::*;

verus! {

/// Tag of a logical encrypted type.
#[derive(Clone, Copy, Debug, PartialEq, Eq, Structural)]
pub enum FheTypeId {
    Bool,
    Uint8,
    Uint10,
    Uint12,
    Uint14,
    Uint16,
    Uint256,
}

/// Message space of one block: two bits.
pub const BLOCK_MESSAGE_MODULUS: u64 = 4;

/// Carry space kept free above the message in each block.
pub const BLOCK_CARRY_MODULUS: u64 = 4;

/// Noise and layout parameters of a single block.
#[derive(Clone, Copy, Debug, PartialEq, Eq, Structural)]
pub struct BlockParameters {
    pub message_modulus: u64,
    pub carry_modulus: u64,
    /// Whether the block is evaluated without padding bit.
    pub without_padding: bool,
}

/// The scheme configuration of one logical type: a radix decomposition into
/// `num_block` positional blocks, least significant first.
#[derive(Clone, Copy, Debug, PartialEq, Eq, Structural)]
pub struct IntegerParameters {
    pub block_parameters: BlockParameters,
    pub num_block: usize,
    pub wopbs_block_parameters: BlockParameters,
}

/// Number of plaintext bits of a type.
pub open spec fn type_bits(t: FheTypeId) -> nat {
    match t {
        FheTypeId::Bool => 1,
        FheTypeId::Uint8 => 8,
        FheTypeId::Uint10 => 10,
        FheTypeId::Uint12 => 12,
        FheTypeId::Uint14 => 14,
        FheTypeId::Uint16 => 16,
        FheTypeId::Uint256 => 256,
    }
}

/// Number of blocks a ciphertext of the type is made of.
pub open spec fn type_blocks(t: FheTypeId) -> nat {
    match t {
        FheTypeId::Bool => 1,
        _ => type_bits(t) / 2,
    }
}

/// Number of representable plaintexts of a type: `2^bits`.
pub open spec fn plain_modulus(t: FheTypeId) -> int {
    pow(2, type_bits(t))
}

pub open spec fn default_block_parameters() -> BlockParameters {
    BlockParameters {
        message_modulus: BLOCK_MESSAGE_MODULUS,
        carry_modulus: BLOCK_CARRY_MODULUS,
        without_padding: false,
    }
}

pub open spec fn default_wopbs_block_parameters() -> BlockParameters {
    BlockParameters {
        message_modulus: BLOCK_MESSAGE_MODULUS,
        carry_modulus: BLOCK_CARRY_MODULUS,
        without_padding: true,
    }
}

/// The registered configuration of a type.
pub open spec fn registered_parameters(t: FheTypeId) -> IntegerParameters {
    IntegerParameters {
        block_parameters: default_block_parameters(),
        num_block: type_blocks(t) as usize,
        wopbs_block_parameters: default_wopbs_block_parameters(),
    }
}

/// Number of plaintext bits of a type.
pub fn num_bits(t: FheTypeId) -> (r: usize)
    ensures
        r == type_bits(t),
{
    match t {
        FheTypeId::Bool => 1,
        FheTypeId::Uint8 => 8,
        FheTypeId::Uint10 => 10,
        FheTypeId::Uint12 => 12,
        FheTypeId::Uint14 => 14,
        FheTypeId::Uint16 => 16,
        FheTypeId::Uint256 => 256,
    }
}

/// Number of blocks of a type.
pub fn num_blocks(t: FheTypeId) -> (r: usize)
    ensures
        r == type_blocks(t),
{
    match t {
        FheTypeId::Bool => 1,
        _ => num_bits(t) / 2,
    }
}

/// Looks up the configuration registered for a type.
pub fn parameters_of(t: FheTypeId) -> (r: IntegerParameters)
    ensures
        r == registered_parameters(t),
{
    IntegerParameters {
        block_parameters: BlockParameters {
            message_modulus: BLOCK_MESSAGE_MODULUS,
            carry_modulus: BLOCK_CARRY_MODULUS,
            without_padding: false,
        },
        num_block: num_blocks(t),
        wopbs_block_parameters: BlockParameters {
            message_modulus: BLOCK_MESSAGE_MODULUS,
            carry_modulus: BLOCK_CARRY_MODULUS,
            without_padding: true,
        },
    }
}

/// The blocks of every registered type hold exactly its plaintext range:
/// `2^bits == 4^blocks` for every integer type.
pub proof fn lemma_blocks_cover_bits(t: FheTypeId)
    requires
        t != FheTypeId::Bool,
    ensures
        plain_modulus(t) == pow(4, type_blocks(t)),
        type_blocks(t) <= 128,
{
    reveal(pow);
    assert(pow(2, 2) == 4) by {
        assert(pow(2, 0) == 1);
        assert(pow(2, 1) == 2);
    }
    vstd::arithmetic::power::lemma_pow_multiplies(2, 2, type_blocks(t));
}

} // verus!
