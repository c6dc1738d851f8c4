//! Typed homomorphic integers: a parameter registry binding each logical
//! width to its block layout, the key hierarchy derived from a configuration,
//! block-decomposed encrypted integers with their operation set, and the
//! 256-bit plaintext codec.
pub mod digits;
pub mod errors;
pub mod integer;
pub mod keys;
pub mod laws;
pub mod params;
pub mod radix;
pub mod typed;
pub mod u256;
