//! Configurations and the key hierarchy derived from them, and the context
//! that holds the current server key.
use crate::errors::FheError;
use crate::params::{BlockParameters, FheTypeId};
use vstd::prelude::*;

verus! {

/// Accumulates the set of enabled types.
#[derive(Clone, Copy, Debug, PartialEq, Eq, Structural)]
pub struct ConfigBuilder {
    pub bool_enabled: bool,
    pub uint8_enabled: bool,
    pub uint10_enabled: bool,
    pub uint12_enabled: bool,
    pub uint14_enabled: bool,
    pub uint16_enabled: bool,
    pub uint256_enabled: bool,
}

/// The built, immutable configuration.
#[derive(Clone, Copy, Debug, PartialEq, Eq, Structural)]
pub struct Config {
    pub enabled: ConfigBuilder,
}

impl ConfigBuilder {
    /// Whether the builder has enabled type `t`.
    pub open spec fn enables(&self, t: FheTypeId) -> bool {
        match t {
            FheTypeId::Bool => self.bool_enabled,
            FheTypeId::Uint8 => self.uint8_enabled,
            FheTypeId::Uint10 => self.uint10_enabled,
            FheTypeId::Uint12 => self.uint12_enabled,
            FheTypeId::Uint14 => self.uint14_enabled,
            FheTypeId::Uint16 => self.uint16_enabled,
            FheTypeId::Uint256 => self.uint256_enabled,
        }
    }

    /// Whether type `t` is enabled.
    pub fn is_enabled(&self, t: FheTypeId) -> (r: bool)
        ensures
            r == self.enables(t),
    {
        match t {
            FheTypeId::Bool => self.bool_enabled,
            FheTypeId::Uint8 => self.uint8_enabled,
            FheTypeId::Uint10 => self.uint10_enabled,
            FheTypeId::Uint12 => self.uint12_enabled,
            FheTypeId::Uint14 => self.uint14_enabled,
            FheTypeId::Uint16 => self.uint16_enabled,
            FheTypeId::Uint256 => self.uint256_enabled,
        }
    }

    /// Enables type `t` with its registered default parameters.
    pub fn enable_default(&mut self, t: FheTypeId)
        ensures
            forall|u: FheTypeId| #[trigger]
                final(self).enables(u) == (old(self).enables(u) || u == t),
    {
        match t {
            FheTypeId::Bool => self.bool_enabled = true,
            FheTypeId::Uint8 => self.uint8_enabled = true,
            FheTypeId::Uint10 => self.uint10_enabled = true,
            FheTypeId::Uint12 => self.uint12_enabled = true,
            FheTypeId::Uint14 => self.uint14_enabled = true,
            FheTypeId::Uint16 => self.uint16_enabled = true,
            FheTypeId::Uint256 => self.uint256_enabled = true,
        }
    }
}

impl Config {
    pub open spec fn enables(&self, t: FheTypeId) -> bool {
        self.enabled.enables(t)
    }

    /// Fails with `UnsupportedType(t)` unless `t` is enabled.
    pub fn check_enabled(&self, t: FheTypeId) -> (r: Result<(), FheError>)
        ensures
            r is Ok <==> self.enables(t),
            r is Err ==> r == Err::<(), FheError>(FheError::UnsupportedType(t)),
    {
        if self.enabled.is_enabled(t) {
            Ok(())
        } else {
            Err(FheError::UnsupportedType(t))
        }
    }
}

/// A builder with no type enabled.
pub fn config_builder_all_disabled() -> (r: ConfigBuilder)
    ensures
        forall|t: FheTypeId| !#[trigger] r.enables(t),
{
    ConfigBuilder {
        bool_enabled: false,
        uint8_enabled: false,
        uint10_enabled: false,
        uint12_enabled: false,
        uint14_enabled: false,
        uint16_enabled: false,
        uint256_enabled: false,
    }
}

/// An independent copy of a builder.
pub fn config_builder_clone(input: &ConfigBuilder) -> (r: ConfigBuilder)
    ensures
        r == *input,
{
    *input
}

/// Enables the boolean type.
pub fn config_builder_enable_default_bool(builder: &mut ConfigBuilder)
    ensures
        forall|u: FheTypeId| #[trigger]
            final(builder).enables(u) == (old(builder).enables(u) || u == FheTypeId::Bool),
{
    builder.enable_default(FheTypeId::Bool);
}

/// Enables the 8-bit type.
pub fn config_builder_enable_default_uint8(builder: &mut ConfigBuilder)
    ensures
        forall|u: FheTypeId| #[trigger]
            final(builder).enables(u) == (old(builder).enables(u) || u == FheTypeId::Uint8),
{
    builder.enable_default(FheTypeId::Uint8);
}

/// Enables the 256-bit type.
pub fn config_builder_enable_default_uint256(builder: &mut ConfigBuilder)
    ensures
        forall|u: FheTypeId| #[trigger]
            final(builder).enables(u) == (old(builder).enables(u) || u == FheTypeId::Uint256),
{
    builder.enable_default(FheTypeId::Uint256);
}

/// Consumes the builder into a configuration enabling the same types.
pub fn config_builder_build(builder: ConfigBuilder) -> (r: Config)
    ensures
        forall|t: FheTypeId| #[trigger] r.enables(t) == builder.enables(t),
{
    Config { enabled: builder }
}

/// Secret key material for every type its configuration enabled.
#[derive(Debug)]
pub struct ConcreteClientKey {
    pub config: Config,
    /// Identity of the base secret all per-type secrets derive from.
    pub secret_id: u64,
}

/// Public evaluation material derived from a client key.
#[derive(Debug)]
pub struct ConcreteServerKey {
    pub config: Config,
    pub secret_id: u64,
}

/// Public encryption material derived from a client key.
#[derive(Debug)]
pub struct ConcretePublicKey {
    pub config: Config,
    pub secret_id: u64,
}

impl ConcreteServerKey {
    /// Derives the evaluation key of a client key.
    pub fn new(client_key: &ConcreteClientKey) -> (r: ConcreteServerKey)
        ensures
            r.config == client_key.config,
            r.secret_id == client_key.secret_id,
    {
        ConcreteServerKey { config: client_key.config, secret_id: client_key.secret_id }
    }

    /// An explicit copy of the key.
    pub fn duplicate(&self) -> (r: ConcreteServerKey)
        ensures
            r == *self,
    {
        ConcreteServerKey { config: self.config, secret_id: self.secret_id }
    }
}

impl ConcreteClientKey {
    /// An explicit copy of the secret material.
    pub fn duplicate(&self) -> (r: ConcreteClientKey)
        ensures
            r == *self,
    {
        ConcreteClientKey { config: self.config, secret_id: self.secret_id }
    }
}

/// Generates a client key from `config` and the randomness `seed`, and the
/// server key derived from it.
pub fn concrete_generate_keys(config: Config, seed: u64) -> (r: (
    ConcreteClientKey,
    ConcreteServerKey,
))
    ensures
        r.0.config == config,
        r.0.secret_id == seed,
        r.1.config == config,
        r.1.secret_id == seed,
{
    let client_key = ConcreteClientKey { config, secret_id: seed };
    let server_key = ConcreteServerKey::new(&client_key);
    (client_key, server_key)
}

/// Derives the public encryption key of a client key.
pub fn concrete_public_key_new(client_key: &ConcreteClientKey) -> (r: ConcretePublicKey)
    ensures
        r.config == client_key.config,
        r.secret_id == client_key.secret_id,
{
    ConcretePublicKey { config: client_key.config, secret_id: client_key.secret_id }
}

/// Holds the server key that homomorphic operations evaluate with.
#[derive(Debug)]
pub struct ServerKeyContext {
    pub current: Option<ConcreteServerKey>,
}

impl ServerKeyContext {
    /// A context with no server key installed.
    pub fn new() -> (r: ServerKeyContext)
        ensures
            r.current is None,
    {
        ServerKeyContext { current: None }
    }
}

/// The context once `server_key` is installed.
pub open spec fn installed(server_key: ConcreteServerKey) -> ServerKeyContext {
    ServerKeyContext { current: Some(server_key) }
}

/// What removing the current server key of `context` hands back.
pub open spec fn unset_result(context: ServerKeyContext) -> Result<ConcreteServerKey, FheError> {
    match context.current {
        Some(key) => Ok(key),
        None => Err(FheError::MissingContext),
    }
}

/// Installs a copy of `server_key` as the current server key, replacing any
/// other.
pub fn concrete_set_server_key(context: &mut ServerKeyContext, server_key: &ConcreteServerKey)
    ensures
        *final(context) == installed(*server_key),
{
    context.current = Some(server_key.duplicate());
}

/// Removes the current server key and hands it back; fails with
/// `MissingContext` when none is installed.
pub fn concrete_unset_server_key(context: &mut ServerKeyContext) -> (r: Result<
    ConcreteServerKey,
    FheError,
>)
    ensures
        final(context).current is None,
        r == unset_result(*old(context)),
{
    match context.current.take() {
        Some(key) => Ok(key),
        None => Err(FheError::MissingContext),
    }
}

/// Material for bootstrapping without padding, derived for one set of block
/// parameters.
#[derive(Debug)]
pub struct WopbsKey {
    pub secret_id: u64,
    pub parameters: BlockParameters,
}

impl ConcreteServerKey {
    /// Derives the bootstrapping-without-padding key of a client and server
    /// key pair for `wopbs_block_parameters`.
    pub fn new_wopbs_key(
        client_key: &ConcreteClientKey,
        server_key: &ConcreteServerKey,
        wopbs_block_parameters: BlockParameters,
    ) -> (r: Result<WopbsKey, FheError>)
        ensures
            server_key.secret_id == client_key.secret_id ==> r == Ok::<WopbsKey, FheError>(
                WopbsKey { secret_id: client_key.secret_id, parameters: wopbs_block_parameters },
            ),
            server_key.secret_id != client_key.secret_id ==> r == Err::<WopbsKey, FheError>(
                FheError::InvalidArgument,
            ),
    {
        if server_key.secret_id != client_key.secret_id {
            return Err(FheError::InvalidArgument);
        }
        Ok(WopbsKey { secret_id: client_key.secret_id, parameters: wopbs_block_parameters })
    }
}

} // verus!
