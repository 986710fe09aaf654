//! Settings that come from environment variables.

use vstd::prelude::*;

use crate::text::{contains, parse_usize};

verus! {

/// The environment key for the address that the server listens on.
pub const SERVER_ADDR_ENVKEY: &'static str = "SERVER_ADDR";

/// The address that the server listens on where none is given.
pub const DFLT_SERVER_ADDR: &'static str = "0.0.0.0:8080";

/// How many workers the server has.
pub const NUM_SERVER_WORKERS: usize = 4;

/// The environment key for the serializer.
pub const PALADIN_SERIALIZER_ENVKEY: &'static str = "PALADIN_SERIALIZER";

/// The environment key for the runtime.
pub const PALADIN_RUNTIME_ENVKEY: &'static str = "PALADIN_RUNTIME";

/// The environment key for the number of workers (only matters when operating in memory).
pub const PALADIN_AMQP_NUM_WORKERS_ENVKEY: &'static str = "PALADIN_AMQP_NUM_WORKERS";

/// The environment key for the AMQP uri (only matters when operating with AMQP).
pub const PALADIN_AMQP_URI_ENVKEY: &'static str = "PALADIN_AMQP_URI";

/// The number of workers when operating in memory, where the environment gives none.
pub const DFLT_NUM_WORKERS: usize = 1;

/// What the environment holds under a key.
#[derive(Debug, PartialEq, Eq)]
pub enum EnvVar {
    Value(String),
    NotPresent,
    /// Something that is not Unicode.
    NotUnicode,
}

/// The serialization formats.
#[derive(Debug, Clone, Copy, PartialEq, Eq, Structural)]
pub enum Serializer {
    Postcard,
    Cbor,
}

/// The runtime environments.
#[derive(Debug, Clone, Copy, PartialEq, Eq, Structural)]
pub enum PaladinRuntime {
    Amqp,
    InMemory,
}

/// How the workload is distributed.
#[derive(Debug, PartialEq, Eq)]
pub struct PaladinConfig {
    pub serializer: Serializer,
    pub runtime: PaladinRuntime,
    pub num_workers: Option<usize>,
    pub amqp_uri: Option<String>,
}

/// Why the environment makes no configuration.
#[derive(Debug, PartialEq, Eq)]
pub enum ConfigError {
    UnknownSerializer(String),
    NonUnicodeSerializer,
    UnknownRuntime(String),
    NonUnicodeRuntime,
    /// The number of workers is no number.
    InvalidNumWorkers(String),
    NonUnicodeNumWorkers,
    /// The AMQP runtime needs an AMQP uri.
    MissingAmqpUri,
    NonUnicodeAmqpUri,
}

/// The serializer that the environment asks for.
pub open spec fn serializer_asked(var: EnvVar) -> Result<Serializer, ConfigError> {
    match var {
        EnvVar::Value(text) => if crate::text::occurs_in("POSTCARD"@, text@) {
            Ok(Serializer::Postcard)
        } else if crate::text::occurs_in("CBOR"@, text@) {
            Ok(Serializer::Cbor)
        } else {
            Err(ConfigError::UnknownSerializer(text))
        },
        EnvVar::NotPresent => Ok(Serializer::Postcard),
        EnvVar::NotUnicode => Err(ConfigError::NonUnicodeSerializer),
    }
}

/// The runtime that the environment asks for.
pub open spec fn runtime_asked(var: EnvVar) -> Result<PaladinRuntime, ConfigError> {
    match var {
        EnvVar::Value(text) => if crate::text::occurs_in("AMQP"@, text@) {
            Ok(PaladinRuntime::Amqp)
        } else if crate::text::occurs_in("MEMORY"@, text@) {
            Ok(PaladinRuntime::InMemory)
        } else {
            Err(ConfigError::UnknownRuntime(text))
        },
        EnvVar::NotPresent => Ok(PaladinRuntime::InMemory),
        EnvVar::NotUnicode => Err(ConfigError::NonUnicodeRuntime),
    }
}

/// The number of workers that the environment asks for; with AMQP it does not matter.
pub open spec fn num_workers_asked(runtime: PaladinRuntime, var: EnvVar) -> Result<
    Option<usize>,
    ConfigError,
> {
    match (runtime, var) {
        (PaladinRuntime::Amqp, _) => Ok(None),
        (PaladinRuntime::InMemory, EnvVar::Value(text)) => match crate::text::parsed(text@) {
            Some(number) => Ok(Some(number)),
            None => Err(ConfigError::InvalidNumWorkers(text)),
        },
        (PaladinRuntime::InMemory, EnvVar::NotPresent) => Ok(Some(DFLT_NUM_WORKERS)),
        (PaladinRuntime::InMemory, EnvVar::NotUnicode) => Err(ConfigError::NonUnicodeNumWorkers),
    }
}

/// The AMQP uri that the environment asks for; in memory it does not matter.
pub open spec fn amqp_uri_asked(runtime: PaladinRuntime, var: EnvVar) -> Result<
    Option<String>,
    ConfigError,
> {
    match (runtime, var) {
        (PaladinRuntime::InMemory, _) => Ok(None),
        (PaladinRuntime::Amqp, EnvVar::Value(uri)) => Ok(Some(uri)),
        (PaladinRuntime::Amqp, EnvVar::NotPresent) => Err(ConfigError::MissingAmqpUri),
        (PaladinRuntime::Amqp, EnvVar::NotUnicode) => Err(ConfigError::NonUnicodeAmqpUri),
    }
}

/// The configuration that the environment asks for, or the first thing that is wrong with it.
pub open spec fn config_asked(
    serializer: EnvVar,
    runtime: EnvVar,
    num_workers: EnvVar,
    amqp_uri: EnvVar,
) -> Result<PaladinConfig, ConfigError> {
    match (serializer_asked(serializer), runtime_asked(runtime)) {
        (Err(error), _) => Err(error),
        (Ok(_), Err(error)) => Err(error),
        (Ok(serializer), Ok(runtime)) => match (
            num_workers_asked(runtime, num_workers),
            amqp_uri_asked(runtime, amqp_uri),
        ) {
            (Err(error), _) => Err(error),
            (Ok(_), Err(error)) => Err(error),
            (Ok(num_workers), Ok(amqp_uri)) => Ok(
                PaladinConfig { serializer, runtime, num_workers, amqp_uri },
            ),
        },
    }
}

/// `Serializer::default` of paladin: Postcard.
#[verifier::external_body]
fn default_serializer() -> (result: Serializer)
    ensures
        result == Serializer::Postcard,
{
    match paladin::config::Serializer::default() {
        paladin::config::Serializer::Postcard => Serializer::Postcard,
        paladin::config::Serializer::Cbor => Serializer::Cbor,
    }
}

fn read_serializer(var: EnvVar) -> (result: Result<Serializer, ConfigError>)
    ensures
        result == serializer_asked(var),
{
    match var {
        EnvVar::Value(text) => {
            if contains(text.as_str(), "POSTCARD") {
                Ok(Serializer::Postcard)
            } else if contains(text.as_str(), "CBOR") {
                Ok(Serializer::Cbor)
            } else {
                Err(ConfigError::UnknownSerializer(text))
            }
        },
        EnvVar::NotPresent => Ok(default_serializer()),
        EnvVar::NotUnicode => Err(ConfigError::NonUnicodeSerializer),
    }
}

fn read_runtime(var: EnvVar) -> (result: Result<PaladinRuntime, ConfigError>)
    ensures
        result == runtime_asked(var),
{
    match var {
        EnvVar::Value(text) => {
            if contains(text.as_str(), "AMQP") {
                Ok(PaladinRuntime::Amqp)
            } else if contains(text.as_str(), "MEMORY") {
                Ok(PaladinRuntime::InMemory)
            } else {
                Err(ConfigError::UnknownRuntime(text))
            }
        },
        EnvVar::NotPresent => Ok(PaladinRuntime::InMemory),
        EnvVar::NotUnicode => Err(ConfigError::NonUnicodeRuntime),
    }
}

fn read_num_workers(runtime: PaladinRuntime, var: EnvVar) -> (result: Result<
    Option<usize>,
    ConfigError,
>)
    ensures
        result == num_workers_asked(runtime, var),
{
    match (runtime, var) {
        (PaladinRuntime::Amqp, _) => Ok(None),
        (PaladinRuntime::InMemory, EnvVar::Value(text)) => match parse_usize(text.as_str()) {
            Some(number) => Ok(Some(number)),
            None => Err(ConfigError::InvalidNumWorkers(text)),
        },
        (PaladinRuntime::InMemory, EnvVar::NotPresent) => Ok(Some(DFLT_NUM_WORKERS)),
        (PaladinRuntime::InMemory, EnvVar::NotUnicode) => Err(ConfigError::NonUnicodeNumWorkers),
    }
}

fn read_amqp_uri(runtime: PaladinRuntime, var: EnvVar) -> (result: Result<
    Option<String>,
    ConfigError,
>)
    ensures
        result == amqp_uri_asked(runtime, var),
{
    match (runtime, var) {
        (PaladinRuntime::InMemory, _) => Ok(None),
        (PaladinRuntime::Amqp, EnvVar::Value(uri)) => Ok(Some(uri)),
        (PaladinRuntime::Amqp, EnvVar::NotPresent) => Err(ConfigError::MissingAmqpUri),
        (PaladinRuntime::Amqp, EnvVar::NotUnicode) => Err(ConfigError::NonUnicodeAmqpUri),
    }
}

/// The configuration that four environment variables make, or the first thing that is wrong with
/// them: the serializer is looked at first, then the runtime, the number of workers and the uri.
pub fn build_paladin_config_from_env(
    serializer: EnvVar,
    runtime: EnvVar,
    num_workers: EnvVar,
    amqp_uri: EnvVar,
) -> (result: Result<PaladinConfig, ConfigError>)
    ensures
        result == config_asked(serializer, runtime, num_workers, amqp_uri),
{
    let serializer = match read_serializer(serializer) {
        Ok(serializer) => serializer,
        Err(error) => {
            return Err(error);
        },
    };
    let runtime = match read_runtime(runtime) {
        Ok(runtime) => runtime,
        Err(error) => {
            return Err(error);
        },
    };
    let num_workers = match read_num_workers(runtime, num_workers) {
        Ok(num_workers) => num_workers,
        Err(error) => {
            return Err(error);
        },
    };
    let amqp_uri = match read_amqp_uri(runtime, amqp_uri) {
        Ok(amqp_uri) => amqp_uri,
        Err(error) => {
            return Err(error);
        },
    };
    Ok(PaladinConfig { serializer, runtime, num_workers, amqp_uri })
}

impl PaladinConfig {
    /// Whether proofs are made in this very process, so that the prover state has to be initialized
    /// here.
    pub fn needs_prover_state(&self) -> (result: bool)
        ensures
            result == (self.runtime == PaladinRuntime::InMemory),
    {
        match self.runtime {
            PaladinRuntime::InMemory => true,
            PaladinRuntime::Amqp => false,
        }
    }
}

/// The address that the server listens on; nothing where the environment holds no Unicode.
pub fn server_addr(var: EnvVar) -> (result: Option<String>)
    ensures
        match var {
            EnvVar::Value(addr) => result == Some(addr),
            EnvVar::NotPresent => result matches Some(addr) && addr@ == DFLT_SERVER_ADDR@,
            EnvVar::NotUnicode => result is None,
        },
{
    match var {
        EnvVar::Value(addr) => Some(addr),
        EnvVar::NotPresent => Some(DFLT_SERVER_ADDR.to_string()),
        EnvVar::NotUnicode => None,
    }
}

/// A configuration has an AMQP uri exactly if it uses AMQP, and a number of workers exactly if it
/// operates in memory.
pub proof fn law_config_fits_runtime(
    serializer: EnvVar,
    runtime: EnvVar,
    num_workers: EnvVar,
    amqp_uri: EnvVar,
)
    ensures
        config_asked(serializer, runtime, num_workers, amqp_uri) matches Ok(config) ==> {
            &&& config.amqp_uri is Some <==> config.runtime == PaladinRuntime::Amqp
            &&& config.num_workers is Some <==> config.runtime == PaladinRuntime::InMemory
        },
{
}

/// The serializer is the one whose name occurs in the variable, Postcard before Cbor; without the
/// variable it is Postcard, and anything else is no serializer.
pub proof fn law_serializer_is_the_one_named(var: EnvVar)
    ensures
        match var {
            EnvVar::Value(text) => {
                let postcard = crate::text::occurs_in("POSTCARD"@, text@);
                let cbor = crate::text::occurs_in("CBOR"@, text@);
                &&& serializer_asked(var) == Ok::<Serializer, ConfigError>(Serializer::Postcard)
                    <==> postcard
                &&& serializer_asked(var) == Ok::<Serializer, ConfigError>(Serializer::Cbor)
                    <==> !postcard && cbor
                &&& !postcard && !cbor ==> serializer_asked(var) == Err::<Serializer, ConfigError>(
                    ConfigError::UnknownSerializer(text),
                )
            },
            EnvVar::NotPresent => serializer_asked(var) == Ok::<Serializer, ConfigError>(
                Serializer::Postcard,
            ),
            EnvVar::NotUnicode => serializer_asked(var) == Err::<Serializer, ConfigError>(
                ConfigError::NonUnicodeSerializer,
            ),
        },
{
}

/// The runtime is the one whose name occurs in the variable, AMQP before memory; without the variable
/// it is memory, and anything else is no runtime.
pub proof fn law_runtime_is_the_one_named(var: EnvVar)
    ensures
        match var {
            EnvVar::Value(text) => {
                let amqp = crate::text::occurs_in("AMQP"@, text@);
                let memory = crate::text::occurs_in("MEMORY"@, text@);
                &&& runtime_asked(var) == Ok::<PaladinRuntime, ConfigError>(PaladinRuntime::Amqp)
                    <==> amqp
                &&& runtime_asked(var) == Ok::<PaladinRuntime, ConfigError>(
                    PaladinRuntime::InMemory,
                ) <==> !amqp && memory
                &&& !amqp && !memory ==> runtime_asked(var) == Err::<PaladinRuntime, ConfigError>(
                    ConfigError::UnknownRuntime(text),
                )
            },
            EnvVar::NotPresent => runtime_asked(var) == Ok::<PaladinRuntime, ConfigError>(
                PaladinRuntime::InMemory,
            ),
            EnvVar::NotUnicode => runtime_asked(var) == Err::<PaladinRuntime, ConfigError>(
                ConfigError::NonUnicodeRuntime,
            ),
        },
{
}

/// In memory the number of workers is the number that the variable reads as, or 1 without the
/// variable, and no uri is needed; with AMQP the uri is the one of the variable, which has to be
/// there, and the number of workers does not matter.
pub proof fn law_workers_in_memory_and_uri_with_amqp(var: EnvVar)
    ensures
        ({
            let workers = num_workers_asked(PaladinRuntime::InMemory, var);
            match var {
                EnvVar::Value(text) => match crate::text::parsed(text@) {
                    Some(n) => workers == Ok::<Option<usize>, ConfigError>(Some(n)),
                    None => workers == Err::<Option<usize>, ConfigError>(
                        ConfigError::InvalidNumWorkers(text),
                    ),
                },
                EnvVar::NotPresent => workers == Ok::<Option<usize>, ConfigError>(Some(1usize)),
                EnvVar::NotUnicode => workers == Err::<Option<usize>, ConfigError>(
                    ConfigError::NonUnicodeNumWorkers,
                ),
            }
        }),
        ({
            let uri = amqp_uri_asked(PaladinRuntime::Amqp, var);
            match var {
                EnvVar::Value(text) => uri == Ok::<Option<String>, ConfigError>(Some(text)),
                EnvVar::NotPresent => uri == Err::<Option<String>, ConfigError>(
                    ConfigError::MissingAmqpUri,
                ),
                EnvVar::NotUnicode => uri == Err::<Option<String>, ConfigError>(
                    ConfigError::NonUnicodeAmqpUri,
                ),
            }
        }),
        num_workers_asked(PaladinRuntime::Amqp, var) == Ok::<Option<usize>, ConfigError>(None),
        amqp_uri_asked(PaladinRuntime::InMemory, var) == Ok::<Option<String>, ConfigError>(None),
{
}

/// A configuration holds what each variable asks for; where one of them asks for nothing that can be
/// had, the error is the one of the first such variable: serializer, runtime, workers, uri.
pub proof fn law_config_holds_what_each_variable_asks_for(
    serializer: EnvVar,
    runtime: EnvVar,
    num_workers: EnvVar,
    amqp_uri: EnvVar,
)
    ensures
        match config_asked(serializer, runtime, num_workers, amqp_uri) {
            Ok(config) => {
                &&& serializer_asked(serializer) == Ok::<Serializer, ConfigError>(config.serializer)
                &&& runtime_asked(runtime) == Ok::<PaladinRuntime, ConfigError>(config.runtime)
                &&& num_workers_asked(config.runtime, num_workers) == Ok::<
                    Option<usize>,
                    ConfigError,
                >(config.num_workers)
                &&& amqp_uri_asked(config.runtime, amqp_uri) == Ok::<Option<String>, ConfigError>(
                    config.amqp_uri,
                )
            },
            Err(error) => {
                ||| serializer_asked(serializer) == Err::<Serializer, ConfigError>(error)
                ||| serializer_asked(serializer) is Ok && runtime_asked(runtime) == Err::<
                    PaladinRuntime,
                    ConfigError,
                >(error)
                ||| serializer_asked(serializer) is Ok && (runtime_asked(runtime) matches Ok(r)
                    && num_workers_asked(r, num_workers) == Err::<Option<usize>, ConfigError>(
                    error,
                ))
                ||| serializer_asked(serializer) is Ok && (runtime_asked(runtime) matches Ok(r)
                    && num_workers_asked(r, num_workers) is Ok && amqp_uri_asked(r, amqp_uri)
                    == Err::<Option<String>, ConfigError>(error))
            },
        },
{
}

/// The environment keys, and what stands in where the environment is silent.
pub proof fn law_keys_and_defaults()
    ensures
        SERVER_ADDR_ENVKEY@ == "SERVER_ADDR"@,
        DFLT_SERVER_ADDR@ == "0.0.0.0:8080"@,
        NUM_SERVER_WORKERS == 4,
        PALADIN_SERIALIZER_ENVKEY@ == "PALADIN_SERIALIZER"@,
        PALADIN_RUNTIME_ENVKEY@ == "PALADIN_RUNTIME"@,
        PALADIN_AMQP_NUM_WORKERS_ENVKEY@ == "PALADIN_AMQP_NUM_WORKERS"@,
        PALADIN_AMQP_URI_ENVKEY@ == "PALADIN_AMQP_URI"@,
        DFLT_NUM_WORKERS == 1,
{
}

} // verus!
