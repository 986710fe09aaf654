use zero_bin::settings::{
    build_paladin_config_from_env, server_addr, ConfigError, EnvVar, PaladinConfig, PaladinRuntime, Serializer,
};

fn value(text: &str) -> EnvVar {
    EnvVar::Value(String::from(text))
}

fn unset() -> EnvVar {
    EnvVar::NotPresent
}

#[test]
fn empty_environment_is_enough() {
    assert_eq!(
        build_paladin_config_from_env(unset(), unset(), unset(), unset()),
        Ok(PaladinConfig {
            serializer: Serializer::Postcard,
            runtime: PaladinRuntime::InMemory,
            num_workers: Some(1),
            amqp_uri: None,
        })
    );
}

#[test]
fn serializers_are_told_apart() {
    let postcard = build_paladin_config_from_env(value("x-POSTCARD-CBOR"), unset(), unset(), unset());
    assert_eq!(postcard.unwrap().serializer, Serializer::Postcard);
    let cbor = build_paladin_config_from_env(value("CBOR"), unset(), unset(), unset());
    assert_eq!(cbor.unwrap().serializer, Serializer::Cbor);
    assert_eq!(
        build_paladin_config_from_env(value("cbor"), unset(), unset(), unset()),
        Err(ConfigError::UnknownSerializer(String::from("cbor")))
    );
    assert_eq!(
        build_paladin_config_from_env(EnvVar::NotUnicode, EnvVar::NotUnicode, unset(), unset()),
        Err(ConfigError::NonUnicodeSerializer)
    );
}

#[test]
fn runtimes_are_told_apart() {
    assert_eq!(
        build_paladin_config_from_env(unset(), value("AMQP or MEMORY"), value("4"), value("amqp://host")),
        Ok(PaladinConfig {
            serializer: Serializer::Postcard,
            runtime: PaladinRuntime::Amqp,
            num_workers: None,
            amqp_uri: Some(String::from("amqp://host")),
        })
    );
    assert_eq!(
        build_paladin_config_from_env(unset(), value("IN_MEMORY"), value("4"), value("amqp://host")),
        Ok(PaladinConfig {
            serializer: Serializer::Postcard,
            runtime: PaladinRuntime::InMemory,
            num_workers: Some(4),
            amqp_uri: None,
        })
    );
    assert_eq!(
        build_paladin_config_from_env(unset(), value("other"), unset(), unset()),
        Err(ConfigError::UnknownRuntime(String::from("other")))
    );
    assert_eq!(
        build_paladin_config_from_env(unset(), EnvVar::NotUnicode, unset(), unset()),
        Err(ConfigError::NonUnicodeRuntime)
    );
}

#[test]
fn number_of_workers_matters_in_memory_only() {
    assert_eq!(
        build_paladin_config_from_env(unset(), unset(), value("many"), unset()),
        Err(ConfigError::InvalidNumWorkers(String::from("many")))
    );
    assert_eq!(
        build_paladin_config_from_env(unset(), unset(), EnvVar::NotUnicode, unset()),
        Err(ConfigError::NonUnicodeNumWorkers)
    );
    let amqp = build_paladin_config_from_env(unset(), value("AMQP"), value("many"), value("u")).unwrap();
    assert_eq!(amqp.num_workers, None);
    let amqp = build_paladin_config_from_env(unset(), value("AMQP"), EnvVar::NotUnicode, value("u")).unwrap();
    assert_eq!(amqp.num_workers, None);
}

#[test]
fn amqp_needs_a_uri() {
    assert_eq!(
        build_paladin_config_from_env(unset(), value("AMQP"), unset(), unset()),
        Err(ConfigError::MissingAmqpUri)
    );
    assert_eq!(
        build_paladin_config_from_env(unset(), value("AMQP"), unset(), EnvVar::NotUnicode),
        Err(ConfigError::NonUnicodeAmqpUri)
    );
    let memory = build_paladin_config_from_env(unset(), value("MEMORY"), unset(), EnvVar::NotUnicode).unwrap();
    assert_eq!(memory.amqp_uri, None);
}

#[test]
fn prover_state_is_needed_in_memory_only() {
    let memory = build_paladin_config_from_env(unset(), unset(), unset(), unset()).unwrap();
    assert!(memory.needs_prover_state());
    let amqp = build_paladin_config_from_env(unset(), value("AMQP"), unset(), value("u")).unwrap();
    assert!(!amqp.needs_prover_state());
}

#[test]
fn server_address_has_a_default() {
    assert_eq!(server_addr(unset()), Some(String::from("0.0.0.0:8080")));
    assert_eq!(server_addr(value("127.0.0.1:1")), Some(String::from("127.0.0.1:1")));
    assert_eq!(server_addr(EnvVar::NotUnicode), None);
}
