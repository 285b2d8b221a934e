use provider_failover::providers::{Config, ConfigModelOverride, FailoverConfig};
use provider_failover::providers_ext::{
    client_version, handle, reload_provider_chain, ExtAction, ExtError, ReloadError,
};
use provider_failover::sampler_config::SamplerConfig;
use provider_failover::slash_command::{Action, CommandResult, ProvidersCommand};
use provider_failover::string_map::StringMap;

fn loaded() -> (Config, StringMap<SamplerConfig>) {
    let mut config_models = StringMap::new();
    config_models.insert(
        "a".to_string(),
        ConfigModelOverride { base_url: None, api_key: None, model: None, keyless: true },
    );
    let mut resolved = StringMap::new();
    resolved.insert("a".to_string(), SamplerConfig::default());
    let order = vec!["a".to_string(), "ghost".to_string()];
    (Config { failover: FailoverConfig { order }, config_models }, resolved)
}

#[test]
fn the_command_opens_the_panel() {
    let command = ProvidersCommand;
    assert_eq!(command.name(), "providers");
    assert_eq!(command.usage(), "/providers");
    assert_eq!(command.description(), "Configure AI providers and failover order");
    assert_eq!(command.run("whatever"), CommandResult::Action(Action::OpenProvidersModal));
}

#[test]
fn extension_requests_are_routed() {
    match handle("x.ai/providers/reload", Some("s".into())) {
        Ok(ExtAction::ReloadProviders { session_id }) => assert_eq!(session_id, "s"),
        Err(_) => panic!("expected a reload"),
    }
    assert!(matches!(
        handle("x.ai/providers/reload", None),
        Err(ExtError::InvalidParams { data: "missing sessionId" })
    ));
    assert!(matches!(
        handle("x.ai/providers/list", Some("s".into())),
        Err(ExtError::MethodNotFound)
    ));
}

#[test]
fn a_reload_tells_what_it_installed() {
    let (chain, summary) = reload_provider_chain(Ok(loaded()), true).unwrap();
    assert_eq!(chain.len(), 1);
    assert_eq!(summary.providers, 1);
    assert_eq!(
        summary.warnings,
        ["ghost: skipped, no [model.ghost] entry and no built-in match"]
    );
}

#[test]
fn a_reload_that_cannot_be_done_says_why() {
    let message = |r: Result<_, ReloadError>| match r {
        Ok(_) => panic!("expected an error"),
        Err(e) => e.message(),
    };
    assert_eq!(message(reload_provider_chain(Ok(loaded()), false)), "session not found");
    assert_eq!(
        message(reload_provider_chain(Err(ReloadError::Invalid("bad".into())), false)),
        "invalid config.toml after edit: bad"
    );
    assert_eq!(
        message(reload_provider_chain(Err(ReloadError::Unreadable("gone".into())), true)),
        "gone"
    );
}

#[test]
fn the_client_version_has_a_default() {
    assert_eq!(client_version(None), "grok-build");
    assert_eq!(client_version(Some("1.2".into())), "1.2");
}
