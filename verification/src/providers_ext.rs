//! The `x.ai/providers/*` extension methods: provider changes made in the panel are applied to a
//! running session.
use crate::providers::{build_failover_chain, chain_keeps_the_order, chain_of, warnings_of, Config};
use crate::sampler_config::{chain_view, FailoverChain, SamplerConfig};
use crate::string_map::StringMap;
use crate::text::{joined, opt_text, same_text, texts};
use vstd::prelude::*;
use vstd::string::*;

verus! {

/// What an extension request asks for.
#[derive(Debug)]
pub enum ExtAction {
    /// Rebuild the chain of a session from the configuration.
    ReloadProviders { session_id: String },
}

/// Why an extension request is refused.
#[derive(Debug, Clone, Copy)]
pub enum ExtError {
    InvalidParams { data: &'static str },
    MethodNotFound,
}

/// Decides what an extension request asks for. `session_id` is the one it names, if any.
pub fn handle(method: &str, session_id: Option<String>) -> (r: Result<ExtAction, ExtError>)
    ensures
        match r {
            Ok(ExtAction::ReloadProviders { session_id: id }) => {
                &&& method@ == "x.ai/providers/reload"@
                &&& session_id == Some(id)
            },
            Err(ExtError::InvalidParams { data }) => {
                &&& method@ == "x.ai/providers/reload"@
                &&& session_id is None
                &&& data@ == "missing sessionId"@
            },
            Err(ExtError::MethodNotFound) => method@ != "x.ai/providers/reload"@,
        },
{
    if same_text(method, "x.ai/providers/reload") {
        match session_id {
            Some(session_id) => Ok(ExtAction::ReloadProviders { session_id }),
            None => Err(ExtError::InvalidParams { data: "missing sessionId" }),
        }
    } else {
        Err(ExtError::MethodNotFound)
    }
}

/// What a reload tells the user.
#[derive(Debug)]
pub struct ProviderReloadSummary {
    /// How many providers the session's chain now has.
    pub providers: usize,
    /// Providers that were left out, and why.
    pub warnings: Vec<String>,
}

/// Why a reload failed.
#[derive(Debug)]
pub enum ReloadError {
    /// The configuration could not be read.
    Unreadable(String),
    /// The configuration could be read but makes no sense.
    Invalid(String),
    SessionNotFound,
}

impl ReloadError {
    /// The text of an error.
    pub open spec fn text(self) -> Seq<char> {
        match self {
            ReloadError::Unreadable(cause) => cause@,
            ReloadError::Invalid(cause) => "invalid config.toml after edit: "@ + cause@,
            ReloadError::SessionNotFound => "session not found"@,
        }
    }

    /// The text of an error.
    pub fn message(&self) -> (message: String)
        ensures
            message@ == self.text(),
    {
        match self {
            ReloadError::Unreadable(cause) => cause.clone(),
            ReloadError::Invalid(cause) => joined(
                "invalid config.toml after edit: ",
                cause.as_str(),
            ),
            ReloadError::SessionNotFound => "session not found".to_owned(),
        }
    }
}

/// The version that is told to providers: a client that does not say counts as `grok-build`.
pub fn client_version(told: Option<String>) -> (version: String)
    ensures
        version@ == match opt_text(told) {
            Some(v) => v,
            None => "grok-build"@,
        },
{
    match told {
        Some(version) => version,
        None => "grok-build".to_owned(),
    }
}

/// The chain to install on a session, and what the user is told. `loaded` is the configuration as
/// it is now on disk, with what it resolves for each provider. Nothing is installed where the
/// configuration cannot be used or the session is not there; a configuration that cannot be used
/// is told first.
pub fn reload_provider_chain(
    loaded: Result<(Config, StringMap<SamplerConfig>), ReloadError>,
    session_found: bool,
) -> (r: Result<(FailoverChain, ProviderReloadSummary), ReloadError>)
    ensures
        match loaded {
            Err(error) => r == Err::<(FailoverChain, ProviderReloadSummary), ReloadError>(error),
            Ok((cfg, resolved)) => {
                let order = texts(cfg.failover.order@);
                match r {
                    Err(error) => !session_found && error is SessionNotFound,
                    Ok((chain, summary)) => {
                        &&& session_found
                        &&& chain_view(chain@) == chain_of(cfg.config_models@, resolved@, order)
                        &&& summary.providers == chain@.len()
                        &&& texts(summary.warnings@) == warnings_of(
                            cfg.config_models@,
                            resolved@,
                            order,
                        )
                        &&& summary.providers + summary.warnings@.len() == order.len()
                    },
                }
            },
        },
{
    match loaded {
        Err(error) => Err(error),
        Ok((cfg, resolved)) => {
            let (chain, warnings) = build_failover_chain(&cfg, &resolved);
            if !session_found {
                return Err(ReloadError::SessionNotFound);
            }
            let providers: usize = chain.len();
            proof {
                let order = texts(cfg.failover.order@);
                chain_keeps_the_order(cfg.config_models@, resolved@, order);
                assert(chain_view(chain@).len() == chain@.len());
                assert(texts(warnings@).len() == warnings@.len());
            }
            Ok((chain, ProviderReloadSummary { providers, warnings }))
        },
    }
}

/// What a failed reload says: the cause where the configuration could not be read, the cause behind
/// a remark where it made no sense, and that the session is not there.
pub proof fn a_failed_reload_says_why(error: ReloadError)
    ensures
        match error {
            ReloadError::Unreadable(cause) => error.text() == cause@,
            ReloadError::Invalid(cause) => error.text() == "invalid config.toml after edit: "@
                + cause@,
            ReloadError::SessionNotFound => error.text() == "session not found"@,
        },
{
}

} // verus!
