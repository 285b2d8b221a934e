//! The `/providers` slash command.
use vstd::prelude::*;

verus! {

/// What the application does next.
#[derive(Debug, Clone, Copy, PartialEq, Eq, Structural)]
pub enum Action {
    OpenProvidersModal,
}

/// What a slash command gives.
#[derive(Debug, Clone, Copy, PartialEq, Eq, Structural)]
pub enum CommandResult {
    Action(Action),
}

/// Opens the providers panel.
#[derive(Debug, Clone, Copy, PartialEq, Eq, Structural)]
pub struct ProvidersCommand;

impl ProvidersCommand {
    pub fn name(&self) -> (r: &'static str)
        ensures
            r@ == "providers"@,
    {
        "providers"
    }

    pub fn description(&self) -> (r: &'static str)
        ensures
            r@ == "Configure AI providers and failover order"@,
    {
        "Configure AI providers and failover order"
    }

    pub fn usage(&self) -> (r: &'static str)
        ensures
            r@ == "/providers"@,
    {
        "/providers"
    }

    /// Opens the panel, whatever the arguments.
    pub fn run(&self, _args: &str) -> (r: CommandResult)
        ensures
            r == CommandResult::Action(Action::OpenProvidersModal),
    {
        CommandResult::Action(Action::OpenProvidersModal)
    }
}

} // verus!
