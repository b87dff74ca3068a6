//! How the service is started: its address and scheme.
use vstd::prelude::*;

verus! {

/// The scheme that the service speaks.
#[derive(Debug, Clone, Copy, PartialEq, Eq, Structural)]
pub enum Protocol {
    Http,
    Https,
}

/// Where and how the service listens.
#[derive(Debug, Clone)]
pub struct CommandArgs {
    pub host: String,
    pub port: u16,
    pub scheme: Protocol,
}

/// A service configured to start with the given arguments.
pub struct Server {
    cfg: CommandArgs,
}

impl Server {
    /// The arguments that the server was made with.
    pub closed spec fn config(&self) -> CommandArgs {
        self.cfg
    }

    pub fn new(cfg: CommandArgs) -> (r: Server)
        ensures
            r.config() == cfg,
    {
        Server { cfg }
    }

    pub fn args(&self) -> (r: &CommandArgs)
        ensures
            *r == self.config(),
    {
        &self.cfg
    }
}

} // verus!
