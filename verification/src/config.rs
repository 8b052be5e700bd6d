//! Engine configuration: the chain node's coordinates and the network the
//! engine serves.  Loading from disk and environment stays with the caller;
//! the engine only reads the values handed to it.
use vstd::prelude::*;

verus! {

/// The chain networks the engine can serve.
#[derive(Debug, Clone, Copy, PartialEq, Eq, Structural)]
pub enum Network {
    Main,
    Regtest,
}

impl Network {
    /// Whether this is the production network.
    pub fn is_main(&self) -> (r: bool)
        ensures
            r == (*self is Main),
    {
        match self {
            Network::Main => true,
            Network::Regtest => false,
        }
    }
}

/// Connection coordinates of the chain node.
pub struct Server {
    pub host: String,
    pub user: String,
    pub password: String,
}

/// Engine configuration.
pub struct Config {
    pub server: Server,
    pub mainnet: bool,
    pub sapling_params_dir: String,
}

impl Config {
    /// The network the configuration selects.
    pub fn network(&self) -> (r: Network)
        ensures
            r == (if self.mainnet {
                Network::Main
            } else {
                Network::Regtest
            }),
    {
        if self.mainnet {
            Network::Main
        } else {
            Network::Regtest
        }
    }
}

} // verus!
