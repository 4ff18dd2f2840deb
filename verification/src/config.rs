//! The configuration the process is started with: where to listen, where
//! the RCON server lives, and the configured webhooks. It is loaded once
//! at startup by the surrounding program and handed in as plain values;
//! there is no hot reload.

use vstd::prelude::*;

verus! {

/// The HTTP server's own settings: the address to listen on and the hard
/// limit on concurrently serving threads.
pub struct ServerConfig {
    /// The IP address and port to listen on
    pub address: String,
    /// The connection hard limit, i.e. how many threads may serve inbound
    /// connections at once
    pub connection_limit: usize,
}

impl ServerConfig {
    /// The default value for the connection hard limit
    pub fn connection_limit_default() -> (r: usize)
        ensures
            r == 2048,
    {
        2048
    }
}

/// The RCON side of the configuration: the remote address, and the
/// password to authenticate with, where one is configured.
pub struct RconConfig {
    /// The IP address and port of the RCON API
    pub address: String,
    /// The RCON password
    pub password: Option<String>,
}

/// The configured webhooks: each endpoint name paired with the command it
/// triggers. Immutable after load.
pub struct WebhookDatabase {
    /// The predefined webhooks
    pub hooks: Vec<(String, String)>,
}

impl View for WebhookDatabase {
    type V = Seq<(Seq<char>, Seq<char>)>;

    open spec fn view(&self) -> Seq<(Seq<char>, Seq<char>)> {
        Seq::new(self.hooks@.len(), |i: int| (self.hooks@[i].0@, self.hooks@[i].1@))
    }
}

impl WebhookDatabase {
    /// The configured mapping has unique keys: no two entries share a name
    pub open spec fn wf(self) -> bool {
        forall|i: int, j: int|
            0 <= i < j < self@.len() ==> #[trigger] self@[i].0 != #[trigger] self@[j].0
    }
}

/// The whole configuration
pub struct Config {
    /// The HTTP server settings
    pub server: ServerConfig,
    /// The RCON settings
    pub rcon: RconConfig,
    /// The webhook database
    pub webhooks: WebhookDatabase,
}

} // verus!
