//! The configuration that the proxy is started with, as plain data.

use vstd::prelude::*;

verus! {

/// Everything the proxy is configured with.
#[derive(Debug)]
pub struct Config {
    /// The address to listen on.
    pub bind: String,
    /// Seconds: the limit for dialing a backend, and for draining at shutdown.
    pub timeout: u64,
    /// Whether clients send a proxy-protocol header before the handshake.
    pub receive_ppv2: bool,
    pub manager: ManagerConfig,
    pub servers: Vec<ServerConfig>,
}

/// The management channel.
#[derive(Debug)]
pub struct ManagerConfig {
    pub enable: bool,
    pub host: String,
    pub key: String,
    pub tag: String,
}

/// One virtual host and the backends behind it.
#[derive(Debug)]
pub struct ServerConfig {
    pub hostname: String,
    /// Whether the backends expect a proxy-protocol header.
    pub ppv2: bool,
    /// The backends, each as `address:port`.
    pub backends: Vec<String>,
}

impl ManagerConfig {
    /// True of the management channel that a fresh configuration holds.
    pub open spec fn is_default(&self) -> bool {
        &&& !self.enable
        &&& self.host@ == "m.example.com:9012"@
        &&& self.key@ == "strong_key"@
        &&& self.tag@ == "server1"@
    }
}

impl ServerConfig {
    /// True of the virtual host that a fresh configuration holds.
    pub open spec fn is_default(&self) -> bool {
        &&& self.hostname@ == "mc.example.com"@
        &&& !self.ppv2
        &&& self.backends@.len() == 2
        &&& self.backends@[0]@ == "10.0.0.1:25565"@
        &&& self.backends@[1]@ == "10.0.0.2:25565"@
    }
}

impl Config {
    /// True of a fresh configuration.
    pub open spec fn is_default(&self) -> bool {
        &&& self.bind@ == "0.0.0.0:25565"@
        &&& self.timeout == 10
        &&& !self.receive_ppv2
        &&& self.manager.is_default()
        &&& self.servers@.len() == 1
        &&& self.servers@[0].is_default()
    }
}

impl Default for ManagerConfig {
    fn default() -> (r: Self)
        ensures
            r.is_default(),
    {
        ManagerConfig {
            enable: false,
            host: "m.example.com:9012".to_owned(),
            key: "strong_key".to_owned(),
            tag: "server1".to_owned(),
        }
    }
}

impl Default for ServerConfig {
    fn default() -> (r: Self)
        ensures
            r.is_default(),
    {
        let mut backends: Vec<String> = Vec::new();
        backends.push("10.0.0.1:25565".to_owned());
        backends.push("10.0.0.2:25565".to_owned());
        ServerConfig { hostname: "mc.example.com".to_owned(), ppv2: false, backends }
    }
}

impl Default for Config {
    fn default() -> (r: Self)
        ensures
            r.is_default(),
    {
        let mut servers: Vec<ServerConfig> = Vec::new();
        servers.push(ServerConfig::default());
        Config {
            bind: "0.0.0.0:25565".to_owned(),
            timeout: 10,
            receive_ppv2: false,
            manager: ManagerConfig::default(),
            servers,
        }
    }
}

} // verus!
