//! The process configuration read once at start: two named server
//! endpoints, each a host and a port, and the URL each one renders to.
//! Reading and parsing the file happen outside the library; loading them
//! fails with two distinct conditions.
use vstd::prelude::*;
use vstd::string::StringExecFns;

use crate::digits::dec_digits_of;
use crate::strings::u128_to_dec_string;

verus! {

/// Why a configuration file could not be loaded.
#[derive(Debug, Clone, Copy, PartialEq, Eq, Structural)]
pub enum Error {
    /// The file could not be read.
    ConfigReadError,
    /// The file's content is not a configuration of the expected shape.
    ConfigParseError,
}

/// One server endpoint: a host name and a port.
#[derive(Debug, PartialEq, Eq)]
pub struct ServerConfig {
    pub host: String,
    pub port: u16,
}

impl Clone for ServerConfig {
    /// Clones the endpoint; the copy has the same host and port.
    fn clone(&self) -> (r: Self)
        ensures
            r.host@ == self.host@,
            r.port == self.port,
    {
        ServerConfig { host: self.host.clone(), port: self.port }
    }
}

/// The URL text of an endpoint under the given scheme.
pub open spec fn url_chars(host: Seq<char>, port: u16, https: bool) -> Seq<char> {
    (if https {
        "https"@
    } else {
        "http"@
    }) + "://"@ + host + ":"@ + dec_digits_of(port as nat)
}

impl ServerConfig {
    /// Renders the endpoint as `<scheme>://<host>:<port>`, choosing
    /// `https` or `http` by the flag.
    pub fn url(&self, https: bool) -> (r: String)
        ensures
            r@ == url_chars(self.host@, self.port, https),
    {
        let mut r: String = if https {
            "https".to_owned()
        } else {
            "http".to_owned()
        };
        r.append("://");
        r.append(self.host.as_str());
        r.append(":");
        let port_str = u128_to_dec_string(self.port as u128);
        r.append(port_str.as_str());
        proof {
            assert(r@ =~= url_chars(self.host@, self.port, https));
        }
        r
    }
}

impl Default for ServerConfig {
    /// The default endpoint: every interface, port 50051.
    fn default() -> (r: Self)
        ensures
            r.host@ == "0.0.0.0"@,
            r.port == 50051,
    {
        ServerConfig { host: "0.0.0.0".to_owned(), port: 50051 }
    }
}

/// The process configuration: the RPC endpoint and the HTTP endpoint.
#[derive(Debug, PartialEq, Eq)]
pub struct Config {
    pub rpc_server: ServerConfig,
    pub http_server: ServerConfig,
}

impl Clone for Config {
    /// Clones the configuration; the copy has the same endpoints.
    fn clone(&self) -> (r: Self)
        ensures
            r.rpc_server.host@ == self.rpc_server.host@,
            r.rpc_server.port == self.rpc_server.port,
            r.http_server.host@ == self.http_server.host@,
            r.http_server.port == self.http_server.port,
    {
        Config { rpc_server: self.rpc_server.clone(), http_server: self.http_server.clone() }
    }
}

impl Default for Config {
    /// The default configuration: both endpoints at their defaults.
    fn default() -> (r: Self)
        ensures
            r.rpc_server.host@ == "0.0.0.0"@,
            r.rpc_server.port == 50051,
            r.http_server.host@ == "0.0.0.0"@,
            r.http_server.port == 50051,
    {
        Config { rpc_server: ServerConfig::default(), http_server: ServerConfig::default() }
    }
}

impl Config {
    /// Assembles a configuration from its two endpoints.
    pub fn new(rpc_server: ServerConfig, http_server: ServerConfig) -> (r: Config)
        ensures
            r.rpc_server.host@ == rpc_server.host@,
            r.rpc_server.port == rpc_server.port,
            r.http_server.host@ == http_server.host@,
            r.http_server.port == http_server.port,
    {
        Config { rpc_server, http_server }
    }
}

} // verus!
