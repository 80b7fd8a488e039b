//! Configuration of the proxy server.

use vstd::prelude::*;
use vstd::string::*;

verus! {

/// Where the SOCKS5 proxy is, and the credentials for it. The credentials
/// count only where both the user name and the password are there.
#[derive(Debug, Clone)]
pub struct ProxyConfig {
    pub server_host: String,
    pub server_port: u16,
    pub username: Option<String>,
    pub password: Option<String>,
}

/// A proxy configuration with its texts as sequences of characters.
pub struct ProxyConfigView {
    pub server_host: Seq<char>,
    pub server_port: u16,
    pub username: Option<Seq<char>>,
    pub password: Option<Seq<char>>,
}

impl View for ProxyConfig {
    type V = ProxyConfigView;

    open spec fn view(&self) -> ProxyConfigView {
        ProxyConfigView {
            server_host: self.server_host@,
            server_port: self.server_port,
            username: match self.username {
                Some(u) => Some(u@),
                None => None,
            },
            password: match self.password {
                Some(p) => Some(p@),
                None => None,
            },
        }
    }
}

impl ProxyConfigView {
    /// The user name and the password, where both are there.
    pub open spec fn credentials(self) -> Option<(Seq<char>, Seq<char>)> {
        match (self.username, self.password) {
            (Some(u), Some(p)) => Some((u, p)),
            _ => None,
        }
    }
}

impl ProxyConfig {
    /// A configuration without credentials.
    pub fn new(host: &str, port: u16) -> (config: ProxyConfig)
        ensures
            config@ == (ProxyConfigView {
                server_host: host@,
                server_port: port,
                username: None,
                password: None,
            }),
    {
        ProxyConfig {
            server_host: String::from_str(host),
            server_port: port,
            username: None,
            password: None,
        }
    }

    /// The same configuration with the given credentials.
    pub fn with_auth(self, username: &str, password: &str) -> (config: ProxyConfig)
        ensures
            config@ == (ProxyConfigView {
                username: Some(username@),
                password: Some(password@),
                ..self@
            }),
    {
        let mut config = self;
        config.username = Some(String::from_str(username));
        config.password = Some(String::from_str(password));
        config
    }
}

impl Default for ProxyConfig {
    /// The proxy at `127.0.0.1`, port 1080, without credentials.
    fn default() -> (config: ProxyConfig)
        ensures
            config@ == (ProxyConfigView {
                server_host: "127.0.0.1"@,
                server_port: 1080,
                username: None,
                password: None,
            }),
    {
        ProxyConfig::new("127.0.0.1", 1080)
    }
}

} // verus!
