//! The configuration data model: a page is a list of links, and the server
//! may be given a port to listen on.
use vstd::prelude::*;

verus! {

/// The port served when the configuration names none.
pub const DEFAULT_PORT: u32 = 8000;

/// One navigation entry. `title` is required; `url` (a fixed target) wins
/// over `port` (this host on another port); with neither, the target is `/`.
#[derive(Debug, PartialEq)]
pub struct Link {
    pub title: String,
    pub port: Option<u32>,
    pub url: Option<String>,
    pub sub_heading: Option<String>,
}

/// The optional `[server]` table of the configuration.
#[derive(Debug, PartialEq, Default)]
pub struct ServerConfig {
    pub port: Option<u32>,
}

/// A full configuration: an optional server table and the links, in file
/// order.
#[derive(Debug, PartialEq)]
pub struct Config {
    pub server: Option<ServerConfig>,
    pub link: Vec<Link>,
}

/// The port a configuration asks for: the `[server]` port when given, else
/// `DEFAULT_PORT`.
pub open spec fn effective_port_spec(c: Config) -> u32 {
    match c.server {
        Some(sc) => match sc.port {
            Some(p) => p,
            None => DEFAULT_PORT,
        },
        None => DEFAULT_PORT,
    }
}

impl Config {
    /// The port to listen on: the configured one, or `DEFAULT_PORT`.
    pub fn effective_port(&self) -> (p: u32)
        ensures
            p == effective_port_spec(*self),
    {
        match &self.server {
            Some(sc) => match sc.port {
                Some(p) => p,
                None => DEFAULT_PORT,
            },
            None => DEFAULT_PORT,
        }
    }
}

} // verus!
