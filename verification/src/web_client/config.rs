//! Settings of the web client.
use vstd::prelude::*;
use vstd::string::*;

use crate::storage::paths::join_path;
use crate::storage::paths::path_of;
use crate::text::copy_opt;
use crate::text::opt_text;

verus! {

/// How long messages are kept under way, in seconds.
pub const DEFAULT_TTL_SECONDS: u64 = 3600;

/// How often the relay is asked for messages, in seconds.
pub const SYNC_INTERVAL_SECS: u64 = 30;

/// How far back public messages are asked for, in seconds.
pub const DEFAULT_MESH_WINDOW_SECS: u64 = 7_200;

/// How often each peer is asked for public messages, in seconds.
pub const MESH_QUERY_INTERVAL_SECS: u64 = 600;

/// How many events a WebSocket client may fall behind.
pub const WS_CHANNEL_CAPACITY: usize = 256;

/// How many WebSocket clients there may be.
pub const MAX_WS_CONNECTIONS: usize = 8;

/// Attachments below this size travel inside the message; others go to the relay in chunks.
pub const INLINE_THRESHOLD: u64 = 262_144;

/// The size of a chunk before it is sealed.
pub const CHUNK_SIZE: usize = 262_144;

/// The largest attachment that is accepted.
pub const MAX_ATTACHMENT_SIZE: u64 = 52_428_800;

/// What was given on the command line.
#[derive(Debug)]
pub struct Cli {
    pub bind: Option<String>,
    pub data_dir: Option<String>,
    pub relay_url: Option<String>,
    pub identity: Option<String>,
}

/// What the environment says.
pub struct Environment {
    pub tenet_home: Option<String>,
    pub home: Option<String>,
    pub bind: Option<String>,
    pub relay_url: Option<String>,
    pub identity: Option<String>,
}

/// Settings of the web client.
#[derive(Debug)]
pub struct Config {
    pub bind_addr: String,
    pub data_dir: String,
    pub relay_url: Option<String>,
    pub identity: Option<String>,
}

/// The first of two that is there.
pub open spec fn first_of(a: Option<String>, b: Option<String>) -> Option<Seq<char>> {
    match a {
        Some(x) => Some(x@),
        None => opt_text(b),
    }
}

fn either(a: &Option<String>, b: &Option<String>) -> (r: Option<String>)
    ensures
        opt_text(r) == first_of(*a, *b),
{
    match a {
        Some(x) => Some(x.clone()),
        None => copy_opt(b),
    }
}

/// Where data is kept by default: in `.tenet` in the home directory, or in the current one where
/// no home is known.
pub open spec fn default_data_dir(home: Option<String>) -> Seq<char> {
    match home {
        Some(h) => path_of(h@, ".tenet"@),
        None => ".tenet"@,
    }
}

impl Config {
    /// Settings from the command line, or else from the environment, or else the default ones.
    pub fn from_cli_and_env(cli: &Cli, env: &Environment) -> (r: Self)
        ensures
            r.bind_addr@ == (match first_of(cli.bind, env.bind) {
                Some(b) => b,
                None => "127.0.0.1:3000"@,
            }),
            r.data_dir@ == (match first_of(cli.data_dir, env.tenet_home) {
                Some(d) => d,
                None => default_data_dir(env.home),
            }),
            opt_text(r.relay_url) == first_of(cli.relay_url, env.relay_url),
            opt_text(r.identity) == first_of(cli.identity, env.identity),
    {
        let data_dir = match either(&cli.data_dir, &env.tenet_home) {
            Some(d) => d,
            None => match &env.home {
                Some(h) => join_path(h.as_str(), ".tenet"),
                None => ".tenet".to_owned(),
            },
        };
        let bind_addr = match either(&cli.bind, &env.bind) {
            Some(b) => b,
            None => "127.0.0.1:3000".to_owned(),
        };
        Config {
            bind_addr,
            data_dir,
            relay_url: either(&cli.relay_url, &env.relay_url),
            identity: either(&cli.identity, &env.identity),
        }
    }
}

/// The relay that is used: the one that is configured, or else the one that was used before.
pub fn effective_relay(configured: &Option<String>, stored: &Option<String>) -> (r: Option<String>)
    ensures
        opt_text(r) == first_of(*configured, *stored),
{
    either(configured, stored)
}

} // verus!
