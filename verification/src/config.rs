use vstd::prelude::*;

verus! {

/// The settings of a server. They are loaded once, before serving, and never change.
pub struct Config {
    /// The directory below which files are served.
    pub root_directory: String,
    /// Whether connections may be kept open for further requests.
    pub keep_alive: bool,
    /// The seconds that a request may take to arrive.
    pub timeout_seconds: u64,
    /// The number of connections at which further ones are refused.
    pub max_clients: usize,
    /// The IPv4 address to listen on, in dotted form.
    pub bind_address: String,
    /// The port to listen on.
    pub port: u16,
}

} // verus!
