//! What the user chooses on the command line.

use vstd::prelude::*;

verus! {

#[derive(Debug)]
pub struct Opts {
    /// Memcached host to connect
    pub host: String,
    /// Memcached port to connect
    pub port: u16,
    /// Connect timeout in seconds
    pub timeout: u8,
    /// Pretty prints time and byte size
    pub short: bool,
}

} // verus!
