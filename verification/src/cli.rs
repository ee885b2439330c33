use vstd::prelude::*;

verus! {

/// The launch arguments of the command-line program.
#[derive(Debug)]
pub struct Args {
    /// Print help information.
    pub help: bool,
    /// Print the version.
    pub version: bool,
    /// Serve the built site, for local development.
    pub serve: bool,
    /// Port to use when serving files; 8004 when absent.
    pub port: Option<u16>,
    /// The project directory; the working directory when absent.
    pub path: Option<String>,
}

/// The port served on when none is asked for.
pub fn default_port() -> (r: u16)
    ensures
        r == 8004,
{
    8004
}

} // verus!
