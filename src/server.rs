//! Server settings and the size and timeout checks on incoming data.
use vstd::prelude::*;

verus! {

broadcast use vstd::string::to_string_from_display_ensures_for_str;

/// The largest input, in bytes, that `process_data` takes.
pub const MAX_SIZE: usize = 1024 * 1024;

/// Settings of a server.
#[derive(Debug)]
pub struct ServerConfig {
    pub host: &'static str,
    pub port: u16,
    pub timeout_ms: u64,
    pub max_connections: usize,
}

impl Default for ServerConfig {
    /// Local host, port 8080, a five second timeout, a hundred connections.
    fn default() -> (r: Self)
        ensures
            r.host@ == "127.0.0.1"@,
            r.port == 8080,
            r.timeout_ms == 5000,
            r.max_connections == 100,
    {
        ServerConfig { host: "127.0.0.1", port: 8080, timeout_ms: 5000, max_connections: 100 }
    }
}

/// The message for an input longer than `MAX_SIZE` bytes.
pub open spec fn too_large_message() -> Seq<char> {
    "Input exceeds max size: 1048576"@
}

/// The message for a zero timeout.
pub open spec fn bad_timeout_message() -> Seq<char> {
    "Invalid timeout"@
}

/// Hands `input` back when it is at most `MAX_SIZE` bytes long and the
/// configured timeout is nonzero; the size is checked first.
pub fn process_data<'a>(input: &'a str, config: &ServerConfig) -> (r: Result<&'a str, String>)
    ensures
        input.len() > MAX_SIZE ==> r is Err && r->Err_0@ == too_large_message(),
        input.len() <= MAX_SIZE && config.timeout_ms == 0 ==> r is Err
            && r->Err_0@ == bad_timeout_message(),
        input.len() <= MAX_SIZE && config.timeout_ms != 0 ==> r == Ok::<
            &'a str,
            String,
        >(input),
{
    if input.len() > MAX_SIZE {
        return Err("Input exceeds max size: 1048576".to_string());
    }
    if config.timeout_ms == 0 {
        return Err("Invalid timeout".to_string());
    }
    Ok(input)
}

/// Why a service could not change state.
#[derive(Debug, Clone, Copy, PartialEq, Eq, Structural)]
pub enum ServiceError {
    StartFailed,
    StopFailed,
}

/// Something that can be started and stopped.
pub trait Service {
    fn start(&mut self) -> Result<(), ServiceError>;

    fn stop(&mut self) -> Result<(), ServiceError>;
}

} // verus!
