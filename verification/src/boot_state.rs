//! The server's boot lifecycle: booting (with its phase), ready, or failed
//! for good. Connection handlers wait on it instead of refusing
//! connections during startup.

use vstd::prelude::*;

verus! {

/// Boot phase during startup.
#[derive(Clone, Copy, Debug, PartialEq, Eq, Structural)]
pub enum BootPhase {
    /// Loading cell binaries
    LoadingCells,
    /// Waiting for cells to become ready
    WaitingCellsReady,
}

/// Kind of a fatal boot failure.
#[derive(Clone, Copy, Debug, PartialEq, Eq, Structural)]
pub enum ErrorKind {
    /// A required cell binary is missing or not executable
    MissingCell,
    /// A cell failed to start or communicate
    CellStartupFailed,
}

/// Boot state of the server.
#[derive(Clone, Debug)]
pub enum BootState {
    /// Booting: cells loading, revision building
    Booting { phase: BootPhase },
    /// Ready to handle requests
    Ready,
    /// Fatal startup error: requests get HTTP 500
    Fatal { error_kind: ErrorKind, message: String },
}

impl BootState {
    /// The initial state: booting, loading cells.
    pub fn booting() -> (r: BootState)
        ensures
            r matches BootState::Booting { phase } && phase == BootPhase::LoadingCells,
    {
        BootState::Booting { phase: BootPhase::LoadingCells }
    }

    /// The ready state.
    pub fn ready() -> (r: BootState)
        ensures
            r is Ready,
    {
        BootState::Ready
    }

    /// The failed state, with its kind and message.
    pub fn fatal(error_kind: ErrorKind, message: String) -> (r: BootState)
        ensures
            r matches BootState::Fatal { error_kind: k, message: m } && k == error_kind && m
                == message,
    {
        BootState::Fatal { error_kind, message }
    }

    /// Whether requests can be served.
    pub fn is_ready(&self) -> (r: bool)
        ensures
            r == self is Ready,
    {
        match self {
            BootState::Ready => true,
            _ => false,
        }
    }
}


/// What a new browser connection does in a boot state.
#[derive(Clone, Copy, Debug, PartialEq, Eq, Structural)]
pub enum ConnectionGate {
    /// Serve it
    Proceed,
    /// Answer with the fatal error response and close it
    Reject,
    /// Hold it open until the state changes
    Wait,
}

/// How a connection is handled in `state`: served once ready, answered
/// with an error after a fatal failure, held while booting.
pub fn connection_gate(state: &BootState) -> (r: ConnectionGate)
    ensures
        r == match state {
            BootState::Ready => ConnectionGate::Proceed,
            BootState::Fatal { .. } => ConnectionGate::Reject,
            BootState::Booting { .. } => ConnectionGate::Wait,
        },
{
    match state {
        BootState::Ready => ConnectionGate::Proceed,
        BootState::Fatal { .. } => ConnectionGate::Reject,
        BootState::Booting { .. } => ConnectionGate::Wait,
    }
}

/// The response written to a connection when the server failed to start
/// (or its HTTP cell never came up). It is sent as the server has always
/// sent it: its `Content-Length` header says 52 while the body is 53
/// bytes long, so a client that trusts the header reads the body without
/// its last byte.
pub fn fatal_error_response() -> (r: &'static str)
    ensures
        r@ == "HTTP/1.1 500 Internal Server Error\r\nContent-Type: text/plain; charset=utf-8\r\nConnection: close\r\nContent-Length: 52\r\n\r\nServer failed to start. Check server logs for details"@,
{
    "HTTP/1.1 500 Internal Server Error\r\nContent-Type: text/plain; charset=utf-8\r\nConnection: close\r\nContent-Length: 52\r\n\r\nServer failed to start. Check server logs for details"
}

} // verus!
