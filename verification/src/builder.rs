//! One-time session setup: configuration of a client, and the
//! classification of a failed attempt to open the channel.

use vstd::prelude::*;
use vstd::string::StringExecFns;

use crate::client::Client;
use crate::connection::{Channel, Connection, IoError, IoErrorKind};

verus! {

/// The operating-system code the host platform reports when the
/// endpoint exists but all its channel instances are taken.
pub const ENDPOINT_BUSY_CODE: i32 = 231;

/// Why a session could not be opened. The three cases ask for three
/// different reactions: start the host application, try again later, or
/// give up.
#[derive(Debug, Clone, Copy, PartialEq, Eq)]
pub enum ConnectError {
    /// The endpoint does not exist: the host application is not running.
    NotFound { source: IoError },
    /// The endpoint exists but is not accepting another session.
    Busy,
    /// Any other channel failure.
    Other(IoError),
}

/// The one-line report each connection failure prints as.
pub open spec fn spec_connect_error_message(e: ConnectError) -> Seq<u8> {
    match e {
        ConnectError::NotFound { .. } => crate::ascii::bytes_of(
            "Could not connect to soundpad. Is it running?"@,
        ),
        ConnectError::Busy => crate::ascii::bytes_of("Soundpad is not accepting connections"@),
        ConnectError::Other(_) => crate::ascii::bytes_of("Could not open the channel"@),
    }
}

impl ConnectError {
    /// The failure as a line of text.
    pub fn message(&self) -> (r: Vec<u8>)
        ensures
            r@ == spec_connect_error_message(*self),
    {
        match self {
            ConnectError::NotFound { .. } => {
                let lit = "Could not connect to soundpad. Is it running?";
                proof {
                    reveal_strlit("Could not connect to soundpad. Is it running?");
                    assert(lit.is_ascii());
                }
                crate::ascii::ascii_bytes(lit)
            },
            ConnectError::Busy => {
                let lit = "Soundpad is not accepting connections";
                proof {
                    reveal_strlit("Soundpad is not accepting connections");
                    assert(lit.is_ascii());
                }
                crate::ascii::ascii_bytes(lit)
            },
            ConnectError::Other(_) => {
                let lit = "Could not open the channel";
                proof {
                    reveal_strlit("Could not open the channel");
                    assert(lit.is_ascii());
                }
                crate::ascii::ascii_bytes(lit)
            },
        }
    }
}

/// The error class an open failure falls into: a busy endpoint is
/// reported as such whether the platform says so by its special code or
/// by refusing the connection; an absent endpoint keeps its cause.
pub open spec fn spec_classify_connect_error(e: IoError) -> ConnectError {
    if e.raw_os_error == Some(ENDPOINT_BUSY_CODE) || e.kind == IoErrorKind::ConnectionRefused {
        ConnectError::Busy
    } else if e.kind == IoErrorKind::NotFound {
        ConnectError::NotFound { source: e }
    } else {
        ConnectError::Other(e)
    }
}

/// Classify a failed attempt to open the channel.
pub fn classify_connect_error(e: IoError) -> (r: ConnectError)
    ensures
        r == spec_classify_connect_error(e),
{
    let busy_code = match e.raw_os_error {
        Some(c) => c == ENDPOINT_BUSY_CODE,
        None => false,
    };
    let refused = match e.kind {
        IoErrorKind::ConnectionRefused => true,
        _ => false,
    };
    if busy_code || refused {
        ConnectError::Busy
    } else {
        match e.kind {
            IoErrorKind::NotFound => ConnectError::NotFound { source: e },
            _ => ConnectError::Other(e),
        }
    }
}

/// An established session: the caller-facing handle, and the connection
/// the command actor owns.
pub struct Session {
    pub client: Client,
    pub connection: Connection,
}

/// Configuration for a session: the endpoint name, the bound of the
/// command queue, and the debounce added after each playback.
#[derive(Debug, Clone)]
pub struct ClientBuilder {
    pub debounce: u64,
    pub pipe_name: String,
    pub max_queue_len: usize,
}

/// The default endpoint name the host application listens on.
pub open spec fn spec_default_pipe_name() -> Seq<char> {
    r"\\.\pipe\sp_remote_control"@
}

impl ClientBuilder {
    /// The default configuration: the well-known endpoint, a queue of
    /// eight commands, no debounce.
    pub fn new() -> (b: ClientBuilder)
        ensures
            b.debounce == 0,
            b.pipe_name@ == spec_default_pipe_name(),
            b.max_queue_len == 8,
    {
        ClientBuilder {
            debounce: 0,
            pipe_name: String::from_str(r"\\.\pipe\sp_remote_control"),
            max_queue_len: 8,
        }
    }

    /// The same configuration with the debounce replaced.
    pub fn debounce(self, duration: u64) -> (b: ClientBuilder)
        ensures
            b.debounce == duration,
            b.pipe_name@ == self.pipe_name@,
            b.max_queue_len == self.max_queue_len,
    {
        ClientBuilder { debounce: duration, ..self }
    }

    /// Establish a session over the outcome of opening the endpoint's
    /// channel: on success the session holds a fresh connection and a
    /// client carrying this configuration's debounce; on failure the
    /// classified error says why, and no session — so no actor — comes
    /// to be.
    pub fn connect(self, endpoint: Result<Channel, IoError>) -> (r: Result<Session, ConnectError>)
        requires
            endpoint matches Ok(c) ==> c.wf(),
        ensures
            endpoint matches Ok(ch) ==> r matches Ok(s) && s.client.debounce == self.debounce
                && s.connection.channel == ch && s.connection.now == 0 && s.connection.deadline
                == 0,
            endpoint matches Err(e) ==> r == Err::<Session, ConnectError>(
                spec_classify_connect_error(e),
            ),
    {
        match endpoint {
            Ok(channel) => Ok(
                Session {
                    client: Client { debounce: self.debounce },
                    connection: Connection::over(channel),
                },
            ),
            Err(e) => Err(classify_connect_error(e)),
        }
    }
}

} // verus!
