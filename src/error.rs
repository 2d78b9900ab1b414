use vstd::prelude::*;

verus! {

/// Which phase of establishing a remote shell failed.
#[derive(Debug, Clone, Copy, PartialEq, Eq, Structural)]
pub enum ConnectError {
    Network,
    Handshake,
    Auth,
    ChannelSetup,
}

impl ConnectError {
    /// Whether trying the same endpoint again may succeed: only transport
    /// failures are worth a retry, a refused login is not.
    pub fn is_retryable(&self) -> (r: bool)
        ensures
            r <==> *self == ConnectError::Network,
    {
        match self {
            ConnectError::Network => true,
            _ => false,
        }
    }
}


/// Why the pool could not hand out a connection.
#[derive(Debug, Clone, Copy, PartialEq, Eq, Structural)]
pub enum PoolError {
    PoolFull,
    NoConnectionAvailable,
    ConnectionCreationFailed(ConnectError),
    ConnectionExpired,
}


/// Failures of operations on an established session.
#[derive(Debug, Clone, Copy, PartialEq, Eq, Structural)]
pub enum SessionError {
    NotFound,
    WriteFailed,
    Closed,
    /// A new session asked for an id that is already live.
    DuplicateId,
}

/// The error a client receives in reply to one request.
#[derive(Debug, Clone, Copy, PartialEq, Eq, Structural)]
pub enum ReplyError {
    Connect(ConnectError),
    Pool(PoolError),
    Session(SessionError),
}

/// Failures while establishing a remote shell, as the transport reports them.
#[derive(Debug, Clone, PartialEq, Eq)]
pub enum SSHError {
    ConnectionFailed(String),
    AuthenticationFailed,
    ChannelCreationFailed,
    NetworkTimeout { host: String, port: u16 },
    HandshakeFailed,
    IoError(String),
}

pub open spec fn spec_phase(e: SSHError) -> ConnectError {
    match e {
        SSHError::ConnectionFailed(_) => ConnectError::Network,
        SSHError::NetworkTimeout { .. } => ConnectError::Network,
        SSHError::IoError(_) => ConnectError::Network,
        SSHError::HandshakeFailed => ConnectError::Handshake,
        SSHError::AuthenticationFailed => ConnectError::Auth,
        SSHError::ChannelCreationFailed => ConnectError::ChannelSetup,
    }
}

impl SSHError {
    /// The establishment phase that failed, which decides whether a retry
    /// makes sense.
    pub fn phase(&self) -> (r: ConnectError)
        ensures
            r == spec_phase(*self),
    {
        match self {
            SSHError::ConnectionFailed(_) => ConnectError::Network,
            SSHError::NetworkTimeout { .. } => ConnectError::Network,
            SSHError::IoError(_) => ConnectError::Network,
            SSHError::HandshakeFailed => ConnectError::Handshake,
            SSHError::AuthenticationFailed => ConnectError::Auth,
            SSHError::ChannelCreationFailed => ConnectError::ChannelSetup,
        }
    }
}

/// Failures of the completion collaborator.
#[derive(Debug, Clone, PartialEq, Eq)]
pub enum AIError {
    RequestFailed(String),
    InvalidResponse,
    UnsupportedProvider(String),
}

/// Errors at the gateway's edges, by component.
#[derive(Debug, Clone, PartialEq, Eq)]
pub enum AppError {
    SSHError(String),
    WebSocketError(String),
    AIError(String),
    ConfigError(String),
    InternalError(String),
}

/// Failures of client authentication.
#[derive(Debug, Clone, Copy, PartialEq, Eq, Structural)]
pub enum AuthError {
    InvalidCredentials,
    InvalidToken,
    TokenCreationFailed,
    InvalidSession,
    RateLimited,
    InvalidRequest,
}

/// Resource exhaustion and configuration errors of the tuned runtime.
#[derive(Debug, Clone, PartialEq, Eq)]
pub enum UltraError {
    ConnectionPoolFull,
    MemoryPoolExhausted,
    CacheMiss { key: String },
    NetworkError { message: String },
    ConfigError { message: String },
    PerformanceBottleneck { component: String },
}

} // verus!
