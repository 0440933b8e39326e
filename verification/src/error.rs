//! The error taxonomy of the kernel and the conversions between its layers.
//!
//! Errors are values. An actor reports an [`ActorError`]; the servers of
//! the kernel report a [`KernelError`], which wraps a [`ServerError`] where
//! a server is at fault.

use vstd::prelude::*;
use vstd::std_specs::convert::FromSpecImpl;

verus! {

/// The protocol that a protocol error came from.
#[derive(Debug, Clone, Copy, PartialEq, Eq, Structural)]
pub enum ProtocolKind {
    Http,
    Amqp,
    Opcua,
    Ssh,
    Sql,
}

/// The class of an error, by which the runtime decides how to go on.
#[derive(Debug, Clone, Copy, PartialEq, Eq, Structural)]
pub enum ErrorKind {
    Startup,
    Runtime,
    Shutdown,
    Channel,
    Protocol,
    System,
}

/// What an actor reports.
#[derive(Debug)]
pub enum ActorError {
    StartupError(String),
    RuntimeError(String),
    ShutdownError(String),
    ChannelError(String),
    ProtocolError(ProtocolKind, String),
    SystemError(String),
}

/// The result of an actor's operation.
pub type ActorResult<T> = Result<T, ActorError>;

/// The result of an actor's operation that returns nothing.
pub type ActorResultVoid = Result<(), ActorError>;

/// The text of a closed channel.
pub open spec fn channel_closed() -> Seq<char> {
    "Closed"@
}

/// The text of a full channel.
pub open spec fn channel_full() -> Seq<char> {
    "Full"@
}

impl ActorError {
    /// The class of the error.
    pub open spec fn kind_of(self) -> ErrorKind {
        match self {
            ActorError::StartupError(_) => ErrorKind::Startup,
            ActorError::RuntimeError(_) => ErrorKind::Runtime,
            ActorError::ShutdownError(_) => ErrorKind::Shutdown,
            ActorError::ChannelError(_) => ErrorKind::Channel,
            ActorError::ProtocolError(_, _) => ErrorKind::Protocol,
            ActorError::SystemError(_) => ErrorKind::System,
        }
    }

    /// The message of the error.
    pub open spec fn reason(self) -> Seq<char> {
        match self {
            ActorError::StartupError(m) => m@,
            ActorError::RuntimeError(m) => m@,
            ActorError::ShutdownError(m) => m@,
            ActorError::ChannelError(m) => m@,
            ActorError::ProtocolError(_, m) => m@,
            ActorError::SystemError(m) => m@,
        }
    }

    /// The string that holds the message of the error.
    pub open spec fn text(self) -> String {
        match self {
            ActorError::StartupError(m) => m,
            ActorError::RuntimeError(m) => m,
            ActorError::ShutdownError(m) => m,
            ActorError::ChannelError(m) => m,
            ActorError::ProtocolError(_, m) => m,
            ActorError::SystemError(m) => m,
        }
    }

    /// The error as a spawn reports it: a startup error with the same
    /// message.
    pub open spec fn as_startup(self) -> ActorError {
        ActorError::StartupError(self.text())
    }

    /// The error as the message loop reports it: the actor is up, so a
    /// startup error counts as a runtime error, and every other error
    /// stays as it is.
    pub open spec fn as_running(self) -> ActorError {
        match self {
            ActorError::StartupError(m) => ActorError::RuntimeError(m),
            other => other,
        }
    }

    /// The error as a teardown reports it: a shutdown error with the same
    /// message.
    pub open spec fn as_shutdown(self) -> ActorError {
        ActorError::ShutdownError(self.text())
    }

    /// The class of the error.
    pub fn kind(&self) -> (kind: ErrorKind)
        ensures
            kind == self.kind_of(),
    {
        match self {
            ActorError::StartupError(_) => ErrorKind::Startup,
            ActorError::RuntimeError(_) => ErrorKind::Runtime,
            ActorError::ShutdownError(_) => ErrorKind::Shutdown,
            ActorError::ChannelError(_) => ErrorKind::Channel,
            ActorError::ProtocolError(_, _) => ErrorKind::Protocol,
            ActorError::SystemError(_) => ErrorKind::System,
        }
    }

    /// The message of the error.
    pub fn message(&self) -> (message: &String)
        ensures
            message@ == self.reason(),
    {
        match self {
            ActorError::StartupError(m) => m,
            ActorError::RuntimeError(m) => m,
            ActorError::ShutdownError(m) => m,
            ActorError::ChannelError(m) => m,
            ActorError::ProtocolError(_, m) => m,
            ActorError::SystemError(m) => m,
        }
    }

    /// The message of the error, taken out of it.
    pub fn into_message(self) -> (message: String)
        ensures
            message == self.text(),
            message@ == self.reason(),
    {
        match self {
            ActorError::StartupError(m) => m,
            ActorError::RuntimeError(m) => m,
            ActorError::ShutdownError(m) => m,
            ActorError::ChannelError(m) => m,
            ActorError::ProtocolError(_, m) => m,
            ActorError::SystemError(m) => m,
        }
    }

    /// A copy of the error.
    pub fn duplicate(&self) -> (copy: Self)
        ensures
            copy.kind_of() == self.kind_of(),
            copy.reason() == self.reason(),
            copy == *self,
    {
        match self {
            ActorError::StartupError(m) => ActorError::StartupError(m.clone()),
            ActorError::RuntimeError(m) => ActorError::RuntimeError(m.clone()),
            ActorError::ShutdownError(m) => ActorError::ShutdownError(m.clone()),
            ActorError::ChannelError(m) => ActorError::ChannelError(m.clone()),
            ActorError::ProtocolError(k, m) => ActorError::ProtocolError(*k, m.clone()),
            ActorError::SystemError(m) => ActorError::SystemError(m.clone()),
        }
    }

    /// The error of a send to an actor that takes no more messages.
    pub fn closed() -> (error: Self)
        ensures
            error.kind_of() == ErrorKind::Channel,
            error.reason() == channel_closed(),
    {
        ActorError::ChannelError(String::from_str("Closed"))
    }

    /// The error of a send to a mailbox without room.
    pub fn full() -> (error: Self)
        ensures
            error.kind_of() == ErrorKind::Channel,
            error.reason() == channel_full(),
    {
        ActorError::ChannelError(String::from_str("Full"))
    }

    /// The same error as the runtime sees it once the actor is up: a
    /// startup error counts as a runtime error, every other error stays.
    pub fn while_running(self) -> (error: Self)
        ensures
            error == self.as_running(),
            error.reason() == self.reason(),
            error.kind_of() == if self.kind_of() == ErrorKind::Startup {
                ErrorKind::Runtime
            } else {
                self.kind_of()
            },
            self.kind_of() != ErrorKind::Startup ==> error == self,
    {
        match self {
            ActorError::StartupError(m) => ActorError::RuntimeError(m),
            other => other,
        }
    }
}

impl From<String> for ActorError {
    fn from(s: String) -> (error: Self) {
        ActorError::RuntimeError(s)
    }
}

impl FromSpecImpl<String> for ActorError {
    open spec fn obeys_from_spec() -> bool {
        true
    }

    open spec fn from_spec(s: String) -> Self {
        ActorError::RuntimeError(s)
    }
}

/// What a server of the kernel reports. The second field of a start or
/// stop error is the id of the server.
#[derive(Debug)]
pub enum ServerError {
    StartError(String, String),
    RuntimeError(String),
    StopError(String, String),
    ClientError(String),
}

/// What the kernel reports.
#[derive(Debug)]
pub enum KernelError {
    ServerError(ServerError),
    ChannelError(String),
    SystemError(String),
}

/// The result of a kernel operation.
pub type Res<T> = Result<T, KernelError>;

/// The result of a kernel operation that returns nothing.
pub type VoidRes = Result<(), KernelError>;

impl KernelError {
    /// A client error with the message `v`.
    pub fn client(v: &str) -> (error: Self)
        ensures
            error matches KernelError::ServerError(ServerError::ClientError(m)) && m@ == v@,
    {
        KernelError::ServerError(ServerError::ClientError(String::from_str(v)))
    }

    /// A system error with the message `v`.
    pub fn system(v: &str) -> (error: Self)
        ensures
            error matches KernelError::SystemError(m) && m@ == v@,
    {
        KernelError::SystemError(String::from_str(v))
    }

    /// A channel error with the message `v`.
    pub fn channel(v: &str) -> (error: Self)
        ensures
            error matches KernelError::ChannelError(m) && m@ == v@,
    {
        KernelError::ChannelError(String::from_str(v))
    }

    /// The class of the error.
    pub open spec fn kind_of(self) -> ErrorKind {
        match self {
            KernelError::ServerError(ServerError::StartError(_, _)) => ErrorKind::Startup,
            KernelError::ServerError(ServerError::RuntimeError(_)) => ErrorKind::Runtime,
            KernelError::ServerError(ServerError::StopError(_, _)) => ErrorKind::Shutdown,
            KernelError::ServerError(ServerError::ClientError(_)) => ErrorKind::Runtime,
            KernelError::ChannelError(_) => ErrorKind::Channel,
            KernelError::SystemError(_) => ErrorKind::System,
        }
    }

    /// The message of the error.
    pub open spec fn reason(self) -> Seq<char> {
        match self {
            KernelError::ServerError(ServerError::StartError(m, _)) => m@,
            KernelError::ServerError(ServerError::RuntimeError(m)) => m@,
            KernelError::ServerError(ServerError::StopError(m, _)) => m@,
            KernelError::ServerError(ServerError::ClientError(m)) => m@,
            KernelError::ChannelError(m) => m@,
            KernelError::SystemError(m) => m@,
        }
    }
}

impl From<ServerError> for KernelError {
    fn from(error: ServerError) -> (wrapped: Self) {
        KernelError::ServerError(error)
    }
}

impl FromSpecImpl<ServerError> for KernelError {
    open spec fn obeys_from_spec() -> bool {
        true
    }

    open spec fn from_spec(error: ServerError) -> Self {
        KernelError::ServerError(error)
    }
}

/// The message of an error that came without one.
pub open spec fn empty_error() -> Seq<char> {
    "Empty error"@
}

impl From<()> for KernelError {
    fn from(nothing: ()) -> (error: Self)
        ensures
            error matches KernelError::ServerError(ServerError::ClientError(m)) && m@
                == empty_error(),
    {
        KernelError::client("Empty error")
    }
}

impl FromSpecImpl<()> for KernelError {
    open spec fn obeys_from_spec() -> bool {
        false
    }

    open spec fn from_spec(nothing: ()) -> Self {
        arbitrary()
    }
}

impl FromSpecImpl<KernelError> for ActorError {
    open spec fn obeys_from_spec() -> bool {
        true
    }

    open spec fn from_spec(error: KernelError) -> Self {
        match error {
            KernelError::ServerError(ServerError::StartError(m, _)) => ActorError::StartupError(m),
            KernelError::ServerError(ServerError::RuntimeError(m)) => ActorError::RuntimeError(m),
            KernelError::ServerError(ServerError::StopError(m, _)) => ActorError::ShutdownError(m),
            KernelError::ServerError(ServerError::ClientError(m)) => ActorError::RuntimeError(m),
            KernelError::ChannelError(m) => ActorError::ChannelError(m),
            KernelError::SystemError(m) => ActorError::SystemError(m),
        }
    }
}

impl From<KernelError> for ActorError {
    /// A server's error keeps its class, with a client error counted as a
    /// runtime error; channel and system errors stay what they are.
    fn from(error: KernelError) -> (converted: Self)
        ensures
            converted.kind_of() == error.kind_of(),
            converted.reason() == error.reason(),
    {
        match error {
            KernelError::ServerError(ServerError::StartError(m, _)) => ActorError::StartupError(m),
            KernelError::ServerError(ServerError::RuntimeError(m)) => ActorError::RuntimeError(m),
            KernelError::ServerError(ServerError::StopError(m, _)) => ActorError::ShutdownError(m),
            KernelError::ServerError(ServerError::ClientError(m)) => ActorError::RuntimeError(m),
            KernelError::ChannelError(m) => ActorError::ChannelError(m),
            KernelError::SystemError(m) => ActorError::SystemError(m),
        }
    }
}

/// What the SSH endpoint reports: a message.
#[derive(Debug)]
pub struct SshError(pub String);

/// The result of an operation of the SSH endpoint.
pub type SshResult<T> = Result<T, SshError>;

/// The result of an operation of the SSH endpoint that returns nothing.
pub type SshResultVoid = Result<(), SshError>;

impl SshError {
    /// The message.
    pub fn message(&self) -> (message: &String)
        ensures
            *message == self.0,
    {
        &self.0
    }
}

impl From<SshError> for ActorError {
    fn from(value: SshError) -> (error: Self) {
        ActorError::RuntimeError(value.0)
    }
}

impl FromSpecImpl<SshError> for ActorError {
    open spec fn obeys_from_spec() -> bool {
        true
    }

    open spec fn from_spec(value: SshError) -> Self {
        ActorError::RuntimeError(value.0)
    }
}

/// What the SQL endpoint reports: the message of the database's error.
#[derive(Debug)]
pub struct SqlError(pub String);

/// The result of an operation of the SQL endpoint.
pub type SqlResult<T> = Result<T, SqlError>;

impl From<SqlError> for ActorError {
    fn from(value: SqlError) -> (error: Self) {
        ActorError::RuntimeError(value.0)
    }
}

impl FromSpecImpl<SqlError> for ActorError {
    open spec fn obeys_from_spec() -> bool {
        true
    }

    open spec fn from_spec(value: SqlError) -> Self {
        ActorError::RuntimeError(value.0)
    }
}

} // verus!
