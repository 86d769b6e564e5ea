//! The error type shared by all parts of the transport.

use crate::text::{self, push_decimal};
use vstd::prelude::*;
use vstd::string::{StrSliceExecFns, StringExecFns};

verus! {

/// What kind of input or output failure an [`ObfsError::Io`] is; the kinds are
/// those of `std::io::ErrorKind`.
#[derive(Debug, Clone, Copy, PartialEq, Eq, Structural)]
pub enum IoKind {
    /// Something was not found, such as a host name.
    NotFound,
    /// The operation is not permitted.
    PermissionDenied,
    /// The peer refused the connection.
    ConnectionRefused,
    /// The peer reset the connection.
    ConnectionReset,
    /// The host cannot be reached.
    HostUnreachable,
    /// The network cannot be reached.
    NetworkUnreachable,
    /// The connection was aborted.
    ConnectionAborted,
    /// There is no connection.
    NotConnected,
    /// The address is in use.
    AddrInUse,
    /// The address is not available.
    AddrNotAvailable,
    /// The network is down.
    NetworkDown,
    /// The other end is closed.
    BrokenPipe,
    /// Something exists already.
    AlreadyExists,
    /// The operation would block.
    WouldBlock,
    /// A directory was expected.
    NotADirectory,
    /// No directory was expected.
    IsADirectory,
    /// The directory is not empty.
    DirectoryNotEmpty,
    /// The file system is read-only.
    ReadOnlyFilesystem,
    /// A network file handle is stale.
    StaleNetworkFileHandle,
    /// A parameter is wrong.
    InvalidInput,
    /// The bytes are not valid, for one as a frame.
    InvalidData,
    /// The operation took too long.
    TimedOut,
    /// A write wrote nothing.
    WriteZero,
    /// The storage is full.
    StorageFull,
    /// The file cannot be sought in.
    NotSeekable,
    /// A quota is used up.
    QuotaExceeded,
    /// The file is too large.
    FileTooLarge,
    /// A resource is busy.
    ResourceBusy,
    /// An executable is being run.
    ExecutableFileBusy,
    /// A deadlock was avoided.
    Deadlock,
    /// The operation would cross devices.
    CrossesDevices,
    /// There are too many links.
    TooManyLinks,
    /// The file name is not valid.
    InvalidFilename,
    /// The argument list is too long.
    ArgumentListTooLong,
    /// The operation was interrupted.
    Interrupted,
    /// The operation is not supported.
    Unsupported,
    /// The stream ended too early, for one inside a frame.
    UnexpectedEof,
    /// Memory ran out.
    OutOfMemory,
    /// A protocol rule was broken, or another error that is not the system's.
    Other,
    /// A system error of a kind that has no name yet.
    Uncategorized,
}

/// Everything that can go wrong in the transport.
#[derive(Debug)]
pub enum ObfsError {
    /// The peer closed the connection between two frames.
    Closed,
    /// A frame of the first size exceeds the limit, which is the second.
    FrameTooLarge(usize, usize),
    /// The cryptographic layer failed, with its message.
    Wire(String),
    /// Input or output failed, with its message.
    Io(IoKind, String),
    /// An envelope could not be serialised or parsed.
    Serde(String),
    /// The RPC layer failed, with its message.
    Core(String),
    /// The handshake did not complete.
    HandshakeFailed(String),
}

/// An [`ObfsError`] with its texts as character sequences.
#[verifier::ext_equal]
pub enum ErrorView {
    Closed,
    FrameTooLarge(usize, usize),
    Wire(Seq<char>),
    Io(IoKind, Seq<char>),
    Serde(Seq<char>),
    Core(Seq<char>),
    HandshakeFailed(Seq<char>),
}

impl View for ObfsError {
    type V = ErrorView;

    open spec fn view(&self) -> ErrorView {
        match *self {
            ObfsError::Closed => ErrorView::Closed,
            ObfsError::FrameTooLarge(size, max) => ErrorView::FrameTooLarge(size, max),
            ObfsError::Wire(m) => ErrorView::Wire(m@),
            ObfsError::Io(kind, m) => ErrorView::Io(kind, m@),
            ObfsError::Serde(m) => ErrorView::Serde(m@),
            ObfsError::Core(m) => ErrorView::Core(m@),
            ObfsError::HandshakeFailed(m) => ErrorView::HandshakeFailed(m@),
        }
    }
}

/// The text that describes an error to a user.
pub open spec fn error_text(e: ErrorView) -> Seq<char> {
    match e {
        ErrorView::Closed => "connection closed"@,
        ErrorView::FrameTooLarge(size, max) => "frame too large: "@ + text::decimal(size as nat)
            + " bytes (max "@ + text::decimal(max as nat) + ")"@,
        ErrorView::Wire(m) => "wire error: "@ + m,
        ErrorView::Io(_, m) => "IO error: "@ + m,
        ErrorView::Serde(m) => "serialization error: "@ + m,
        ErrorView::Core(m) => "core error: "@ + m,
        ErrorView::HandshakeFailed(m) => "handshake failed: "@ + m,
    }
}

/// `lead` followed by `rest`.
pub(crate) fn join(lead: &str, rest: &str) -> (out: String)
    ensures
        out@ == lead@ + rest@,
{
    let mut out: String = lead.to_owned();
    out.append(rest);
    out
}

/// A protocol error with the message `msg`.
pub fn io_err(msg: &str) -> (e: ObfsError)
    ensures
        e@ == ErrorView::Io(IoKind::Other, msg@),
{
    ObfsError::Io(IoKind::Other, msg.to_owned())
}

/// A handshake failure with the message `msg`.
pub fn handshake_err(msg: &str) -> (e: ObfsError)
    ensures
        e@ == ErrorView::HandshakeFailed(msg@),
{
    ObfsError::HandshakeFailed(msg.to_owned())
}

impl ObfsError {
    /// The text that describes this error to a user.
    pub fn message(&self) -> (text: String)
        ensures
            text@ == error_text(self@),
    {
        match self {
            ObfsError::Closed => "connection closed".to_owned(),
            ObfsError::FrameTooLarge(size, max) => {
                let mut out: String = "frame too large: ".to_owned();
                push_decimal(&mut out, *size as u64);
                out.append(" bytes (max ");
                push_decimal(&mut out, *max as u64);
                out.append(")");
                out
            },
            ObfsError::Wire(m) => join("wire error: ", m.as_str()),
            ObfsError::Io(_, m) => join("IO error: ", m.as_str()),
            ObfsError::Serde(m) => join("serialization error: ", m.as_str()),
            ObfsError::Core(m) => join("core error: ", m.as_str()),
            ObfsError::HandshakeFailed(m) => join("handshake failed: ", m.as_str()),
        }
    }
}

/// Every error names its kind and keeps the text that it was made with; a frame
/// that is too large is told with its size and with the limit.
pub proof fn law_errors_keep_their_text(e: &ObfsError, message: String)
    requires
        call_ensures(ObfsError::message, (e,), message),
    ensures
        match *e {
            ObfsError::Closed => message@ == "connection closed"@,
            ObfsError::FrameTooLarge(size, max) => message@ == "frame too large: "@ + text::decimal(
                size as nat,
            ) + " bytes (max "@ + text::decimal(max as nat) + ")"@,
            ObfsError::Wire(m) => message@ == "wire error: "@ + m@,
            ObfsError::Io(_, m) => message@ == "IO error: "@ + m@,
            ObfsError::Serde(m) => message@ == "serialization error: "@ + m@,
            ObfsError::Core(m) => message@ == "core error: "@ + m@,
            ObfsError::HandshakeFailed(m) => message@ == "handshake failed: "@ + m@,
        },
{
}

/// Two errors that look the same as values are of one kind and have one text.
pub proof fn law_error_values_are_faithful(a: ObfsError, b: ObfsError)
    requires
        a@ == b@,
    ensures
        match (a, b) {
            (ObfsError::Closed, ObfsError::Closed) => true,
            (ObfsError::FrameTooLarge(n, m), ObfsError::FrameTooLarge(p, q)) => n == p && m == q,
            (ObfsError::Wire(s), ObfsError::Wire(t)) => s@ == t@,
            (ObfsError::Io(k, s), ObfsError::Io(l, t)) => k == l && s@ == t@,
            (ObfsError::Serde(s), ObfsError::Serde(t)) => s@ == t@,
            (ObfsError::Core(s), ObfsError::Core(t)) => s@ == t@,
            (ObfsError::HandshakeFailed(s), ObfsError::HandshakeFailed(t)) => s@ == t@,
            _ => false,
        },
{
}

/// An error that is made with a text has that text.
pub proof fn law_errors_are_made_with_their_text(msg: &str, io: ObfsError, handshake: ObfsError)
    requires
        call_ensures(io_err, (msg,), io),
        call_ensures(handshake_err, (msg,), handshake),
    ensures
        io matches ObfsError::Io(IoKind::Other, m) && m@ == msg@,
        handshake matches ObfsError::HandshakeFailed(m) && m@ == msg@,
{
}

} // verus!
