use vstd::prelude::*;

verus! {

/// The ways a clipboard operation can fail.
#[derive(Clone, Copy, Debug, PartialEq, Eq, Structural)]
pub enum ErrorKind {
    /// The store map lock was poisoned by an earlier panic.
    Lock,
    /// The X display could not be opened.
    XConnection,
    /// The owner refused to convert the selection to the requested target.
    BadTarget,
    /// Claiming the selection did not stick.
    BadOwner,
    /// The load deadline passed before the reply was complete.
    Timeout,
    /// An I/O error of the host.
    Io,
    /// A name held an interior NUL byte.
    Nul,
    /// Bytes were not valid UTF-8.
    Utf8,
    /// The owner loop's receiving end is gone.
    Sender,
}

impl ErrorKind {
    /// A short description of the error.
    pub fn description(&self) -> (r: &'static str)
        ensures
            r@ == (match *self {
                ErrorKind::Lock => "store lock poison"@,
                ErrorKind::XConnection => "X Connection Error"@,
                ErrorKind::BadTarget => "Bad Target"@,
                ErrorKind::BadOwner => "Bad selection owner"@,
                ErrorKind::Timeout => "Load selection timeout"@,
                ErrorKind::Io => "I/O error"@,
                ErrorKind::Nul => "interior NUL byte"@,
                ErrorKind::Utf8 => "invalid UTF-8"@,
                ErrorKind::Sender => "owner loop is gone"@,
            }),
    {
        match self {
            ErrorKind::Lock => "store lock poison",
            ErrorKind::XConnection => "X Connection Error",
            ErrorKind::BadTarget => "Bad Target",
            ErrorKind::BadOwner => "Bad selection owner",
            ErrorKind::Timeout => "Load selection timeout",
            ErrorKind::Io => "I/O error",
            ErrorKind::Nul => "interior NUL byte",
            ErrorKind::Utf8 => "invalid UTF-8",
            ErrorKind::Sender => "owner loop is gone",
        }
    }
}

} // verus!
