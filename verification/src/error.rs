use vstd::prelude::*;

verus! {

/// The error kinds that the manifest operations surface. Every failure is
/// terminal for the operation that raised it; nothing is retried here.
#[derive(Debug)]
pub enum Error {
    /// A file cannot be opened or located, or a manifest entry is malformed.
    FileError(String),
    /// Acquiring or releasing the advisory file lock failed.
    LockError(String),
    /// The structural parser rejected the manifest's content.
    ParseError(String),
    /// A read, write or seek on an open handle failed.
    IOError(String),
}

impl Error {
    /// Wraps a foreign error's rendered message as a `FileError`.
    pub fn file_error(msg: String) -> (r: Error)
        ensures
            r matches Error::FileError(m) && m@ == msg@,
    {
        Error::FileError(msg)
    }

    /// The error's descriptive message.
    pub fn message(&self) -> (r: &String)
        ensures
            match self {
                Error::FileError(m) => r@ == m@,
                Error::LockError(m) => r@ == m@,
                Error::ParseError(m) => r@ == m@,
                Error::IOError(m) => r@ == m@,
            },
    {
        match self {
            Error::FileError(m) => m,
            Error::LockError(m) => m,
            Error::ParseError(m) => m,
            Error::IOError(m) => m,
        }
    }
}

} // verus!
