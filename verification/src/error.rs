//! The error taxonomy shared by every part of the orchestrator.

use vstd::prelude::*;

verus! {

/// Everything that can go wrong while planning or constructing voids.
#[derive(Debug, Clone, PartialEq, Eq)]
pub enum Error {
    /// A system call failed; `op` names the call.
    Syscall { op: String, errno: i32 },
    /// Ordinary I/O failed.
    Io(String),
    /// The JSON specification could not be decoded.
    Json(String),
    /// The embedded binary specification could not be decoded.
    Bincode(String),
    /// The target binary could not be read as an object file.
    ElfRead(String),
    /// The packed binary could not be written.
    ElfWrite(String),
    /// A pipe without exactly one reader and one writer, or an end taken twice.
    BadPipe(String),
    /// A socket without exactly one reader and a writer, or an end taken twice.
    BadFileSocket(String),
    /// Neither an external nor an embedded specification was found.
    NoSpecification,
    /// The specification file is not a JSON file.
    BadSpecType,
    /// A trigger argument in an entrypoint that no channel triggers.
    BadTriggerArgument,
}

/// The mathematical value of an [`Error`].
pub enum ErrorView {
    Syscall { op: Seq<char>, errno: int },
    Io(Seq<char>),
    Json(Seq<char>),
    Bincode(Seq<char>),
    ElfRead(Seq<char>),
    ElfWrite(Seq<char>),
    BadPipe(Seq<char>),
    BadFileSocket(Seq<char>),
    NoSpecification,
    BadSpecType,
    BadTriggerArgument,
}

impl View for Error {
    type V = ErrorView;

    open spec fn view(&self) -> ErrorView {
        match *self {
            Error::Syscall { op, errno } => ErrorView::Syscall { op: op@, errno: errno as int },
            Error::Io(m) => ErrorView::Io(m@),
            Error::Json(m) => ErrorView::Json(m@),
            Error::Bincode(m) => ErrorView::Bincode(m@),
            Error::ElfRead(m) => ErrorView::ElfRead(m@),
            Error::ElfWrite(m) => ErrorView::ElfWrite(m@),
            Error::BadPipe(n) => ErrorView::BadPipe(n@),
            Error::BadFileSocket(n) => ErrorView::BadFileSocket(n@),
            Error::NoSpecification => ErrorView::NoSpecification,
            Error::BadSpecType => ErrorView::BadSpecType,
            Error::BadTriggerArgument => ErrorView::BadTriggerArgument,
        }
    }
}

} // verus!
