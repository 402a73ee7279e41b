//! What can go wrong while a process is captured or restored.
use vstd::prelude::*;

verus! {

/// bincode's own error, carried along unread.
#[verifier::external_type_specification]
#[verifier::external_body]
pub struct ExBincodeErrorKind(bincode::ErrorKind);

/// The failures of this library and of the program around it. A `code` is the
/// result code of the system call that failed.
#[derive(Debug)]
pub enum QuickResumeError {
    /// No running process has this executable name.
    ProcessNotFound(String),
    OpenProcessFailed { pid: u32, code: i32 },
    WinApi { code: i32 },
    /// A read or write failed; the text says how.
    Io(String),
    Serialize(bincode::Error),
    InvalidSnapshotMagic,
    UnsupportedVersion(u32),
    AllocationFailed { address: u64 },
    ReadMemoryFailed { address: u64, code: i32 },
    WriteMemoryFailed { address: u64, code: i32 },
    ThreadContextFailed { tid: u32, code: i32 },
    PeParse(String),
    Other(String),
}

impl QuickResumeError {
    /// A PE parsing error with this text.
    pub open spec fn is_pe_parse(self, text: Seq<char>) -> bool {
        self matches QuickResumeError::PeParse(s) && s@ == text
    }

    /// An error outside the other classes, with this text.
    pub open spec fn is_other(self, text: Seq<char>) -> bool {
        self matches QuickResumeError::Other(s) && s@ == text
    }

    /// The data ended before a fixed-size read was complete.
    pub open spec fn is_unexpected_eof(self) -> bool {
        self matches QuickResumeError::Io(s) && s@ == "failed to fill whole buffer"@
    }
}

/// The error of a read that runs past the end of the data.
pub fn unexpected_eof() -> (e: QuickResumeError)
    ensures
        e.is_unexpected_eof(),
{
    QuickResumeError::Io("failed to fill whole buffer".to_string())
}

} // verus!
