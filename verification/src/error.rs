//! Error kinds of the engine.
//!
//! Every remote round trip can fail; such failures are wrapped verbatim in a
//! `Windows` variant and surfaced immediately, never retried or papered over.
//! The remaining variants are precise, locally-decided conditions.

use vstd::prelude::*;

verus! {

/// A native (transport-level) failure, reported by the device stack as an
/// `HRESULT` status code.  The engine treats it as opaque: it is carried
/// through unchanged so the caller learns exactly which step failed.
#[derive(Debug, Clone, Copy, PartialEq, Eq, Structural)]
pub struct WinError {
    pub hresult: i32,
}

/// Failure of a whole-device operation (session opening, enumeration).
#[derive(Debug, Clone, Copy, PartialEq, Eq, Structural)]
pub enum MtpError {
    /// A native call failed; the status code is carried verbatim.
    Windows(WinError),
    /// A counted native call answered a second time with a different count
    /// than it promised on the first call: the device state shifted
    /// mid-operation.  Not retried; the caller must redo the operation.
    ChangedConditions,
    /// The device handed back text that is not valid UTF-16.
    Utf16Error,
}

/// Failure of a path resolution.
#[derive(Debug, Clone, Copy, PartialEq, Eq, Structural)]
pub enum ItemByPathError {
    /// A native call failed while walking the path.
    Windows(WinError),
    /// A component had no matching child, the walk started with an empty
    /// component list, or a parent was asked of the tree's root.
    NotFound,
    /// The path is not relative: it starts with a separator or a drive
    /// prefix.  The resolver only supports relative traversal.
    AbsolutePath,
}

/// Failure when opening a byte stream to an object's data.
#[derive(Debug, Clone, Copy, PartialEq, Eq, Structural)]
pub enum OpenStreamError {
    /// A native call failed.
    Windows(WinError),
    /// The native call reported success but returned no usable data handle.
    /// Rare and non-retriable.
    UnableToCreate,
}

/// Failure when creating a folder.
#[derive(Debug, Clone, Copy, PartialEq, Eq, Structural)]
pub enum CreateFolderError {
    /// A native call failed.
    Windows(WinError),
    /// The pre-flight duplicate check found an object of that name already
    /// under the parent; the native create call is not issued.
    AlreadyExists,
    /// The requested name is not a plain relative component.
    NonRelativePath,
}

/// Failure when pushing a local file onto the device.
#[derive(Debug, PartialEq, Eq)]
pub enum AddFileError {
    /// A native call failed.
    Windows(WinError),
    /// Reading the local source failed; the message of the local I/O error
    /// is carried through.
    Std(String),
    /// The local source is missing or has no usable file name.
    InvalidLocalFile,
    /// A file of that name already exists under the destination folder.
    AlreadyExists,
    /// The native create call reported success but returned no write handle.
    UnableToCreate,
}

impl Clone for AddFileError {
    /// A clone reports the very same failure.
    fn clone(&self) -> (r: Self)
        ensures
            r == *self,
    {
        match self {
            AddFileError::Windows(w) => AddFileError::Windows(*w),
            AddFileError::Std(msg) => AddFileError::Std(msg.clone()),
            AddFileError::InvalidLocalFile => AddFileError::InvalidLocalFile,
            AddFileError::AlreadyExists => AddFileError::AlreadyExists,
            AddFileError::UnableToCreate => AddFileError::UnableToCreate,
        }
    }
}

} // verus!
