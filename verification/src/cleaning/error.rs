//! The failures that a cleaning run records, and how a failed file-system
//! operation is classified.

use vstd::prelude::*;

verus! {

/// The portable kind of a failed file-system operation.
#[derive(Clone, Copy, Debug, PartialEq, Eq, Structural)]
pub enum IoErrorKind {
    NotFound,
    PermissionDenied,
    Other,
}

/// A failed file-system operation, as plain values.
#[derive(Debug)]
pub struct IoFailure {
    pub kind: IoErrorKind,
    /// The code that the Windows API gave for the failure; `None` on other
    /// systems, or where the failure carries no code.
    pub windows_code: Option<i32>,
    /// The system's own words for the failure.
    pub message: String,
}

impl Clone for IoFailure {
    fn clone(&self) -> (copy: Self)
        ensures
            copy == *self,
    {
        IoFailure {
            kind: self.kind,
            windows_code: self.windows_code,
            message: self.message.clone(),
        }
    }
}

/// A failure recorded during a run. It holds the path it is about and, for a
/// general failure, the system's message.
#[derive(Debug)]
pub enum CleaningError {
    DirectoryNotFound(String),
    PermissionDenied(String),
    FileInUse(String),
    IoError(String, String),
    InvalidPath(String),
}

/// A `CleaningError` with its texts as character sequences.
pub enum CleaningErrorView {
    DirectoryNotFound(Seq<char>),
    PermissionDenied(Seq<char>),
    FileInUse(Seq<char>),
    IoError(Seq<char>, Seq<char>),
    InvalidPath(Seq<char>),
}

impl View for CleaningError {
    type V = CleaningErrorView;

    open spec fn view(&self) -> CleaningErrorView {
        match *self {
            CleaningError::DirectoryNotFound(path) => CleaningErrorView::DirectoryNotFound(path@),
            CleaningError::PermissionDenied(path) => CleaningErrorView::PermissionDenied(path@),
            CleaningError::FileInUse(path) => CleaningErrorView::FileInUse(path@),
            CleaningError::IoError(path, message) => CleaningErrorView::IoError(path@, message@),
            CleaningError::InvalidPath(message) => CleaningErrorView::InvalidPath(message@),
        }
    }
}

impl Clone for CleaningError {
    fn clone(&self) -> (copy: Self)
        ensures
            copy == *self,
    {
        match self {
            CleaningError::DirectoryNotFound(path) => CleaningError::DirectoryNotFound(
                path.clone(),
            ),
            CleaningError::PermissionDenied(path) => CleaningError::PermissionDenied(path.clone()),
            CleaningError::FileInUse(path) => CleaningError::FileInUse(path.clone()),
            CleaningError::IoError(path, message) => CleaningError::IoError(
                path.clone(),
                message.clone(),
            ),
            CleaningError::InvalidPath(message) => CleaningError::InvalidPath(message.clone()),
        }
    }
}

/// The text that describes an error to a person.
pub open spec fn error_text(error: CleaningErrorView) -> Seq<char> {
    match error {
        CleaningErrorView::DirectoryNotFound(path) => "Verzeichnis nicht gefunden: "@ + path,
        CleaningErrorView::PermissionDenied(path) => "Keine Berechtigung: "@ + path,
        CleaningErrorView::FileInUse(path) => "Datei in Verwendung: "@ + path,
        CleaningErrorView::IoError(path, message) => "IO-Fehler bei "@ + path + ": "@ + message,
        CleaningErrorView::InvalidPath(message) => "Ungültiger Pfad: "@ + message,
    }
}

impl CleaningError {
    /// The error in words.
    pub fn message(&self) -> (text: String)
        ensures
            text@ == error_text(self@),
    {
        match self {
            CleaningError::DirectoryNotFound(path) => "Verzeichnis nicht gefunden: ".to_string().concat(
                path.as_str(),
            ),
            CleaningError::PermissionDenied(path) => "Keine Berechtigung: ".to_string().concat(
                path.as_str(),
            ),
            CleaningError::FileInUse(path) => "Datei in Verwendung: ".to_string().concat(
                path.as_str(),
            ),
            CleaningError::IoError(path, message) => "IO-Fehler bei ".to_string().concat(
                path.as_str(),
            ).concat(": ").concat(message.as_str()),
            CleaningError::InvalidPath(message) => "Ungültiger Pfad: ".to_string().concat(
                message.as_str(),
            ),
        }
    }
}

/// `ERROR_SHARING_VIOLATION` of the Windows API: the code is 32.
#[verifier::external_body]
fn sharing_violation_code() -> (code: i32)
    ensures
        code == 32,
{
    windows::Win32::Foundation::ERROR_SHARING_VIOLATION.0 as i32
}

/// `ERROR_LOCK_VIOLATION` of the Windows API: the code is 33.
#[verifier::external_body]
fn lock_violation_code() -> (code: i32)
    ensures
        code == 33,
{
    windows::Win32::Foundation::ERROR_LOCK_VIOLATION.0 as i32
}

/// The failure carries the Windows code of a sharing violation or of a lock
/// violation: another process holds the file.
pub open spec fn held_by_other_process(failure: IoFailure) -> bool {
    failure.windows_code == Some(32i32) || failure.windows_code == Some(33i32)
}

/// A failed attempt to delete a file counts as "file in use" where another
/// process holds the file, or where permission was denied.
pub open spec fn file_in_use(failure: IoFailure) -> bool {
    held_by_other_process(failure) || failure.kind == IoErrorKind::PermissionDenied
}

/// Whether the failure carries the Windows code of a sharing violation or of
/// a lock violation.
pub fn is_held_by_other_process(error: &IoFailure) -> (held: bool)
    ensures
        held == held_by_other_process(*error),
{
    match error.windows_code {
        Some(code) => code == sharing_violation_code() || code == lock_violation_code(),
        None => false,
    }
}

/// Whether a failed attempt to delete a file means that the file is in use.
pub fn is_file_in_use_error(error: &IoFailure) -> (in_use: bool)
    ensures
        in_use == file_in_use(*error),
{
    is_held_by_other_process(error) || error.kind == IoErrorKind::PermissionDenied
}

/// The error that stands for a failed operation on `path`.
///
/// A file held by another process is in use; so is one that could not be
/// deleted for want of permission. Any other want of permission is a
/// permission failure, and everything else a general failure with the
/// system's message.
pub open spec fn classified(path: Seq<char>, failure: IoFailure, during_delete: bool)
    -> CleaningErrorView {
    if held_by_other_process(failure) || (during_delete && failure.kind
        == IoErrorKind::PermissionDenied) {
        CleaningErrorView::FileInUse(path)
    } else if failure.kind == IoErrorKind::PermissionDenied {
        CleaningErrorView::PermissionDenied(path)
    } else {
        CleaningErrorView::IoError(path, failure.message@)
    }
}

/// Classifies a failed operation on `path`; `during_delete` says that the
/// operation was an attempt to delete a file.
pub fn classify_io_error(path: &str, failure: &IoFailure, during_delete: bool) -> (error:
    CleaningError)
    ensures
        error@ == classified(path@, *failure, during_delete),
{
    let denied = failure.kind == IoErrorKind::PermissionDenied;
    if is_held_by_other_process(failure) || (during_delete && denied) {
        CleaningError::FileInUse(path.to_string())
    } else if denied {
        CleaningError::PermissionDenied(path.to_string())
    } else {
        CleaningError::IoError(path.to_string(), failure.message.clone())
    }
}

} // verus!
