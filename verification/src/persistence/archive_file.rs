//! Filesystem vocabulary shared by the `.fse` archive file formats.
use vstd::prelude::*;

verus! {

/// Filesystem operation performed against an FSE archive file.
#[derive(Clone, Copy, Debug, PartialEq, Eq, Structural)]
pub enum FSEArchiveFileOperation {
    /// Read an archive file.
    Read,
    /// Write an archive file.
    Write,
}

/// Paths of archive files are carried through error values unchanged.
#[verifier::external_type_specification]
#[verifier::external_body]
pub struct ExPathBuf(std::path::PathBuf);

/// Operating-system error kinds are carried through error values unchanged.
#[verifier::external_type_specification]
#[verifier::external_body]
pub struct ExIoErrorKind(std::io::ErrorKind);

/// `PathBuf::clone` copies the path; nothing about the copy is relied on.
pub assume_specification[ <std::path::PathBuf as Clone>::clone ](path: &std::path::PathBuf) -> std::path::PathBuf;

/// `ErrorKind::clone` copies the error kind; nothing about the copy is relied on.
pub assume_specification[ <std::io::ErrorKind as Clone>::clone ](kind: &std::io::ErrorKind) -> std::io::ErrorKind;

} // verus!
