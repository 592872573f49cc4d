//! Errors raised while reading a ZIP archive.
use vstd::prelude::*;

verus! {

/// Why reading a ZIP archive failed.
#[derive(Debug, Clone)]
pub enum ZipReadError {
    /// The data ended in the middle of a fixed-size field.
    IOError { reason: String },
    /// The data is not a valid ZIP archive: a signature is missing or a
    /// declared length runs past the available bytes.
    InvalidZipArchive { reason: String },
    /// The archive is well formed but uses a feature this library does not
    /// handle (split archives, ZIP64, encryption).
    UnsupportedZipArchive { reason: String },
}

/// The three kinds of [`ZipReadError`], without their messages.
#[derive(Debug, Clone, Copy, PartialEq, Eq, Structural)]
pub enum ZipReadErrorKind {
    IOError,
    InvalidZipArchive,
    UnsupportedZipArchive,
}

impl ZipReadError {
    pub open spec fn spec_kind(&self) -> ZipReadErrorKind {
        match self {
            ZipReadError::IOError { .. } => ZipReadErrorKind::IOError,
            ZipReadError::InvalidZipArchive { .. } => ZipReadErrorKind::InvalidZipArchive,
            ZipReadError::UnsupportedZipArchive { .. } => ZipReadErrorKind::UnsupportedZipArchive,
        }
    }

    /// The kind of this error.
    pub fn kind(&self) -> (r: ZipReadErrorKind)
        ensures
            r == self.spec_kind(),
    {
        match self {
            ZipReadError::IOError { .. } => ZipReadErrorKind::IOError,
            ZipReadError::InvalidZipArchive { .. } => ZipReadErrorKind::InvalidZipArchive,
            ZipReadError::UnsupportedZipArchive { .. } => ZipReadErrorKind::UnsupportedZipArchive,
        }
    }

    /// The human-readable explanation carried by this error.
    pub fn message(&self) -> (r: String)
        ensures
            r@ == self.spec_reason(),
    {
        match self {
            ZipReadError::IOError { reason } => reason.clone(),
            ZipReadError::InvalidZipArchive { reason } => reason.clone(),
            ZipReadError::UnsupportedZipArchive { reason } => reason.clone(),
        }
    }

    pub open spec fn spec_reason(&self) -> Seq<char> {
        match self {
            ZipReadError::IOError { reason } => reason@,
            ZipReadError::InvalidZipArchive { reason } => reason@,
            ZipReadError::UnsupportedZipArchive { reason } => reason@,
        }
    }
}

/// The error for data that ends inside a fixed-size field.
pub fn unexpected_end() -> (r: ZipReadError)
    ensures
        r.spec_kind() == ZipReadErrorKind::IOError,
{
    ZipReadError::IOError { reason: "failed to fill whole buffer".to_owned() }
}

pub fn invalid_archive(reason: &str) -> (r: ZipReadError)
    ensures
        r.spec_kind() == ZipReadErrorKind::InvalidZipArchive,
        r.spec_reason() == reason@,
{
    ZipReadError::InvalidZipArchive { reason: reason.to_owned() }
}

pub fn unsupported_archive(reason: &str) -> (r: ZipReadError)
    ensures
        r.spec_kind() == ZipReadErrorKind::UnsupportedZipArchive,
        r.spec_reason() == reason@,
{
    ZipReadError::UnsupportedZipArchive { reason: reason.to_owned() }
}

} // verus!
