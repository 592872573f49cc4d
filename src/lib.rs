//! Repairs ZIP archives whose entry names are stored in a legacy encoding.
pub mod le_bytes;
pub mod zip_error;
pub mod zip_eocd;
pub mod zip_central_directory;
pub mod zip_local_file_header;
pub mod text;
pub mod filename_decoder;
pub mod archive;
pub mod cli;
pub mod round_trip;

pub use archive::{
    FileNameEncodingType, FileNameEntry, FileNamesDiagnosis, InputZIPArchive, ZIFURequirement,
    ZipFileEncodingType,
};
pub use cli::{BehaviorFlags, CLIOptions};
pub use zip_error::{ZipReadError, ZipReadErrorKind};
