//! The ways in which installing a mod can fail.

use vstd::prelude::*;

verus! {

/// Why an installation, or a step of one, did not go through.
#[derive(Clone, Debug, PartialEq, Eq)]
pub enum InstallationError {
    /// The archive, or the directory to install from, is not on disk.
    NotFound(Vec<u8>),
    /// The archive's container format is not one that can be unpacked.
    UnsupportedFormat,
    /// The archive is damaged, or unpacking it was cut short.
    DecompressionFailure(String),
    /// The package holds evidence of more than one category. Kept for a
    /// stricter policy: with the first match winning, nothing reports it.
    ClassificationAmbiguous,
    /// No file of the package tells which category of mod it is.
    NoRecognizedMod,
    /// The directory to install into is missing and could not be made.
    DestinationUnavailable(Vec<u8>),
    /// Copying `file` failed. Files copied before it stay where they are.
    CopyFailure { file: Vec<u8>, detail: String },
    /// The mod's files are in place, but the registry could not be written.
    RegistryPersistenceFailure(String),
    /// An entry of the package could not be read while looking through it.
    FileAccessingError(String),
    /// The copying was reported done with a record that cannot be this
    /// installation's: of another category, disabled, not well-formed, or
    /// with a file outside the directory of its category.
    RecordRejected,
}

/// An `InstallationError` with its texts and paths as sequences.
pub enum InstallationErrorView {
    NotFound(Seq<u8>),
    UnsupportedFormat,
    DecompressionFailure(Seq<char>),
    ClassificationAmbiguous,
    NoRecognizedMod,
    DestinationUnavailable(Seq<u8>),
    CopyFailure { file: Seq<u8>, detail: Seq<char> },
    RegistryPersistenceFailure(Seq<char>),
    FileAccessingError(Seq<char>),
    RecordRejected,
}

impl View for InstallationError {
    type V = InstallationErrorView;

    open spec fn view(&self) -> InstallationErrorView {
        match self {
            InstallationError::NotFound(path) => InstallationErrorView::NotFound(path@),
            InstallationError::UnsupportedFormat => InstallationErrorView::UnsupportedFormat,
            InstallationError::DecompressionFailure(detail) => {
                InstallationErrorView::DecompressionFailure(detail@)
            },
            InstallationError::ClassificationAmbiguous => {
                InstallationErrorView::ClassificationAmbiguous
            },
            InstallationError::NoRecognizedMod => InstallationErrorView::NoRecognizedMod,
            InstallationError::DestinationUnavailable(dir) => {
                InstallationErrorView::DestinationUnavailable(dir@)
            },
            InstallationError::CopyFailure { file, detail } => InstallationErrorView::CopyFailure {
                file: file@,
                detail: detail@,
            },
            InstallationError::RegistryPersistenceFailure(detail) => {
                InstallationErrorView::RegistryPersistenceFailure(detail@)
            },
            InstallationError::FileAccessingError(detail) => {
                InstallationErrorView::FileAccessingError(detail@)
            },
            InstallationError::RecordRejected => InstallationErrorView::RecordRejected,
        }
    }
}

impl InstallationErrorView {
    /// Whether the error leaves the game's directories as they were, so that
    /// the installation can simply be tried again.
    pub open spec fn before_any_copy(self) -> bool {
        match self {
            InstallationErrorView::CopyFailure { .. } => false,
            InstallationErrorView::RegistryPersistenceFailure(_) => false,
            InstallationErrorView::RecordRejected => false,
            _ => true,
        }
    }
}

impl InstallationError {
    /// Whether the error came before any file reached the game's
    /// directories.
    pub fn before_any_copy(&self) -> (safe: bool)
        ensures
            safe == self@.before_any_copy(),
    {
        match self {
            InstallationError::CopyFailure { .. } => false,
            InstallationError::RegistryPersistenceFailure(_) => false,
            InstallationError::RecordRejected => false,
            _ => true,
        }
    }
}

} // verus!
