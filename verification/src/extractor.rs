//! Telling how a mod's archive has to be unpacked. The unpacking itself is
//! the caller's.

use vstd::prelude::*;
use crate::errors::{InstallationError, InstallationErrorView};
use crate::paths::{ascii, ascii_bytes, extension, extension_of, same_bytes};

verus! {

/// The container formats that an archive can have.
#[derive(Clone, Copy, Debug, PartialEq, Eq, Structural)]
pub enum ArchiveFormat {
    Zip,
    SevenZip,
    Rar,
}

/// The format of the archive at `path`, told by its extension.
pub open spec fn format_of(path: Seq<u8>) -> Option<ArchiveFormat> {
    match extension_of(path) {
        Some(ext) => {
            if ext == ascii("zip"@) {
                Some(ArchiveFormat::Zip)
            } else if ext == ascii("7z"@) {
                Some(ArchiveFormat::SevenZip)
            } else if ext == ascii("rar"@) {
                Some(ArchiveFormat::Rar)
            } else {
                None
            }
        },
        None => None,
    }
}

/// The format of the archive at `path`, told by its extension.
pub fn archive_format(path: &[u8]) -> (format: Option<ArchiveFormat>)
    ensures
        format == format_of(path@),
{
    proof {
        reveal_strlit("zip");
        reveal_strlit("7z");
        reveal_strlit("rar");
    }
    match extension(path) {
        Some(ext) => {
            if same_bytes(ext, ascii_bytes("zip")) {
                Some(ArchiveFormat::Zip)
            } else if same_bytes(ext, ascii_bytes("7z")) {
                Some(ArchiveFormat::SevenZip)
            } else if same_bytes(ext, ascii_bytes("rar")) {
                Some(ArchiveFormat::Rar)
            } else {
                None
            }
        },
        None => None,
    }
}

/// What unpacking the archive at `path` comes to before any byte of it is
/// read: an archive that is not there is not found, one of no known format
/// is unsupported, and any other is to be unpacked as its format asks.
pub open spec fn unpacking_of(path: Seq<u8>, exists: bool) -> Result<
    ArchiveFormat,
    InstallationErrorView,
> {
    if !exists {
        Err(InstallationErrorView::NotFound(path))
    } else {
        match format_of(path) {
            Some(format) => Ok(format),
            None => Err(InstallationErrorView::UnsupportedFormat),
        }
    }
}

/// Says how the archive at `zipped_mod_folder` is to be unpacked, or why it
/// cannot be. `exists` tells whether the archive is on disk.
pub fn decompress_folder(zipped_mod_folder: &[u8], exists: bool) -> (unpacking: Result<
    ArchiveFormat,
    InstallationError,
>)
    ensures
        match unpacking_of(zipped_mod_folder@, exists) {
            Ok(format) => unpacking == Ok::<ArchiveFormat, InstallationError>(format),
            Err(error) => unpacking matches Err(e) && e@ == error,
        },
{
    if !exists {
        return Err(InstallationError::NotFound(vstd::slice::slice_to_vec(zipped_mod_folder)));
    }
    match archive_format(zipped_mod_folder) {
        Some(format) => Ok(format),
        None => Err(InstallationError::UnsupportedFormat),
    }
}

} // verus!
