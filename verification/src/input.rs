//! Validation of the run's input and output locations.
//!
//! The caller probes the file system (does the source directory exist, are
//! the data, configuration and storage-configuration files present, does the
//! destination directory exist) and hands the findings over as plain truth
//! values; the decision which error ends the run, and in which order the
//! checks rank, is made — and verified — here.

use vstd::prelude::*;

verus! {

/// Why the run's input or output location was rejected.
#[derive(Debug, Clone, Copy, PartialEq, Eq, Structural)]
pub enum InputError {
    /// The source path is missing or not a directory.
    SourceNotADirectory,
    /// The selected data dump file is missing from the source directory.
    DataFileNotFound,
    /// The device configuration file is missing from the source directory.
    ConfigFileNotFound,
    /// The storage configuration file is missing from the source directory.
    StorageFileNotFound,
    /// The destination path is missing or not a directory.
    DestinationNotFound,
}

/// The input checks, ranked: the source directory first, then the data
/// file, the configuration file, the storage configuration file, and the
/// destination directory last; the first failing check names the error.
pub open spec fn spec_verify_input(
    src_is_dir: bool,
    data_file_exists: bool,
    config_file_exists: bool,
    storage_file_exists: bool,
    dest_is_dir: bool,
) -> Result<(), InputError> {
    if !src_is_dir {
        Err(InputError::SourceNotADirectory)
    } else if !data_file_exists {
        Err(InputError::DataFileNotFound)
    } else if !config_file_exists {
        Err(InputError::ConfigFileNotFound)
    } else if !storage_file_exists {
        Err(InputError::StorageFileNotFound)
    } else if !dest_is_dir {
        Err(InputError::DestinationNotFound)
    } else {
        Ok(())
    }
}

/// Checks the probed state of the run's locations; `Ok` exactly when all
/// five probes passed, otherwise the highest-ranked failure.
pub fn verify_input(
    src_is_dir: bool,
    data_file_exists: bool,
    config_file_exists: bool,
    storage_file_exists: bool,
    dest_is_dir: bool,
) -> (r: Result<(), InputError>)
    ensures
        r == spec_verify_input(
            src_is_dir,
            data_file_exists,
            config_file_exists,
            storage_file_exists,
            dest_is_dir,
        ),
        r is Ok <==> (src_is_dir && data_file_exists && config_file_exists
            && storage_file_exists && dest_is_dir),
{
    if !src_is_dir {
        Err(InputError::SourceNotADirectory)
    } else if !data_file_exists {
        Err(InputError::DataFileNotFound)
    } else if !config_file_exists {
        Err(InputError::ConfigFileNotFound)
    } else if !storage_file_exists {
        Err(InputError::StorageFileNotFound)
    } else if !dest_is_dir {
        Err(InputError::DestinationNotFound)
    } else {
        Ok(())
    }
}

} // verus!
