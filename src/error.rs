//! Errors of note operations.
use serde_yaml::Error as YamlError;
use std::io::Error as IoError;
use vstd::prelude::*;

verus! {

#[verifier::external_type_specification]
#[verifier::external_body]
pub struct ExIoError(IoError);

#[verifier::external_type_specification]
#[verifier::external_body]
pub struct ExYamlError(YamlError);

/// What can go wrong when reading or writing notes.
#[derive(Debug)]
pub enum Error {
    /// A filesystem read, write or directory creation failed.
    IO(IoError),
    /// Metadata was required but the note opens no metadata block.
    MissingMetadata,
    /// The metadata block is opened but never closed.
    UnclosedMetadata,
    /// The YAML codec rejected the metadata block, or could not render metadata.
    MetadataError(YamlError),
    /// The vault's layout does not allow the operation.
    MalformedVault(String),
}

} // verus!
