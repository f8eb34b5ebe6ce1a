//! The library's error type.

use std::io::Error as IoError;
use reqwest::Error as RequestError;
use serde_json::Error as JsonError;
use vstd::prelude::*;

verus! {

/// Declares `reqwest::Error`, carried opaquely by [`Error::Request`].
#[verifier::external_type_specification]
#[verifier::external_body]
pub struct ExRequestError(RequestError);

/// Declares `std::io::Error`, carried opaquely by [`Error::IO`].
#[verifier::external_type_specification]
#[verifier::external_body]
pub struct ExIoError(IoError);

/// Declares `serde_json::Error`, carried opaquely by [`Error::Json`].
#[verifier::external_type_specification]
#[verifier::external_body]
pub struct ExJsonError(JsonError);

/// Declares `confy::ConfyError`, carried opaquely by [`Error::Config`].
#[verifier::external_type_specification]
#[verifier::external_body]
pub struct ExConfyError(confy::ConfyError);

/// Everything that can go wrong while curating a playlist.
#[derive(Debug)]
pub enum Error {
    /// A required setting is empty: the setting's name and the configuration file's path.
    MissingConfig(String, String),
    /// A path could not be turned into a string.
    StringFromPathBuf(String),
    /// The metadata provider answered with a different number of records than
    /// were requested: (requested, fetched).
    NotEnoughResponseItems(usize, usize),
    /// The metadata provider could not be reached or answered with an error.
    Request(RequestError),
    /// A file could not be read, written or created.
    IO(IoError),
    /// Stored content is not valid JSON of the expected shape.
    Json(JsonError),
    /// The configuration could not be located or loaded.
    Config(confy::ConfyError),
}

} // verus!
