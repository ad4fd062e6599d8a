//! The errors that the operations of the database report.

use vstd::prelude::*;

verus! {

/// What can go wrong in the database.
#[derive(Debug)]
pub enum HiveError {
    /// A cell already exists at the specified coordinates.
    CellAlreadyExists,
    /// No cell exists at the specified coordinates.
    CellNotFound,
    /// No hive has the specified id.
    HiveNotFound,
    /// The coordinates lie outside the grid.
    OutOfBoundsError,
    /// A lock could not be acquired.
    LockError,
    /// Something else still holds a reference to what was to be reclaimed.
    ReferenceError,
    /// The wall clock could not be read.
    SystemTimeError,
    /// The compressor failed.
    CompressionError(String),
    /// The stored bytes are not a stream that the decompressor accepts.
    DecompressionError(String),
    /// Reading or writing storage failed.
    IoError(String),
    /// A value could not be serialized.
    SerializationError(String),
    /// A value could not be deserialized.
    DeserializationError(String),
    /// The caller could not be authenticated.
    AuthenticationError(String),
    /// The caller is not allowed to do what was asked.
    AuthorizationError(String),
    /// A value violates the schema.
    SchemaValidationError(String),
    /// A query is malformed or cannot be run.
    QueryError(String),
    /// The network failed.
    NetworkError(String),
    /// The feature is not implemented.
    NotImplemented,
    /// Any other failure.
    GenericError(String),
}

impl HiveError {
    /// The text that describes this error.
    pub open spec fn spec_message(&self) -> Seq<char> {
        match self {
            HiveError::CellAlreadyExists => "A cell already exists at the specified coordinates"@,
            HiveError::CellNotFound => "Cell not found"@,
            HiveError::HiveNotFound => "Hive not found"@,
            HiveError::OutOfBoundsError => "Coordinates are out of bounds"@,
            HiveError::LockError => "Failed to acquire lock"@,
            HiveError::ReferenceError => "Reference counting error"@,
            HiveError::SystemTimeError => "System time error"@,
            HiveError::CompressionError(detail) => "Compression error: "@ + detail@,
            HiveError::DecompressionError(detail) => "Decompression error: "@ + detail@,
            HiveError::IoError(detail) => "I/O error: "@ + detail@,
            HiveError::SerializationError(detail) => "Serialization error: "@ + detail@,
            HiveError::DeserializationError(detail) => "Deserialization error: "@ + detail@,
            HiveError::AuthenticationError(detail) => "Authentication error: "@ + detail@,
            HiveError::AuthorizationError(detail) => "Authorization error: "@ + detail@,
            HiveError::SchemaValidationError(detail) => "Schema validation error: "@ + detail@,
            HiveError::QueryError(detail) => "Query error: "@ + detail@,
            HiveError::NetworkError(detail) => "Network error: "@ + detail@,
            HiveError::NotImplemented => "Feature not implemented"@,
            HiveError::GenericError(detail) => "Error: "@ + detail@,
        }
    }

    /// The text that describes this error.
    pub fn message(&self) -> (text: String)
        ensures
            text@ == self.spec_message(),
    {
        match self {
            HiveError::CellAlreadyExists => {
                "A cell already exists at the specified coordinates".to_owned()
            },
            HiveError::CellNotFound => "Cell not found".to_owned(),
            HiveError::HiveNotFound => "Hive not found".to_owned(),
            HiveError::OutOfBoundsError => "Coordinates are out of bounds".to_owned(),
            HiveError::LockError => "Failed to acquire lock".to_owned(),
            HiveError::ReferenceError => "Reference counting error".to_owned(),
            HiveError::SystemTimeError => "System time error".to_owned(),
            HiveError::CompressionError(detail) => prefixed("Compression error: ", detail),
            HiveError::DecompressionError(detail) => prefixed("Decompression error: ", detail),
            HiveError::IoError(detail) => prefixed("I/O error: ", detail),
            HiveError::SerializationError(detail) => prefixed("Serialization error: ", detail),
            HiveError::DeserializationError(detail) => prefixed("Deserialization error: ", detail),
            HiveError::AuthenticationError(detail) => prefixed("Authentication error: ", detail),
            HiveError::AuthorizationError(detail) => prefixed("Authorization error: ", detail),
            HiveError::SchemaValidationError(detail) => {
                prefixed("Schema validation error: ", detail)
            },
            HiveError::QueryError(detail) => prefixed("Query error: ", detail),
            HiveError::NetworkError(detail) => prefixed("Network error: ", detail),
            HiveError::NotImplemented => "Feature not implemented".to_owned(),
            HiveError::GenericError(detail) => prefixed("Error: ", detail),
        }
    }
}

/// `prefix` followed by `detail`.
fn prefixed(prefix: &str, detail: &String) -> (text: String)
    ensures
        text@ == prefix@ + detail@,
{
    let mut text: String = prefix.to_owned();
    text.append(detail.as_str());
    text
}

} // verus!
