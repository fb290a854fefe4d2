//! Error kinds of the extension system.
use vstd::prelude::*;
use vstd::string::*;

verus! {

/// Why a manifest was refused.
#[derive(Debug, Clone)]
pub enum ValidationError {
    /// A required field (its name is carried) is empty.
    FieldRequired(String),
    /// A permission outside the fixed vocabulary.
    InvalidPermission(String),
    /// A path-traversal sequence, a path separator or a permission that a
    /// remote extension may never hold.
    SecurityViolation(String),
}

/// Errors of loading, running and managing extensions.
#[derive(Debug, Clone)]
pub enum ExtensionError {
    Io(String),
    Json(String),
    Database(String),
    Validation(String),
    NotFound(String),
    PermissionDenied(String),
}

/// Errors of the store sources and of the store client.
#[derive(Debug, Clone)]
pub enum StoreError {
    Network(String),
    Json(String),
    Validation(String),
    NotFound(String),
    Security(String),
}

impl ValidationError {
    /// The text that describes the error.
    pub fn message(&self) -> (r: String)
        ensures
            r@ == match self {
                ValidationError::FieldRequired(f) => "Field required: "@ + f@,
                ValidationError::InvalidPermission(p) => "Invalid permission: "@ + p@,
                ValidationError::SecurityViolation(m) => "Security violation: "@ + m@,
            },
    {
        match self {
            ValidationError::FieldRequired(f) => String::from_str("Field required: ").concat(
                f.as_str(),
            ),
            ValidationError::InvalidPermission(p) => String::from_str(
                "Invalid permission: ",
            ).concat(p.as_str()),
            ValidationError::SecurityViolation(m) => String::from_str(
                "Security violation: ",
            ).concat(m.as_str()),
        }
    }
}

impl ExtensionError {
    /// The text that describes the error.
    pub fn message(&self) -> (r: String)
        ensures
            r@ == match self {
                ExtensionError::Io(m) => "IO error: "@ + m@,
                ExtensionError::Json(m) => "JSON error: "@ + m@,
                ExtensionError::Database(m) => "Database error: "@ + m@,
                ExtensionError::Validation(m) => "Validation error: "@ + m@,
                ExtensionError::NotFound(m) => "Not found: "@ + m@,
                ExtensionError::PermissionDenied(m) => "Permission denied: "@ + m@,
            },
    {
        match self {
            ExtensionError::Io(m) => String::from_str("IO error: ").concat(m.as_str()),
            ExtensionError::Json(m) => String::from_str("JSON error: ").concat(m.as_str()),
            ExtensionError::Database(m) => String::from_str("Database error: ").concat(m.as_str()),
            ExtensionError::Validation(m) => String::from_str("Validation error: ").concat(
                m.as_str(),
            ),
            ExtensionError::NotFound(m) => String::from_str("Not found: ").concat(m.as_str()),
            ExtensionError::PermissionDenied(m) => String::from_str("Permission denied: ").concat(
                m.as_str(),
            ),
        }
    }
}

impl StoreError {
    /// The text that describes the error.
    pub fn message(&self) -> (r: String)
        ensures
            r@ == match self {
                StoreError::Network(m) => "Network error: "@ + m@,
                StoreError::Json(m) => "JSON error: "@ + m@,
                StoreError::Validation(m) => "Validation error: "@ + m@,
                StoreError::NotFound(m) => "Not found: "@ + m@,
                StoreError::Security(m) => "Security error: "@ + m@,
            },
    {
        match self {
            StoreError::Network(m) => String::from_str("Network error: ").concat(m.as_str()),
            StoreError::Json(m) => String::from_str("JSON error: ").concat(m.as_str()),
            StoreError::Validation(m) => String::from_str("Validation error: ").concat(m.as_str()),
            StoreError::NotFound(m) => String::from_str("Not found: ").concat(m.as_str()),
            StoreError::Security(m) => String::from_str("Security error: ").concat(m.as_str()),
        }
    }
}

} // verus!
