//! The error type that the engine reports.

use vstd::prelude::*;

verus! {

/// An error of the application, by the layer that raised it.
#[derive(Debug)]
pub enum AppError {
    /// Configuration error
    ConfigError(String),
    /// Storage error
    StorageError(String),
    /// Engine error
    EngineError(String),
    /// API error
    ApiError(String),
}

impl AppError {
    /// The message that the error carries.
    pub fn message(&self) -> (r: &String)
        ensures
            r@ == match self {
                AppError::ConfigError(m) => m@,
                AppError::StorageError(m) => m@,
                AppError::EngineError(m) => m@,
                AppError::ApiError(m) => m@,
            },
    {
        match self {
            AppError::ConfigError(m) => m,
            AppError::StorageError(m) => m,
            AppError::EngineError(m) => m,
            AppError::ApiError(m) => m,
        }
    }
}

} // verus!
