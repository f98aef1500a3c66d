//! File storage backends and their configuration.

pub mod s3;

use vstd::prelude::*;

verus! {

/// Where uploaded files are kept, as read from the server configuration.
#[derive(Debug, Clone)]
pub struct StorageConfig {
    pub backend: String,
    pub base_url: String,
    pub local_path: String,
    pub s3_bucket: Option<String>,
    pub s3_region: Option<String>,
    pub s3_endpoint: Option<String>,
    pub s3_access_key: Option<String>,
    pub s3_secret_key: Option<String>,
}

/// What storing an object gives back.
#[derive(Debug, Clone)]
pub struct StorageResult {
    pub url: String,
    pub size: u64,
    pub content_type: String,
    pub etag: Option<String>,
}

/// Why a storage operation failed.
#[derive(Debug, Clone)]
pub enum StorageError {
    NotFound(String),
    BackendError(String),
}

impl StorageError {
    /// The text the error carries.
    pub fn message(&self) -> (r: String)
        ensures
            r@ == match self {
                StorageError::NotFound(k) => k@,
                StorageError::BackendError(m) => m@,
            },
    {
        match self {
            StorageError::NotFound(k) => k.clone(),
            StorageError::BackendError(m) => m.clone(),
        }
    }
}

} // verus!
