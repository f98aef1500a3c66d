//! The S3 storage backend: its configuration, the URLs of its objects, and
//! what the outcomes of its service calls mean.

use super::{StorageConfig, StorageError, StorageResult};
use crate::text::{chars_of, owned, push_str, strip_char_end, strip_char_end_chars, string_from_chars};
use vstd::prelude::*;

verus! {

broadcast use vstd::string::group_string_axioms;

/// An S3 bucket, its region, and the endpoint of an S3-compatible service
/// when one is configured in place of AWS.
#[derive(Debug)]
pub struct S3Storage {
    bucket: String,
    region: String,
    endpoint: Option<String>,
}

/// The region used when none is configured.
pub open spec fn default_region() -> Seq<char> {
    "us-east-1"@
}

/// What building the backend from a configuration gives: the bucket, the
/// region and the endpoint, or the message of the first missing setting
/// (bucket, then access key, then secret key).
pub open spec fn s3_outcome(c: StorageConfig) -> Result<(Seq<char>, Seq<char>, Option<Seq<char>>), Seq<char>> {
    match c.s3_bucket {
        None => Err("S3 bucket not configured"@),
        Some(bucket) => if c.s3_access_key is None {
            Err("S3 access key not configured"@)
        } else if c.s3_secret_key is None {
            Err("S3 secret key not configured"@)
        } else {
            Ok(
                (
                    bucket@,
                    match c.s3_region {
                        Some(r) => r@,
                        None => default_region(),
                    },
                    match c.s3_endpoint {
                        Some(e) => Some(e@),
                        None => None,
                    },
                ),
            )
        },
    }
}

/// The URL of an object: under the endpoint (its trailing slashes dropped)
/// and the bucket where an endpoint is configured, else the AWS virtual-host
/// URL of the bucket in its region.
pub open spec fn object_url_of(
    bucket: Seq<char>,
    region: Seq<char>,
    endpoint: Option<Seq<char>>,
    key: Seq<char>,
) -> Seq<char> {
    match endpoint {
        Some(ep) => strip_char_end(ep, '/') + "/"@ + bucket + "/"@ + key,
        None => "https://"@ + bucket + ".s3."@ + region + ".amazonaws.com/"@ + key,
    }
}

impl S3Storage {
    pub closed spec fn bucket_view(&self) -> Seq<char> {
        self.bucket@
    }

    pub closed spec fn region_view(&self) -> Seq<char> {
        self.region@
    }

    pub closed spec fn endpoint_view(&self) -> Option<Seq<char>> {
        match self.endpoint {
            Some(e) => Some(e@),
            None => None,
        }
    }

    pub fn new(config: &StorageConfig) -> (r: Result<S3Storage, StorageError>)
        ensures
            match s3_outcome(*config) {
                Ok((b, reg, ep)) => r matches Ok(s) && s.bucket_view() == b && s.region_view() == reg
                    && s.endpoint_view() == ep,
                Err(m) => r matches Err(StorageError::BackendError(e)) && e@ == m,
            },
    {
        let bucket = match &config.s3_bucket {
            Some(b) => b.clone(),
            None => {
                return Err(StorageError::BackendError(owned("S3 bucket not configured")));
            },
        };
        if config.s3_access_key.is_none() {
            return Err(StorageError::BackendError(owned("S3 access key not configured")));
        }
        if config.s3_secret_key.is_none() {
            return Err(StorageError::BackendError(owned("S3 secret key not configured")));
        }
        let region = match &config.s3_region {
            Some(r) => r.clone(),
            None => owned("us-east-1"),
        };
        let endpoint = match &config.s3_endpoint {
            Some(e) => Some(e.clone()),
            None => None,
        };
        Ok(S3Storage { bucket, region, endpoint })
    }

    pub fn bucket(&self) -> (r: &str)
        ensures
            r@ == self.bucket_view(),
    {
        self.bucket.as_str()
    }

    pub fn region(&self) -> (r: &str)
        ensures
            r@ == self.region_view(),
    {
        self.region.as_str()
    }

    pub fn endpoint(&self) -> (r: Option<&str>)
        ensures
            match r {
                Some(e) => self.endpoint_view() == Some(e@),
                None => self.endpoint_view() is None,
            },
    {
        match &self.endpoint {
            Some(e) => Some(e.as_str()),
            None => None,
        }
    }

    pub fn object_url(&self, key: &str) -> (r: String)
        ensures
            r@ == object_url_of(self.bucket_view(), self.region_view(), self.endpoint_view(), key@),
    {
        match &self.endpoint {
            Some(ep) => {
                let e = chars_of(ep.as_str());
                let trimmed = strip_char_end_chars(e.as_slice(), '/');
                let mut url = string_from_chars(trimmed.as_slice());
                push_str(&mut url, "/");
                push_str(&mut url, self.bucket.as_str());
                push_str(&mut url, "/");
                push_str(&mut url, key);
                url
            },
            None => {
                let mut url = owned("https://");
                push_str(&mut url, self.bucket.as_str());
                push_str(&mut url, ".s3.");
                push_str(&mut url, self.region.as_str());
                push_str(&mut url, ".amazonaws.com/");
                push_str(&mut url, key);
                url
            },
        }
    }
}

/// The error codes under which S3 reports a missing object to a read.
pub open spec fn missing_on_get(code: Seq<char>) -> bool {
    code == "NoSuchKey"@ || code == "NotFound"@
}

/// The error codes under which S3 reports a missing object to a head
/// request.
pub open spec fn missing_on_head(code: Seq<char>) -> bool {
    code == "NotFound"@ || code == "Not Found"@ || code == "NoSuchKey"@ || code == "404"@
}

fn is_code(code: Option<&str>, want: &str) -> (r: bool)
    ensures
        r == (code matches Some(c) && c@ == want@),
{
    match code {
        Some(c) => crate::text::eq_str(chars_of(c).as_slice(), want),
        None => false,
    }
}

fn prefixed(prefix: &str, text: &str) -> (r: String)
    ensures
        r@ == prefix@ + text@,
{
    let mut m = owned(prefix);
    push_str(&mut m, text);
    m
}

impl S3Storage {
    /// The result of a stored object: its URL, its size, its content type,
    /// and the entity tag the service returned.
    pub fn put_result(&self, key: &str, size: u64, content_type: &str, etag: Option<String>) -> (r:
        StorageResult)
        ensures
            r.url@ == object_url_of(self.bucket_view(), self.region_view(), self.endpoint_view(), key@),
            r.size == size,
            r.content_type@ == content_type@,
            r.etag == etag,
    {
        StorageResult { url: self.object_url(key), size, content_type: owned(content_type), etag }
    }
}

/// A failed upload, with the service's error text.
pub fn upload_failure(error_text: &str) -> (r: StorageError)
    ensures
        r matches StorageError::BackendError(m) && m@ == "S3 upload failed: "@ + error_text@,
{
    StorageError::BackendError(prefixed("S3 upload failed: ", error_text))
}

/// A failed read: a missing object is reported by its key, any other
/// failure with the service's error text.
pub fn download_failure(code: Option<&str>, key: &str, error_text: &str) -> (r: StorageError)
    ensures
        (code matches Some(c) && missing_on_get(c@)) ==> (r matches StorageError::NotFound(k) && k@
            == key@),
        !(code matches Some(c) && missing_on_get(c@)) ==> (r matches StorageError::BackendError(m)
            && m@ == "S3 download failed: "@ + error_text@),
{
    if is_code(code, "NoSuchKey") || is_code(code, "NotFound") {
        StorageError::NotFound(owned(key))
    } else {
        StorageError::BackendError(prefixed("S3 download failed: ", error_text))
    }
}

/// A failed delete, with the service's error text.
pub fn delete_failure(error_text: &str) -> (r: StorageError)
    ensures
        r matches StorageError::BackendError(m) && m@ == "S3 delete failed: "@ + error_text@,
{
    StorageError::BackendError(prefixed("S3 delete failed: ", error_text))
}

/// What a failed head request answers: the object does not exist when the
/// service says it is missing; any other failure is an error.
pub fn exists_after_failure(code: Option<&str>, error_text: &str) -> (r: Result<bool, StorageError>)
    ensures
        (code matches Some(c) && missing_on_head(c@)) ==> r == Ok::<bool, StorageError>(false),
        !(code matches Some(c) && missing_on_head(c@)) ==> (r matches Err(StorageError::BackendError(m))
            && m@ == "S3 head_object failed: "@ + error_text@),
{
    if is_code(code, "NotFound") || is_code(code, "Not Found") || is_code(code, "NoSuchKey") || is_code(
        code,
        "404",
    ) {
        Ok(false)
    } else {
        Err(StorageError::BackendError(prefixed("S3 head_object failed: ", error_text)))
    }
}

/// A presigning failure: an expiry the service refuses, or a failed
/// signing, each with the service's error text.
pub fn presign_failure(invalid_duration: bool, error_text: &str) -> (r: StorageError)
    ensures
        invalid_duration ==> (r matches StorageError::BackendError(m) && m@ == "Invalid presign duration: "@
            + error_text@),
        !invalid_duration ==> (r matches StorageError::BackendError(m) && m@
            == "Failed to generate presigned URL: "@ + error_text@),
{
    if invalid_duration {
        StorageError::BackendError(prefixed("Invalid presign duration: ", error_text))
    } else {
        StorageError::BackendError(prefixed("Failed to generate presigned URL: ", error_text))
    }
}

} // verus!
