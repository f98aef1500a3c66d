use tachyon_server::storage::s3::{
    delete_failure, download_failure, exists_after_failure, presign_failure, upload_failure, S3Storage,
};
use tachyon_server::storage::{StorageConfig, StorageError};

fn full_config() -> StorageConfig {
    StorageConfig {
        backend: "s3".to_string(),
        base_url: "/files".to_string(),
        local_path: "./uploads".to_string(),
        s3_bucket: Some("test-bucket".to_string()),
        s3_region: Some("us-east-1".to_string()),
        s3_endpoint: Some("http://localhost:9000".to_string()),
        s3_access_key: Some("minioadmin".to_string()),
        s3_secret_key: Some("minioadmin".to_string()),
    }
}

#[test]
fn test_new_with_all_fields() {
    let config = full_config();
    let storage = S3Storage::new(&config).unwrap();
    assert_eq!(storage.bucket(), "test-bucket");
    assert_eq!(storage.region(), "us-east-1");
    assert_eq!(storage.endpoint(), Some("http://localhost:9000"));
}

#[test]
fn test_new_missing_bucket() {
    let mut config = full_config();
    config.s3_bucket = None;
    let err = S3Storage::new(&config).unwrap_err();
    assert!(err.message().contains("bucket"));
}

#[test]
fn test_new_missing_access_key() {
    let mut config = full_config();
    config.s3_access_key = None;
    let err = S3Storage::new(&config).unwrap_err();
    assert!(err.message().contains("access key"));
}

#[test]
fn test_new_missing_secret_key() {
    let mut config = full_config();
    config.s3_secret_key = None;
    let err = S3Storage::new(&config).unwrap_err();
    assert!(err.message().contains("secret key"));
}

#[test]
fn test_new_defaults_region_when_missing() {
    let mut config = full_config();
    config.s3_region = None;
    let storage = S3Storage::new(&config).unwrap();
    assert_eq!(storage.region(), "us-east-1");
}

#[test]
fn test_new_aws_without_endpoint() {
    let mut config = full_config();
    config.s3_endpoint = None;
    let storage = S3Storage::new(&config).unwrap();
    assert!(storage.endpoint().is_none());
}

#[test]
fn test_object_url_custom_endpoint() {
    let storage = S3Storage::new(&full_config()).unwrap();
    let url = storage.object_url("docs/file.pdf");
    assert_eq!(url, "http://localhost:9000/test-bucket/docs/file.pdf");
}

#[test]
fn test_object_url_aws() {
    let mut config = full_config();
    config.s3_endpoint = None;
    config.s3_region = Some("eu-west-2".to_string());
    let storage = S3Storage::new(&config).unwrap();
    let url = storage.object_url("docs/file.pdf");
    assert_eq!(url, "https://test-bucket.s3.eu-west-2.amazonaws.com/docs/file.pdf");
}

#[test]
fn test_object_url_trailing_slash_stripped() {
    let mut config = full_config();
    config.s3_endpoint = Some("http://localhost:9000/".to_string());
    let storage = S3Storage::new(&config).unwrap();
    let url = storage.object_url("a/b");
    assert_eq!(url, "http://localhost:9000/test-bucket/a/b");
}

#[test]
fn missing_bucket_is_reported_before_missing_keys() {
    let mut config = full_config();
    config.s3_bucket = None;
    config.s3_access_key = None;
    config.s3_secret_key = None;
    match S3Storage::new(&config) {
        Err(StorageError::BackendError(m)) => assert_eq!(m, "S3 bucket not configured"),
        other => panic!("unexpected: {:?}", other),
    }
}

#[test]
fn every_trailing_slash_of_the_endpoint_is_dropped() {
    let mut config = full_config();
    config.s3_endpoint = Some("http://minio:9000///".to_string());
    let storage = S3Storage::new(&config).unwrap();
    assert_eq!(storage.object_url("k"), "http://minio:9000/test-bucket/k");
}

#[test]
fn not_found_error_carries_the_key() {
    let e = StorageError::NotFound("a/b".to_string());
    assert_eq!(e.message(), "a/b");
}

fn backend_message(e: StorageError) -> String {
    match e {
        StorageError::BackendError(m) => m,
        StorageError::NotFound(k) => panic!("unexpected not-found {}", k),
    }
}

#[test]
fn connection_failures_of_head_requests_are_errors() {
    let r = exists_after_failure(None, "dispatch failure");
    assert_eq!(backend_message(r.unwrap_err()), "S3 head_object failed: dispatch failure");
    for code in ["NotFound", "Not Found", "NoSuchKey", "404"] {
        assert_eq!(exists_after_failure(Some(code), "x").unwrap(), false);
    }
    assert!(exists_after_failure(Some("AccessDenied"), "denied").is_err());
}

#[test]
fn missing_objects_are_reported_by_key() {
    match download_failure(Some("NoSuchKey"), "a/b", "e") {
        StorageError::NotFound(k) => assert_eq!(k, "a/b"),
        other => panic!("unexpected {:?}", other),
    }
    match download_failure(Some("NotFound"), "k", "e") {
        StorageError::NotFound(k) => assert_eq!(k, "k"),
        other => panic!("unexpected {:?}", other),
    }
    assert_eq!(backend_message(download_failure(Some("404"), "k", "boom")), "S3 download failed: boom");
    assert_eq!(backend_message(download_failure(None, "k", "boom")), "S3 download failed: boom");
}

#[test]
fn other_service_failures_carry_their_text() {
    assert_eq!(backend_message(upload_failure("e1")), "S3 upload failed: e1");
    assert_eq!(backend_message(delete_failure("e2")), "S3 delete failed: e2");
    assert_eq!(backend_message(presign_failure(true, "e3")), "Invalid presign duration: e3");
    assert_eq!(backend_message(presign_failure(false, "e4")), "Failed to generate presigned URL: e4");
}

#[test]
fn stored_objects_report_their_url() {
    let storage = S3Storage::new(&full_config()).unwrap();
    let r = storage.put_result("docs/a.md", 12, "text/markdown", Some("\"abc\"".to_string()));
    assert_eq!(r.url, "http://localhost:9000/test-bucket/docs/a.md");
    assert_eq!(r.size, 12);
    assert_eq!(r.content_type, "text/markdown");
    assert_eq!(r.etag, Some("\"abc\"".to_string()));
}
