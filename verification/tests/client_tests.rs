use sindri::client::{
    archive_filename_ok, clone_preflight, validate_tags, AuthOptions, CloneError, RetryOptions,
    SindriClient,
};
use sindri::poller::{JobStatus, PollingOptions};

#[test]
fn test_new_client_with_options() {
    let auth_options = AuthOptions {
        api_key: Some("test_key".to_string()),
        base_url: Some("https://fake.sindri.app".to_string()),
    };
    let client = SindriClient::new(Some(auth_options), None);

    assert_eq!(client.api_key(), Some("test_key"));
    assert_eq!(client.base_url(), "https://fake.sindri.app");
}

#[test]
fn client_tests_test_new_client_with_options() {
    let auth_options = AuthOptions {
        api_key: Some("test_key".to_string()),
        base_url: Some("https://dev.sindri.app".to_string()),
    };
    let client = SindriClient::new(Some(auth_options), None);

    assert_eq!(client.api_key(), Some("test_key"));
    assert_eq!(client.base_url(), "https://dev.sindri.app");
}

#[test]
fn test_new_client_with_env_vars() {
    let client = SindriClient::new_with_env(
        None,
        Some("env_test_key".to_string()),
        Some("https://example.com".to_string()),
        None,
    );
    assert_eq!(client.api_key(), Some("env_test_key"));
    assert_eq!(client.base_url(), "https://example.com");
}

#[test]
fn test_auth_options_override_env_vars() {
    let auth_options = AuthOptions {
        api_key: Some("test_key".to_string()),
        base_url: Some("https://other.example.com".to_string()),
    };
    let client = SindriClient::new_with_env(
        Some(auth_options),
        Some("env_test_key".to_string()),
        Some("https://example.com".to_string()),
        None,
    );
    assert_eq!(client.api_key(), Some("test_key"));
    assert_eq!(client.base_url(), "https://other.example.com");
}

#[test]
fn test_new_client_auth_defaults() {
    let client = SindriClient::new_with_env(None, None, None, None);
    assert_eq!(client.api_key(), None);
    assert_eq!(client.base_url(), "https://sindri.app");
}

#[test]
fn test_builder_methods() {
    let client = SindriClient::default()
        .with_api_key("test_key".to_string())
        .with_base_url("https://example.com".to_string())
        .with_polling_interval(5000)
        .with_timeout(300000);

    assert_eq!(client.api_key(), Some("test_key"));
    assert_eq!(client.base_url(), "https://example.com");
    assert_eq!(client.polling_options.interval, 5000);
    assert_eq!(client.polling_options.timeout, Some(300000));
}

#[test]
fn test_with_no_timeout() {
    let client = SindriClient::default().with_timeout(300000).with_no_timeout();
    assert_eq!(client.polling_options.timeout, None);
}

#[test]
fn test_polling_options_custom() {
    let polling_options = PollingOptions { interval: 5000, timeout: Some(300000) };
    let client = SindriClient::new(None, Some(polling_options));

    assert_eq!(client.polling_options.interval, 5000);
    assert_eq!(client.polling_options.timeout, Some(300000));
}

#[test]
fn test_post_client_init_polling_tweaks() {
    let mut client = SindriClient::new(None, None);

    assert_eq!(client.polling_options.interval, 1000);
    assert_eq!(client.polling_options.timeout, Some(600000));

    client.polling_options.interval = 5000;
    client.polling_options.timeout = Some(300000);

    assert_eq!(client.polling_options.interval, 5000);
    assert_eq!(client.polling_options.timeout, Some(300000));
}

#[test]
fn test_retry_options_default() {
    let options = RetryOptions::default();
    assert_eq!(options.min_timeout, 1000);
    assert_eq!(options.retries, 6);
}

#[test]
fn test_circuit_create_tag_validation() {
    let tags = Some(vec!["test_t@g".to_string()]);
    let result = validate_tags(&tags);
    assert!(result.is_err());
    assert!(result.unwrap_err().contains("not a valid tag"));

    let tags = Some(vec![
        "test_tag".to_string(),
        "1-2-3-4-5-6".to_string(),
        "ಠ_ಠ".to_string(),
    ]);
    let result = validate_tags(&tags);
    assert!(result.is_err());
    assert!(result.unwrap_err().contains("ಠ_ಠ"));

    let tags = Some(vec!["test_tag".to_string(), "1-2-3-4-5-6".to_string()]);
    assert!(validate_tags(&tags).is_ok());
    assert!(validate_tags(&None).is_ok());
}

#[test]
fn test_archive_extension_allowlist() {
    assert!(archive_filename_ok(&"project.zip".to_string()));
    assert!(archive_filename_ok(&"project.tar".to_string()));
    assert!(archive_filename_ok(&"project.tar.gz".to_string()));
    assert!(archive_filename_ok(&"project.tgz".to_string()));
    assert!(archive_filename_ok(&"PROJECT.TAR.GZ".to_string()));
    assert!(!archive_filename_ok(&"some_artifact.circom".to_string()));
    assert!(!archive_filename_ok(&"archive.gz".to_string()));
    assert!(!archive_filename_ok(&"".to_string()));
}

#[test]
fn test_clone_preflight_gates() {
    assert!(clone_preflight(JobStatus::Ready, Some(1024), None).is_ok());

    let not_ready = clone_preflight(JobStatus::InProgress, Some(1024), None);
    assert!(matches!(not_ready, Err(CloneError::NotReady)));
    assert!(not_ready.unwrap_err().message().contains("ready"));

    let too_large = clone_preflight(JobStatus::Ready, Some(1000), Some(100));
    assert!(matches!(too_large, Err(CloneError::TooLarge { limit: 100 })));
    assert!(too_large.unwrap_err().message().contains("larger"));

    assert!(clone_preflight(JobStatus::Ready, None, Some(0)).is_ok());
}
