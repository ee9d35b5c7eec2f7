use subfinder::config::{Config, ConfigError, DEFAULT_CONCURRENCY};
use subfinder::request::request_url;
use subfinder::status::is_success_status;

#[test]
fn url_carries_key_and_domain() {
    let u = request_url("k3y", b"example.com");
    assert_eq!(
        String::from_utf8(u).unwrap(),
        "https://worker.vktools.com/api/subdomainfinder.php?key=k3y&domain=example.com"
    );
}

#[test]
fn success_statuses() {
    assert!(is_success_status(200));
    assert!(is_success_status(204));
    assert!(is_success_status(299));
    assert!(!is_success_status(199));
    assert!(!is_success_status(300));
    assert!(!is_success_status(404));
    assert!(!is_success_status(500));
}

#[test]
fn config_accepts_valid_settings() {
    let c = Config::new("key".to_string(), DEFAULT_CONCURRENCY).unwrap();
    assert_eq!(c.apikey, "key");
    assert_eq!(c.concurrency, 10);
}

#[test]
fn config_refuses_zero_concurrency() {
    assert!(matches!(Config::new("key".to_string(), 0), Err(ConfigError::ZeroConcurrency)));
}

#[test]
fn config_refuses_empty_key() {
    assert!(matches!(Config::new(String::new(), 0), Err(ConfigError::EmptyApiKey)));
    assert!(matches!(Config::new(String::new(), 3), Err(ConfigError::EmptyApiKey)));
}
