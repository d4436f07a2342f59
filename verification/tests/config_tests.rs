use etoro_backend::config::Config;
use etoro_backend::config::ConfigError;

fn s(v: &str) -> Option<String> {
    Some(v.to_string())
}

#[test]
fn all_set() {
    let c = Config::from_env_values(s("https://api"), s("a"), s("u"), s("0.0.0.0:9000"), s("http://localhost:5173")).unwrap();
    assert_eq!(c.etoro_base_url, "https://api");
    assert_eq!(c.etoro_api_key, "a");
    assert_eq!(c.etoro_user_key, "u");
    assert_eq!(c.bind_addr, "0.0.0.0:9000");
    assert_eq!(c.cors_origin.as_deref(), Some("http://localhost:5173"));
}

#[test]
fn bind_addr_defaults() {
    let c = Config::from_env_values(s("https://api"), s("a"), s("u"), None, None).unwrap();
    assert_eq!(c.bind_addr, "127.0.0.1:8000");
    assert!(c.cors_origin.is_none());
}

#[test]
fn first_missing_variable_reported() {
    let e = Config::from_env_values(None, None, None, None, None).err().unwrap();
    assert!(matches!(e, ConfigError::MissingVar("ETORO_BASE_URL")));
    assert_eq!(e.message(), "Missing environment variable: ETORO_BASE_URL");
    let e = Config::from_env_values(s("x"), None, s("u"), None, None).err().unwrap();
    assert!(matches!(e, ConfigError::MissingVar("ETORO_API_KEY")));
    let e = Config::from_env_values(s("x"), s("a"), None, None, None).err().unwrap();
    assert!(matches!(e, ConfigError::MissingVar("ETORO_USER_KEY")));
    assert_eq!(e.message(), "Missing environment variable: ETORO_USER_KEY");
}

#[test]
fn keys_hidden_in_logs() {
    let c = Config::from_env_values(s("https://api"), s("secret-a"), s("secret-u"), None, s("o")).unwrap();
    let r = c.redacted();
    assert_eq!(r.etoro_base_url, "https://api");
    assert_eq!(r.etoro_api_key, "[REDACTED]");
    assert_eq!(r.etoro_user_key, "[REDACTED]");
    assert_eq!(r.bind_addr, "127.0.0.1:8000");
    assert_eq!(r.cors_origin.as_deref(), Some("o"));
}
