use kagi_proxy::config::{Config, ConfigError};

#[test]
fn defaults_when_unset() {
    let c = Config::from_vars(None, None, None, None, None).unwrap();
    assert_eq!(c.port, 3000);
    assert_eq!(c.kagi_base_url, "https://kagi.com");
    assert_eq!(c.kagi_session_token, None);
    assert_eq!(c.kagi_auth_header, Some("Authorization".to_string()));
    assert_eq!(c.log_level, "info");
    assert_eq!(c.bind_address(), "0.0.0.0:3000");
}

#[test]
fn values_are_taken() {
    let c = Config::from_vars(
        Some("8080".to_string()),
        Some("http://localhost".to_string()),
        Some("tok".to_string()),
        Some("X-Kagi-Token".to_string()),
        Some("debug".to_string()),
    )
    .unwrap();
    assert_eq!(c.port, 8080);
    assert_eq!(c.kagi_base_url, "http://localhost");
    assert_eq!(c.kagi_session_token, Some("tok".to_string()));
    assert_eq!(c.kagi_auth_header, Some("X-Kagi-Token".to_string()));
    assert_eq!(c.log_level, "debug");
    assert_eq!(c.bind_address(), "0.0.0.0:8080");
}

#[test]
fn ports_parse_like_u16() {
    let port = |p: &str| Config::from_vars(Some(p.to_string()), None, None, None, None).map(|c| c.port);
    assert_eq!(port("+8080"), Ok(8080));
    assert_eq!(port("0"), Ok(0));
    assert_eq!(port("65535"), Ok(65535));
    assert_eq!(port("65536"), Err(ConfigError::InvalidPort));
    assert_eq!(port(""), Err(ConfigError::InvalidPort));
    assert_eq!(port("-1"), Err(ConfigError::InvalidPort));
    assert_eq!(port(" 80"), Err(ConfigError::InvalidPort));
    assert_eq!(port("abc"), Err(ConfigError::InvalidPort));
    for p in ["+8080", "0", "65535", "65536", "", "-1", " 80", "abc", "+", "007"] {
        assert_eq!(port(p).ok(), p.parse::<u16>().ok());
    }
}

#[test]
fn address_names_the_configured_port() {
    for p in ["1", "80", "3000", "65535", "+443"] {
        let c = Config::from_vars(Some(p.to_string()), None, None, None, None).unwrap();
        let address = c.bind_address();
        let port = address.strip_prefix("0.0.0.0:").unwrap();
        assert_eq!(port.parse::<u16>().unwrap(), c.port);
    }
}
