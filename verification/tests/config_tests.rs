use crstop::config::{
    api_key_from_auth, check_codex_config, mask_key, normalize_root_url, settings_from_parts, AuthJson,
    CodexChoice, CodexConfig, ConfigError, ProviderConfig,
};

fn crs_config(auth_method: &str) -> CodexConfig {
    CodexConfig {
        model_provider: Some("crs".to_string()),
        preferred_auth_method: Some(auth_method.to_string()),
        model_providers: Some(vec![(
            "crs".to_string(),
            ProviderConfig { base_url: Some("http://crs.example.invalid:6868/openai/".to_string()) },
        )]),
    }
}

#[test]
fn normalizes_url_without_openai_suffix() {
    assert_eq!(normalize_root_url("http://host:6868/").unwrap(), "http://host:6868");
    assert_eq!(normalize_root_url("http://host:6868/openai").unwrap(), "http://host:6868");
}

#[test]
fn masks_api_key_without_leaking_middle() {
    assert_eq!(
        mask_key("test-api-key-for-unit-tests-abcdefghijklmnopqrstuvwxyz"),
        "test-ap...wxyz"
    );
}

#[test]
fn parses_codex_config_and_normalizes_openai_url() {
    let choice = check_codex_config(&crs_config("apikey")).unwrap();
    let auth = AuthJson {
        openai_api_key: Some("test-api-key-for-unit-tests-abcdefghijklmnopqrstuvwxyz".to_string()),
    };
    let key = api_key_from_auth(&auth, "/tmp/auth.json").unwrap();
    let settings = settings_from_parts("/tmp/config.toml".to_string(), choice, key).unwrap();
    assert_eq!(settings.provider, "crs");
    assert_eq!(settings.root_url, "http://crs.example.invalid:6868");
    assert_eq!(settings.raw_base_url, "http://crs.example.invalid:6868/openai/");
    assert!(settings.api_key.starts_with("test-api"));
}

#[test]
fn resolves_apikey_method_from_codex_auth_json() {
    let auth = AuthJson {
        openai_api_key: Some("test-api-key-from-auth-json-abcdefghijklmnopqrstuvwxyz".to_string()),
    };
    let key = api_key_from_auth(&auth, "/tmp/auth.json").unwrap();
    assert_eq!(key, "test-api-key-from-auth-json-abcdefghijklmnopqrstuvwxyz");
}

#[test]
fn rejects_using_preferred_auth_method_as_api_key() {
    let err = check_codex_config(&crs_config("test-api-key-should-not-be-read-from-config"))
        .unwrap_err()
        .message();
    assert!(err.contains("unsupported preferred_auth_method"));
    assert!(!err.contains("test-api-key"));
}

#[test]
fn reports_each_missing_config_field_in_order() {
    let mut cfg = crs_config("apikey");
    cfg.model_provider = None;
    assert_eq!(check_codex_config(&cfg).unwrap_err(), ConfigError::MissingModelProvider);
    assert_eq!(ConfigError::MissingModelProvider.message(), "Codex config missing model_provider");

    let mut cfg = crs_config("apikey");
    cfg.model_providers = None;
    assert_eq!(check_codex_config(&cfg).unwrap_err(), ConfigError::MissingModelProviders);

    let mut cfg = crs_config("apikey");
    cfg.model_provider = Some("other".to_string());
    let err = check_codex_config(&cfg).unwrap_err();
    assert_eq!(err, ConfigError::MissingProviderEntry("other".to_string()));
    assert_eq!(err.message(), "Codex config missing [model_providers.other]");

    let mut cfg = crs_config("apikey");
    cfg.model_providers = Some(vec![("crs".to_string(), ProviderConfig { base_url: None })]);
    let err = check_codex_config(&cfg).unwrap_err();
    assert_eq!(err.message(), "[model_providers.crs] missing base_url");

    let mut cfg = crs_config("apikey");
    cfg.preferred_auth_method = None;
    let err = check_codex_config(&cfg).unwrap_err();
    assert_eq!(err.message(), "Codex config missing preferred_auth_method");
}

#[test]
fn blank_or_missing_api_key_is_rejected() {
    let blank = AuthJson { openai_api_key: Some("  \t ".to_string()) };
    let err = api_key_from_auth(&blank, "/home/u/.codex/auth.json").unwrap_err();
    assert_eq!(err.message(), "/home/u/.codex/auth.json missing OPENAI_API_KEY");
    let missing = AuthJson { openai_api_key: None };
    assert!(api_key_from_auth(&missing, "a.json").is_err());
    let padded = AuthJson { openai_api_key: Some(" k ".to_string()) };
    assert_eq!(api_key_from_auth(&padded, "a.json").unwrap(), " k ");
}

#[test]
fn normalize_trims_whitespace_and_rejects_other_schemes() {
    assert_eq!(normalize_root_url("  https://relay.example/openai//  ").unwrap(), "https://relay.example");
    assert_eq!(normalize_root_url("http://h/openai/openai").unwrap(), "http://h/openai");
    let err = normalize_root_url("ftp://host/").unwrap_err();
    assert_eq!(err, ConfigError::InvalidBaseUrl("ftp://host/".to_string()));
    assert_eq!(err.message(), "invalid CRS base_url: ftp://host/");
    assert!(normalize_root_url("/openai").is_err());
}

#[test]
fn invalid_base_url_fails_settings() {
    let choice = CodexChoice { provider: "crs".to_string(), raw_base_url: "crs.local".to_string() };
    let err = settings_from_parts("c".to_string(), choice, "k".to_string()).unwrap_err();
    assert_eq!(err.message(), "invalid CRS base_url: crs.local");
}

#[test]
fn short_keys_are_fully_masked() {
    assert_eq!(mask_key("short-key"), "***");
    assert_eq!(mask_key("exactly12chr"), "***");
    assert_eq!(mask_key("thirteen-char"), "thirtee...char");
}

#[test]
fn fingerprint_is_hex_sha256_of_url_nul_key() {
    // SHA-256 of the bytes "a", 0x00, "b".
    let f = crstop::config::fingerprint("a", "b");
    assert_eq!(f.len(), 64);
    assert!(f.chars().all(|c| c.is_ascii_hexdigit() && !c.is_ascii_uppercase()));
    assert_ne!(f, crstop::config::fingerprint("a", "c"));
    assert_ne!(f, crstop::config::fingerprint("ab", ""));
    // SHA-256 of the empty root URL, a zero byte and an empty key: the digest of the single byte 0x00.
    assert_eq!(
        crstop::config::fingerprint("", ""),
        "6e340b9cffb37a989ca544e6bb780a2c78901d3fb33738768511a30617afa01d"
    );
}

#[test]
fn hex_string_writes_two_lower_case_digits_per_byte() {
    assert_eq!(crstop::config::hex_string(&[0x00, 0x0f, 0xa5, 0xff]), "000fa5ff");
    assert_eq!(crstop::config::hex_string(&[]), "");
}
