use load_balancer::apikey::config::ApiKeyConfig;
use load_balancer::apikey::error::ApiKeyError;
use load_balancer::apikey::hash::{compute_hash, CURRENT_VERSION};
use load_balancer::apikey::parse::parse;
use load_balancer::apikey::token::{generate, generate_with_data};
use load_balancer::apikey::verify::{verify, verify_parsed};

fn id_from(tag: u8) -> Vec<u8> {
    vec![tag; 16]
}

#[test]
fn test_default_config() {
    let config = ApiKeyConfig::default();
    assert_eq!(config.prefix, "key");
    assert!(config.context_id.is_none());
}

#[test]
fn test_builder_pattern() {
    let context = id_from(7);
    let config = ApiKeyConfig::new("lb").with_context(context.clone());
    assert_eq!(config.prefix, "lb");
    assert_eq!(config.context_id, Some(context));
}

#[test]
fn test_hash_output_size() {
    let id = id_from(1);
    let secret = vec![42u8; 32];
    let hash = compute_hash(&id, 1, &None, &secret);
    assert_eq!(hash.len(), 64);
}

#[test]
fn test_hash_deterministic() {
    let id = id_from(1);
    let secret = vec![42u8; 32];
    let hash1 = compute_hash(&id, 1, &None, &secret);
    let hash2 = compute_hash(&id, 1, &None, &secret);
    assert_eq!(hash1, hash2);
}

#[test]
fn test_hash_changes_with_id() {
    let id1 = id_from(1);
    let id2 = id_from(2);
    let secret = vec![42u8; 32];
    let hash1 = compute_hash(&id1, 1, &None, &secret);
    let hash2 = compute_hash(&id2, 1, &None, &secret);
    assert_ne!(hash1, hash2);
}

#[test]
fn test_hash_changes_with_version() {
    let id = id_from(1);
    let secret = vec![42u8; 32];
    let hash1 = compute_hash(&id, 1, &None, &secret);
    let hash2 = compute_hash(&id, 2, &None, &secret);
    assert_ne!(hash1, hash2);
}

#[test]
fn test_hash_changes_with_context() {
    let id = id_from(1);
    let ctx1 = id_from(3);
    let ctx2 = id_from(4);
    let secret = vec![42u8; 32];
    let hash1 = compute_hash(&id, 1, &Some(ctx1), &secret);
    let hash2 = compute_hash(&id, 1, &Some(ctx2), &secret);
    assert_ne!(hash1, hash2);
}

#[test]
fn test_hash_changes_with_secret() {
    let id = id_from(1);
    let secret1 = vec![42u8; 32];
    let secret2 = vec![43u8; 32];
    let hash1 = compute_hash(&id, 1, &None, &secret1);
    let hash2 = compute_hash(&id, 1, &None, &secret2);
    assert_ne!(hash1, hash2);
}

#[test]
fn test_parse_valid_token() {
    let config = ApiKeyConfig::new("lb");
    let generated = generate(&config);

    let parsed = parse(&generated.token, "lb").unwrap();
    assert_eq!(parsed.id, generated.id);
    assert_eq!(parsed.version, CURRENT_VERSION);
    assert_eq!(parsed.secret().len(), 32);
}

#[test]
fn test_parse_invalid_prefix() {
    let config = ApiKeyConfig::new("lb");
    let generated = generate(&config);

    let result = parse(&generated.token, "wrong");
    assert!(matches!(result, Err(ApiKeyError::InvalidPrefix { .. })));
}

#[test]
fn test_parse_invalid_format() {
    let result = parse("invalid_token", "lb");
    assert!(matches!(result, Err(ApiKeyError::InvalidFormat)));
}

#[test]
fn test_parse_invalid_encoding() {
    // 1, 8, 9 and 0 are not base32 symbols.
    let result = parse("lb_v1_1890", "lb");
    assert!(matches!(
        result,
        Err(ApiKeyError::InvalidEncoding) | Err(ApiKeyError::InvalidFormat)
    ));
}

#[test]
fn unsupported_version_is_reported() {
    let result = parse("lb_v2_abc", "lb");
    assert!(matches!(result, Err(ApiKeyError::UnsupportedVersion(2))));
}

#[test]
fn test_generate_token_format() {
    let config = ApiKeyConfig::new("lb");
    let token = generate(&config);

    assert!(token.token.starts_with("lb_v1_"));
    let parts: Vec<&str> = token.token.split('_').collect();
    assert_eq!(parts.len(), 3);
    assert_eq!(parts[0], "lb");
    assert_eq!(parts[1], "v1");
    // 48 payload bytes spell 77 base32 symbols.
    assert_eq!(parts[2].len(), 77);
}

#[test]
fn test_generate_unique_ids() {
    let config = ApiKeyConfig::new("test");
    let token1 = generate(&config);
    let token2 = generate(&config);
    assert_ne!(token1.id, token2.id);
    assert_ne!(token1.token, token2.token);
}

#[test]
fn test_generate_with_data_returns_hash() {
    let config = ApiKeyConfig::new("test");
    let (token, data) = generate_with_data(&config);

    assert_eq!(token.id, data.id);
    assert_eq!(data.version, CURRENT_VERSION);
    assert_eq!(data.secret_hash.len(), 64);
}

#[test]
fn test_verify_valid_token() {
    let config = ApiKeyConfig::new("lb");
    let (token, data) = generate_with_data(&config);

    let result = verify(&token.token, &data, &config).unwrap();
    assert!(result);
}

#[test]
fn test_verify_invalid_secret() {
    let config = ApiKeyConfig::new("lb");
    let (token, mut data) = generate_with_data(&config);

    data.secret_hash[0] ^= 0xFF;

    let result = verify(&token.token, &data, &config).unwrap();
    assert!(!result);
}

#[test]
fn test_verify_wrong_context() {
    let ctx1 = id_from(3);
    let ctx2 = id_from(4);

    let config1 = ApiKeyConfig::new("lb").with_context(ctx1);
    let (token, data) = generate_with_data(&config1);

    let config2 = ApiKeyConfig::new("lb").with_context(ctx2);
    let result = verify(&token.token, &data, &config2).unwrap();
    assert!(!result);
}

#[test]
fn test_verify_wrong_id() {
    let config = ApiKeyConfig::new("lb");
    let (token, mut data) = generate_with_data(&config);

    data.id = id_from(99);

    let result = verify(&token.token, &data, &config).unwrap();
    assert!(!result);
}

#[test]
fn test_roundtrip() {
    let context = id_from(7);
    let config = ApiKeyConfig::new("myapp").with_context(context);

    let (token, data) = generate_with_data(&config);

    let parsed = parse(&token.token, "myapp").unwrap();
    assert_eq!(parsed.id, data.id);

    let is_valid = verify(&token.token, &data, &config).unwrap();
    assert!(is_valid);
}

#[test]
fn verify_parsed_rejects_version_mismatch() {
    let config = ApiKeyConfig::new("lb");
    let (token, mut data) = generate_with_data(&config);
    data.version = 2;

    let parsed = parse(&token.token, "lb").unwrap();
    assert!(!verify_parsed(&parsed, &data, &config));
}

#[test]
fn secret_hash_hex_spells_the_digest() {
    let data = load_balancer::apikey::data::ApiKeyData::new(vec![0u8; 16], vec![0xabu8; 64], 1);
    assert_eq!(data.secret_hash_hex(), "ab".repeat(64));
}
