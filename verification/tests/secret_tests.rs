use score_gateway::secret::JwtConfig;
use score_gateway::secret::generate_secret;

#[test]
fn test_generate_secret() {
    let secret = generate_secret();
    let secret2 = generate_secret();

    assert_eq!(secret.len(), 32, "Length of secret is not equal to 32!");
    assert!(
        secret.chars().all(|c| c.is_alphanumeric()),
        "Secret is not Alphanumeric!"
    );
    assert_ne!(secret, secret2, "Secrets are same!");
}

/// A fresh configuration grants sixty seconds of leeway and checks expiry.
#[test]
fn jwt_config_defaults() {
    let config = JwtConfig::new("initial".to_string());
    assert_eq!(config.secret, "initial");
    assert_eq!(config.leeway, 60);
    assert!(config.validate_exp);
    assert!(config.validate_nbf);
}

/// Rotation swaps the secret wholesale and leaves the policy alone.
#[test]
fn rotation_replaces_secret_only() {
    let mut config = JwtConfig::new("initial".to_string());
    config.rotate("replacement".to_string());
    assert_eq!(config.secret, "replacement");
    assert_eq!(config.leeway, 60);
    assert!(config.validate_exp);

    config.rotate_fresh();
    assert_ne!(config.secret, "replacement");
    assert_eq!(config.secret.len(), 32);
    assert!(config.secret.chars().all(|c| c.is_ascii_alphanumeric()));
    assert_eq!(config.leeway, 60);
}
