use config_types::SecretConf;

#[test]
fn test_secret() {
    let s = SecretConf::new("secret");
    assert_eq!(s.to_string(), "*".repeat(6));
}

#[test]
fn secret_masked_by_length() {
    let s = SecretConf::new("hunter2");
    let shown = s.to_string();
    assert_eq!(shown, "*******");
    assert!(!shown.contains("hunter2"));
    assert_eq!(s.expose(), "hunter2");
    assert_eq!(SecretConf::new("").to_string(), "");
    assert_eq!(SecretConf::new("é!").to_string(), "**");
}
