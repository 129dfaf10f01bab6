use agentgif::{clear_credentials, config_dir, config_path, get_api_key, save_credentials, Config};

#[test]
fn test_config_default() {
    let cfg = Config::default();
    assert!(cfg.api_key.is_empty());
    assert!(cfg.username.is_empty());
}

#[test]
fn test_config_dir_not_empty() {
    let system = dirs::config_dir().map(|p| p.to_string_lossy().into_owned());
    let dir = config_dir(system.as_deref());
    assert!(!dir.is_empty());
}

#[test]
fn config_dir_and_path_are_joined() {
    let sep = std::path::MAIN_SEPARATOR;
    assert_eq!(config_dir(Some("/home/u/.config")), format!("/home/u/.config{sep}agentgif"));
    assert_eq!(config_dir(None), format!(".{sep}agentgif"));
    assert_eq!(
        config_path(Some("/cfg")),
        format!("/cfg{sep}agentgif{sep}config.json")
    );
    assert_eq!(config_dir(Some("")), "agentgif");
}

#[test]
fn saved_credentials_are_read_back_and_cleared() {
    let saved = save_credentials(Config::default(), "test-key", "testuser");
    assert_eq!(get_api_key(&saved), "test-key");
    assert_eq!(saved.username, "testuser");
    let cleared = clear_credentials(saved);
    assert_eq!(get_api_key(&cleared), "");
    assert_eq!(cleared.username, "");
}

#[test]
fn config_dir_after_trailing_slash_adds_no_separator() {
    assert_eq!(config_dir(Some("/cfg/")), "/cfg/agentgif");
    assert_eq!(config_path(Some("")), format!("agentgif{}config.json", std::path::MAIN_SEPARATOR));
}
