use triplewrapper_core::config::{config_candidates, ConfigManager};

#[test]
fn test_default_config() {
    let manager = ConfigManager::default();
    let config = manager.get();

    assert_eq!(config.default_compression_level, 5);
    assert_eq!(f32::from_bits(config.default_compression_ratio_bits), 0.5);
    assert!(config.verify_checksums);
}

#[test]
fn config_manager_reset_and_paths() {
    let mut manager = ConfigManager::default();
    assert_eq!(manager.config_path(), None);
    manager.get_mut().default_compression_level = 9;
    assert_eq!(manager.get().default_compression_level, 9);
    manager.reset();
    assert_eq!(manager.get().default_compression_level, 5);
    assert_eq!(manager.save_path(Some("/home/u/.config")), "/home/u/.config/triplewrapper/config.toml");
    assert_eq!(manager.save_path(None), "./triplewrapper/config.toml");
    let loaded = ConfigManager::load(Default::default(), Some("/etc/tw.toml".to_string()));
    assert_eq!(loaded.config_path(), Some("/etc/tw.toml"));
    assert_eq!(loaded.save_path(Some("/x")), "/etc/tw.toml");
    assert_eq!(
        config_candidates(Some("/home/u/.config")),
        vec!["/home/u/.config/triplewrapper/config.toml".to_string(), "triplewrapper.toml".to_string()]
    );
    assert_eq!(config_candidates(None), vec!["triplewrapper.toml".to_string()]);
}
