use whispr::config::AppConfig;

#[test]
fn defaults_use_system_default_microphone() {
    assert_eq!(AppConfig::default().microphone, None);
}

#[test]
fn defaults_include_gateway_management_settings() {
    let config = AppConfig::default();
    assert!(!config.show_hud);
    assert!(config.autohide_hud);
    assert!(config.manage_gateway);
    assert_eq!(config.stt_provider, "auto");
    assert_eq!(config.whisper_model, "large-v3");
    assert_eq!(config.whisper_device, "auto");
    assert_eq!(config.whisper_compute, "default");
}

#[test]
fn defaults_of_the_core_settings() {
    let c = AppConfig::default();
    assert_eq!(c.gateway_url, "ws://127.0.0.1:8765/v1/stream");
    assert_eq!(c.hotkey, "ctrl+shift+space");
    assert_eq!(c.language, "auto");
    assert_eq!(c.polish_mode, "fillers");
    assert_eq!(c.insert_method, "auto");
    assert_eq!(c.chunk_ms, 100);
    assert!(!c.auto_stop);
    assert!(c.dictionary.is_empty() && c.snippets.is_empty());
}

#[test]
fn saving_detects_gateway_and_hotkey_changes() {
    let prev = AppConfig::default();
    let same = AppConfig::default();
    assert!(!same.gateway_changed(&prev));
    assert!(!same.hotkey_changed(&prev));

    let lang = AppConfig { language: "ru".into(), show_hud: true, ..AppConfig::default() };
    assert!(!lang.gateway_changed(&prev));

    for changed in [
        AppConfig { manage_gateway: false, ..AppConfig::default() },
        AppConfig { gateway_url: "ws://127.0.0.1:9000/v1/stream".into(), ..AppConfig::default() },
        AppConfig { stt_provider: "mock".into(), ..AppConfig::default() },
        AppConfig { whisper_model: "small".into(), ..AppConfig::default() },
        AppConfig { whisper_device: "cpu".into(), ..AppConfig::default() },
        AppConfig { whisper_compute: "int8".into(), ..AppConfig::default() },
    ] {
        assert!(changed.gateway_changed(&prev));
    }
    let hk = AppConfig { hotkey: "ctrl+alt+d".into(), ..AppConfig::default() };
    assert!(hk.hotkey_changed(&prev));
    assert!(!hk.gateway_changed(&prev));
}
