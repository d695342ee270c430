use iradio_bridge::config::{apply_env_overrides, path_join, Config, ConfigError};

#[test]
fn path_join_cases() {
    assert_eq!(path_join("/home/u", ".asoundrc"), "/home/u/.asoundrc");
    assert_eq!(path_join("/home/u/", ".asoundrc"), "/home/u/.asoundrc");
    assert_eq!(path_join("/home/u", "/etc/x"), "/etc/x");
    assert_eq!(path_join("", "rel"), "rel");
}

#[test]
fn defaults_with_home() {
    let c = Config::default_settings(Some("/home/u"));
    assert_eq!(c.port, 8765);
    assert_eq!(c.max_players, 4);
    assert_eq!(c.favourites_path, "/home/u/.local/share/iradio/favourites.json");
    assert_eq!(c.volumes_path, "/home/u/.local/share/iradio/volumes.json");
    assert!(!c.auth.enabled);
    assert_eq!(c.auth.username, "");
    assert_eq!(c.auth.password, "");
    assert!(!c.alsa.setup_alsa);
    assert_eq!(c.alsa.asoundrc_path, "/home/u/.asoundrc");
    assert_eq!(c.alsa.sample_rate, 48000);
    assert_eq!(c.alsa.buffer_frames, 4096);
    assert_eq!(c.radiobrowser.api_url, "");
    assert_eq!(c.radiobrowser.request_timeout_secs, 10);
    assert_eq!(c.audio.gains_path, "/var/lib/iradio/gains.json");
    assert_eq!(c.websocket.vu_fps, 20);
}

#[test]
fn defaults_without_home() {
    let c = Config::default_settings(None);
    assert_eq!(c.favourites_path, "/var/home/core/.local/share/iradio/favourites.json");
    assert_eq!(c.volumes_path, "/var/home/core/.local/share/iradio/volumes.json");
    assert_eq!(c.alsa.asoundrc_path, "/var/home/core/.asoundrc");
}

#[test]
fn env_overrides_apply() {
    let mut c = Config::default_settings(None);
    let r = apply_env_overrides(&mut c, Some("9000"), Some("admin".to_string()), Some("secret".to_string()));
    assert_eq!(r, Ok(()));
    assert_eq!(c.port, 9000);
    assert!(c.auth.enabled);
    assert_eq!(c.auth.username, "admin");
    assert_eq!(c.auth.password, "secret");
}

#[test]
fn empty_user_turns_auth_off() {
    let mut c = Config::default_settings(None);
    c.auth.enabled = true;
    let r = apply_env_overrides(&mut c, None, Some(String::new()), None);
    assert_eq!(r, Ok(()));
    assert!(!c.auth.enabled);
    assert_eq!(c.port, 8765);
}

#[test]
fn bad_port_is_refused() {
    let mut c = Config::default_settings(None);
    assert_eq!(apply_env_overrides(&mut c, Some("abc"), None, None), Err(ConfigError::InvalidPort));
    assert_eq!(apply_env_overrides(&mut c, Some("70000"), None, None), Err(ConfigError::InvalidPort));
    assert_eq!(apply_env_overrides(&mut c, Some(""), None, None), Err(ConfigError::InvalidPort));
    assert_eq!(apply_env_overrides(&mut c, Some("+80"), None, None), Ok(()));
    assert_eq!(c.port, 80);
}

#[test]
fn sanitised_leaves_out_credentials() {
    let mut c = Config::default_settings(Some("/h"));
    c.auth.enabled = true;
    c.auth.username = "u".to_string();
    c.auth.password = "p".to_string();
    let s = c.sanitised();
    assert_eq!(s.port, 8765);
    assert_eq!(s.max_players, 4);
    assert!(s.auth_enabled);
    assert!(!s.setup_alsa);
    assert_eq!(s.asoundrc_path, "/h/.asoundrc");
    assert_eq!(s.sample_rate, 48000);
    assert_eq!(s.buffer_frames, 4096);
    assert_eq!(s.request_timeout_secs, 10);
}
