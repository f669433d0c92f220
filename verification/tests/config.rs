use sshwarden::config::{
    expand_home_path_with_home, managed_ssh_config_path, Config, ConfigError, Platform, StorageEnv, UnlockMethod,
};

fn env_with_home(home: Option<&str>) -> StorageEnv {
    StorageEnv {
        platform: Platform::Linux,
        sshwarden_home: None,
        sshwarden_portable: None,
        sshwarden_runtime_dir: None,
        sshwarden_device_id: None,
        exe_dir: None,
        portable_probe: None,
        home: home.map(|h| h.to_string()),
        unix_home: home.map(|h| h.to_string()),
        appdata: None,
        xdg_config_home: None,
        xdg_runtime_dir: None,
        username: None,
        hostname: None,
    }
}

#[test]
fn expands_tilde_paths() {
    let home = "/home/alice";
    assert_eq!(expand_home_path_with_home("~", home).unwrap(), home);
    assert_eq!(
        expand_home_path_with_home("~/sshwarden_config", home).unwrap(),
        "/home/alice/sshwarden_config"
    );
    assert_eq!(
        expand_home_path_with_home(r"~\sshwarden_config", home).unwrap(),
        "/home/alice/sshwarden_config"
    );
}

#[test]
fn rejects_empty_managed_ssh_config_path() {
    let mut config = Config::default();
    config.ssh_config.managed_path = Some(" \t\n ".to_string());

    let err = managed_ssh_config_path(&config, &env_with_home(Some("/home/alice"))).unwrap_err();

    assert!(err
        .message()
        .contains("ssh_config.managed_path is present but empty"));
}

#[test]
fn rejects_tilde_user_paths() {
    let home = "/home/alice";
    assert!(expand_home_path_with_home("~bob/sshwarden_config", home).is_err());
}

#[test]
fn leaves_non_tilde_paths_unchanged() {
    let home = "/home/alice";
    assert_eq!(
        expand_home_path_with_home("relative/sshwarden_config", home).unwrap(),
        "relative/sshwarden_config"
    );
}

#[test]
fn empty_configured_path_is_refused() {
    assert_eq!(expand_home_path_with_home("   ", "/home/alice"), Err(ConfigError::EmptyPath));
    assert_eq!(
        expand_home_path_with_home("~bob", "/home/alice"),
        Err(ConfigError::UnsupportedTilde)
    );
}

#[test]
fn sshwarden_home_decides_the_data_dir() {
    let mut env = env_with_home(Some("/home/alice"));
    env.sshwarden_home = Some("/srv/sshwarden".to_string());
    assert_eq!(sshwarden::config::config_dir(&env).unwrap(), "/srv/sshwarden");
    assert_eq!(
        sshwarden::config::config_path(&env).unwrap(),
        "/srv/sshwarden/config.toml"
    );
}

#[test]
fn linux_data_dir_follows_xdg_config_home() {
    let mut env = env_with_home(Some("/home/alice"));
    env.xdg_config_home = Some("/home/alice/.cfg".to_string());
    assert_eq!(
        sshwarden::config::config_dir(&env).unwrap(),
        "/home/alice/.cfg/sshwarden"
    );
}

#[test]
fn missing_home_is_reported() {
    let env = env_with_home(None);
    assert_eq!(
        sshwarden::config::user_ssh_config_path(&env),
        Err(ConfigError::NoHome)
    );
}

#[test]
fn device_ids_are_sanitized() {
    assert_eq!(sshwarden::config::sanitize_device_id("  My Laptop!! "), "my-laptop");
    assert_eq!(sshwarden::config::sanitize_device_id("---"), "device");
}

#[test]
fn notifications_url_for_hosted_and_self_hosted() {
    assert_eq!(
        sshwarden::config::default_notifications_url("https://vault.bitwarden.com/"),
        "https://notifications.bitwarden.com"
    );
    assert_eq!(
        sshwarden::config::default_notifications_url("https://vw.example.org"),
        "https://vw.example.org/notifications"
    );
}

#[test]
fn windows_starts_with_windows_hello() {
    assert_eq!(UnlockMethod::for_platform(Platform::Windows), UnlockMethod::WindowsHello);
    assert_eq!(UnlockMethod::for_platform(Platform::Linux), UnlockMethod::Password);
    assert_eq!(Config::default_for(Platform::Windows).unlock.method, UnlockMethod::WindowsHello);
    assert_eq!(Config::default_for(Platform::MacOs).unlock.method, UnlockMethod::Password);
    assert_eq!(Config::default_for(Platform::Windows).agent.sync_interval, 300);
}

#[test]
fn device_ids_are_lowercase_ascii() {
    assert_eq!(sshwarden::config::sanitize_device_id("ÄBC-Ünï"), "bc-n");
    assert_eq!(sshwarden::config::sanitize_device_id("Host.Name_1"), "host.name_1");
}
