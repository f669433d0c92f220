use sshwarden::config::{Platform, SshConfigPathStyle};
use sshwarden::ssh_config::{
    config_with_include_line, config_without_include_line, home_relative_path_with_home,
    include_line, include_line_with_style, legacy_unquoted_include_line,
    line_matches_sshwarden_include, path_arg_with_style, quote_ssh_config_arg,
};

#[test]
fn quotes_paths_with_spaces() {
    assert_eq!(
        quote_ssh_config_arg("/tmp/Application Support/sshwarden_config", Platform::Linux),
        "\"/tmp/Application Support/sshwarden_config\""
    );
}

#[test]
fn escapes_quotes_inside_paths() {
    assert_eq!(
        quote_ssh_config_arg("/tmp/a\"b/sshwarden_config", Platform::Linux),
        "\"/tmp/a\\\"b/sshwarden_config\""
    );
}

#[test]
fn include_match_accepts_quoted_and_legacy_unquoted() {
    let path = "/tmp/Application Support/sshwarden_config";
    assert!(line_matches_sshwarden_include(&include_line(path, Platform::Linux), path, None, Platform::Linux));
    assert!(line_matches_sshwarden_include(
        &legacy_unquoted_include_line(path),
        path,
        None,
        Platform::Linux
    ));
    assert!(!line_matches_sshwarden_include(
        "Include /tmp/other_config",
        path,
        None,
        Platform::Linux
    ));
}

#[test]
fn home_relative_rewrites_paths_under_home() {
    let home = "/home/alice";
    assert_eq!(
        home_relative_path_with_home("/home/alice/OneDrive/keys/id.pub", home, Platform::Linux),
        Some("~/OneDrive/keys/id.pub".to_string())
    );
}

#[test]
fn home_relative_path_equal_to_home_is_tilde() {
    let home = "/home/alice";
    assert_eq!(
        home_relative_path_with_home("/home/alice", home, Platform::Linux),
        Some("~".to_string())
    );
}

#[test]
fn home_relative_path_outside_home_is_none() {
    let home = "/home/alice";
    assert_eq!(
        home_relative_path_with_home("/etc/ssh/keys/id.pub", home, Platform::Linux),
        None
    );
}

#[test]
fn home_relative_style_matches_too() {
    let path = "/home/alice/.ssh/sshwarden_config";
    let styled = include_line_with_style(path, SshConfigPathStyle::HomeRelative, Some("/home/alice"), Platform::Linux);
    assert_eq!(styled, "Include \"~/.ssh/sshwarden_config\"");
    assert!(line_matches_sshwarden_include(&styled, path, Some("/home/alice"), Platform::Linux));
    assert!(line_matches_sshwarden_include(&format!("  {}  ", styled), path, Some("/home/alice"), Platform::Linux));
    assert_eq!(
        path_arg_with_style("/opt/x", SshConfigPathStyle::HomeRelative, Some("/home/alice"), Platform::Linux),
        "\"/opt/x\""
    );
}

#[test]
fn include_line_is_added_once() {
    let path = "/home/alice/.ssh/sshwarden_config";
    let added = config_with_include_line("Host a\n  User b", path, None, Platform::Linux).unwrap();
    assert_eq!(
        added,
        "Host a\n  User b\n\n# SSHWarden managed key selector snippets\nInclude \"/home/alice/.ssh/sshwarden_config\"\n"
    );
    assert_eq!(config_with_include_line(&added, path, None, Platform::Linux), None);
}

#[test]
fn include_line_is_removed_with_its_marker() {
    let path = "/home/alice/.ssh/sshwarden_config";
    let original = "Host a\n  User b\n";
    let added = config_with_include_line(original, path, None, Platform::Linux).unwrap();
    assert_eq!(config_without_include_line(&added, path, None, Platform::Linux), Some(original.to_string()));
    assert_eq!(config_without_include_line(original, path, None, Platform::Linux), None);
}

#[test]
fn legacy_include_line_is_removed_too() {
    let path = "/tmp/sshwarden_config";
    let text = "Host x\n# SSHWarden managed key selector snippets\nInclude /tmp/sshwarden_config\nHost y\n";
    assert_eq!(
        config_without_include_line(text, path, None, Platform::Linux),
        Some("Host x\nHost y\n".to_string())
    );
}

#[test]
fn removal_leaves_no_include_line() {
    let path = "/tmp/sshwarden_config";
    let text = "Include \"/tmp/sshwarden_config\"\r\nHost x\r\n  Include /tmp/sshwarden_config\r\n";
    let out = config_without_include_line(text, path, None, Platform::Linux).unwrap();
    assert!(!out.lines().any(|l| line_matches_sshwarden_include(l, path, None, Platform::Linux)));
    assert_eq!(out, "Host x\n");
}

#[test]
fn install_then_uninstall_restores_empty_config() {
    let path = "/home/bob/.ssh/sshwarden_config";
    let added = config_with_include_line("", path, None, Platform::Linux).unwrap();
    assert_eq!(config_without_include_line(&added, path, None, Platform::Linux), Some(String::new()));
}

#[test]
fn windows_paths_use_forward_slashes() {
    assert_eq!(quote_ssh_config_arg("a\\b", Platform::Windows), "\"a/b\"");
    assert_eq!(
        quote_ssh_config_arg("C:\\Users\\Alice\\.ssh\\x", Platform::Windows),
        "\"C:/Users/Alice/.ssh/x\""
    );
    assert_eq!(quote_ssh_config_arg("a\\b", Platform::Linux), "\"a\\\\b\"");
    let path = "C:\\Users\\Alice\\.ssh\\sshwarden_config";
    assert_eq!(include_line(path, Platform::Windows), "Include \"C:/Users/Alice/.ssh/sshwarden_config\"");
    assert!(line_matches_sshwarden_include(
        "Include \"C:/Users/Alice/.ssh/sshwarden_config\"",
        path,
        None,
        Platform::Windows
    ));
}

// The paths are written in this host's path syntax: only the case of the home
// directory's components differs from the file's.
#[test]
fn home_relative_path_is_case_insensitive_on_windows() {
    let home = "/users/administrator";
    assert_eq!(
        home_relative_path_with_home("/Users/Administrator/OneDrive/keys/id.pub", home, Platform::Windows),
        Some("~/OneDrive/keys/id.pub".to_string())
    );
    assert_eq!(
        home_relative_path_with_home("/Users/Administrator", home, Platform::Windows),
        Some("~".to_string())
    );
    assert_eq!(
        home_relative_path_with_home("/Users/Administrator/OneDrive/keys/id.pub", home, Platform::Linux),
        None
    );
    assert_eq!(
        home_relative_path_with_home("/Users/Other/id.pub", home, Platform::Windows),
        None
    );
}
