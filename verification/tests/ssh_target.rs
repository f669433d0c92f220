use sshwarden::ssh_target::{infer_ssh_target_from_argv, parse_ssh_target};

fn argv(parts: &[&str]) -> Vec<String> {
    parts.iter().map(|s| s.to_string()).collect()
}

fn infer_from_argv(parts: &[&str]) -> Option<String> {
    infer_ssh_target_from_argv(&argv(parts))
}

#[test]
fn parses_plain_hostname() {
    assert_eq!(
        infer_from_argv(&["ssh", "github.com"]).as_deref(),
        Some("github.com")
    );
}

#[test]
fn strips_user_prefix() {
    assert_eq!(
        infer_from_argv(&["ssh", "git@github.com"]).as_deref(),
        Some("github.com")
    );
}

#[test]
fn skips_value_taking_flags_with_separate_value() {
    assert_eq!(
        infer_from_argv(&[
            "ssh",
            "-p",
            "2222",
            "-i",
            "/tmp/id",
            "-l",
            "user",
            "bastion.example.com"
        ])
        .as_deref(),
        Some("bastion.example.com")
    );
}

#[test]
fn handles_inline_short_flag_value() {
    assert_eq!(
        infer_from_argv(&["ssh", "-p2222", "host.example"]).as_deref(),
        Some("host.example")
    );
}

#[test]
fn handles_combined_short_flags() {
    assert_eq!(
        infer_from_argv(&["ssh", "-vv", "host.example"]).as_deref(),
        Some("host.example")
    );
}

#[test]
fn double_dash_terminator() {
    assert_eq!(
        infer_from_argv(&["ssh", "-v", "--", "weird-host"]).as_deref(),
        Some("weird-host")
    );
}

#[test]
fn accepts_ipv4() {
    assert_eq!(
        infer_from_argv(&["ssh", "192.168.1.10"]).as_deref(),
        Some("192.168.1.10")
    );
}

#[test]
fn accepts_scp_basename() {
    assert_eq!(
        infer_from_argv(&["scp", "file.txt", "user@host.example:/tmp"]).as_deref(),
        Some("file.txt")
    );
}

#[test]
fn rejects_non_ssh_clients() {
    assert!(infer_from_argv(&["git", "push", "origin", "main"]).is_none());
    assert!(infer_from_argv(&["bash"]).is_none());
}

#[test]
fn windows_exe_suffix_ok() {
    assert_eq!(
        infer_from_argv(&["ssh.exe", "host"]).as_deref(),
        Some("host")
    );
}

#[test]
fn no_target_returns_none() {
    assert!(infer_from_argv(&["ssh"]).is_none());
    assert!(infer_from_argv(&["ssh", "-v"]).is_none());
}

#[test]
fn strips_only_last_at() {
    assert_eq!(
        infer_from_argv(&["ssh", "weird@user@host.example"]).as_deref(),
        Some("host.example")
    );
}

#[test]
fn full_client_paths_and_case_are_accepted() {
    assert_eq!(infer_from_argv(&["/usr/bin/SSH", "h"]).as_deref(), Some("h"));
    assert_eq!(infer_from_argv(&["ssh-copy-id", "-i", "k", "u@h"]).as_deref(), Some("h"));
    assert!(infer_from_argv(&[]).is_none());
    assert_eq!(parse_ssh_target("plain"), "plain");
}

#[test]
fn target_from_program_name_and_arguments() {
    let args: Vec<String> = vec!["-p".into(), "22".into(), "alice@example.com".into()];
    assert_eq!(
        sshwarden::ssh_target::infer_ssh_target_for_program("SSH.EXE", &args),
        Some("example.com".to_string())
    );
    assert_eq!(sshwarden::ssh_target::infer_ssh_target_for_program("git", &args), None);
    let dashed: Vec<String> = vec!["-v".into(), "--".into(), "host".into()];
    assert_eq!(
        sshwarden::ssh_target::infer_ssh_target_for_program("sftp", &dashed),
        Some("host".to_string())
    );
}
