use sshwarden::doctor::{
    doctor_checks, AgentEndpointFacts, DaemonStatusFacts, DoctorFacts, IncludeFixFacts, SelectorDirFacts,
    SshConfigFacts,
};

fn status() -> DaemonStatusFacts {
    DaemonStatusFacts {
        agent_running: true,
        authenticated: false,
        pending_sync: true,
        has_local_key_cache: false,
        has_vault_file: true,
        legacy_migration_available: None,
        stale_cache: true,
        stale_cache_error: None,
        notification_state: "failed".to_string(),
        notification_url: None,
        notification_error: Some("boom".to_string()),
    }
}

fn summary(facts: &DoctorFacts) -> Vec<(String, bool, String)> {
    doctor_checks(facts).into_iter().map(|c| (c.name, c.ok, c.message)).collect()
}

#[test]
fn doctor_reports_every_section_in_order() {
    let facts = DoctorFacts {
        fix: false,
        discovery: Ok(Some("https://n.example/notifications".to_string())),
        notifications_url: "https://vault.example/notifications".to_string(),
        daemon: Ok(status()),
        selectors: SelectorDirFacts::Resolved { dir: "/data/keys".to_string(), count: 7, exists: true },
        agent_endpoint: AgentEndpointFacts::Present {
            path: "/run/a.sock".to_string(),
            mode: Ok(0o644),
            ssh_auth_sock: Some("/run/a.sock".to_string()),
        },
        ssh_config: Some(SshConfigFacts {
            include_path: "/h/.ssh/sshwarden_config".to_string(),
            config_path: "/h/.ssh/config".to_string(),
            include_file_exists: true,
            managed_content: "Host a\n  IdentityFile x\n  IdentitiesOnly yes\n".to_string(),
            fix: None,
            has_include: false,
        }),
    };
    let checks = summary(&facts);
    let names: Vec<&str> = checks.iter().map(|c| c.0.as_str()).collect();
    assert_eq!(
        names,
        vec![
            "server.discovery",
            "notification.resolved_url",
            "daemon",
            "agent.serving",
            "session",
            "sync.pending",
            "local_key_cache.migration",
            "local_key_cache.stale",
            "notification",
            "key_selectors",
            "ssh.max_auth_tries",
            "agent_endpoint.unix_socket",
            "agent_endpoint.ssh_auth_sock",
            "ssh_config.include_file",
            "ssh_config.selector_rules",
            "ssh_config.include",
        ]
    );
    assert_eq!(checks[0].2, "/api/config advertises notifications URL: https://n.example/notifications");
    assert_eq!(checks[7].2, "Local Key Cache is stale: unknown refresh error");
    assert_eq!(checks[8], ("notification".to_string(), false, "Notification client failed: boom".to_string()));
    assert_eq!(checks[9].2, "Found 7 key selector .pub file(s) in /data/keys");
    assert_eq!(
        checks[10].2,
        "7 selector files/keys detected; without Host-specific IdentityFile + IdentitiesOnly yes, OpenSSH servers may fail with MaxAuthTries"
    );
    assert_eq!(checks[11], (
        "agent_endpoint.unix_socket".to_string(),
        false,
        "Agent socket /run/a.sock has mode 644, expected 0600".to_string()
    ));
    assert!(checks[12].1);
    assert!(checks[14].1);
    assert_eq!(
        checks[15].2,
        "/h/.ssh/config does not include SSHWarden managed config; run `sshwarden ssh-config --write` if desired"
    );
}

#[test]
fn doctor_reports_an_unreachable_daemon_and_repairs() {
    let facts = DoctorFacts {
        fix: true,
        discovery: Err("timeout".to_string()),
        notifications_url: "u".to_string(),
        daemon: Err("refused".to_string()),
        selectors: SelectorDirFacts::Resolved { dir: "/k".to_string(), count: 0, exists: false },
        agent_endpoint: AgentEndpointFacts::Missing("/run/a.sock".to_string()),
        ssh_config: Some(SshConfigFacts {
            include_path: "/i".to_string(),
            config_path: "/c".to_string(),
            include_file_exists: false,
            managed_content: String::new(),
            fix: Some(IncludeFixFacts {
                dir_error: None,
                include_file: Some(Ok(())),
                include_line: Err("read-only".to_string()),
            }),
            has_include: false,
        }),
    };
    let checks = summary(&facts);
    assert_eq!(checks[0].0, "doctor.fix");
    assert_eq!(checks[1].2, "/api/config discovery failed; built-in URL rules will be used: timeout");
    assert_eq!(checks[3], ("daemon".to_string(), false, "SSHWarden daemon control channel is not reachable: refused".to_string()));
    assert_eq!(checks[4].2, "Key selector directory does not exist: /k");
    assert_eq!(checks[5].2, "Agent socket not present at /run/a.sock; is the daemon running?");
    assert_eq!(checks[6].2, "Managed SSH config does not exist: /i");
    assert_eq!(checks[7], ("doctor.fix.include_file".to_string(), true, "Created managed SSH config placeholder: /i".to_string()));
    assert_eq!(checks[8], ("doctor.fix.include".to_string(), false, "Failed to add SSHWarden Include line to /c: read-only".to_string()));
    assert_eq!(checks.len(), 10);
}

#[test]
fn doctor_without_ssh_paths_warns_once() {
    let facts = DoctorFacts {
        fix: false,
        discovery: Ok(None),
        notifications_url: "u".to_string(),
        daemon: Err("x".to_string()),
        selectors: SelectorDirFacts::Unresolved("no home".to_string()),
        agent_endpoint: AgentEndpointFacts::WindowsPipe { exists: true },
        ssh_config: None,
    };
    let checks = summary(&facts);
    assert_eq!(checks.last().unwrap().0, "ssh_config");
    assert_eq!(checks[3].2, "Could not determine key selector directory: no home");
    assert!(checks[4].1);
}
