use sshwarden::config::Config;
use sshwarden::control::{action_for_command, ControlAction, ControlCommand, ControlResponse};
use sshwarden::daemon::{
    bind_hosts_response, build_status_response, control_precheck, notification_options,
    pin_lockout_remaining, record_pin_attempt, sync_response, ControlFacts, ControlStep,
    NotificationConnectionState, NotificationRuntimeState, PinFailureState, StatusFacts,
};

fn cmd(s: &str) -> ControlCommand {
    ControlCommand { cmd: s.to_string() }
}

#[test]
fn commands_name_actions() {
    assert!(matches!(action_for_command(&cmd("lock")), Ok(ControlAction::Lock)));
    assert!(matches!(
        action_for_command(&cmd("status-json")),
        Ok(ControlAction::Status { json: true })
    ));
    match action_for_command(&cmd("unlock-pin:12:34")) {
        Ok(ControlAction::UnlockPin { pin }) => assert_eq!(pin, "12:34"),
        _ => panic!("expected a PIN unlock"),
    }
    match action_for_command(&cmd("set-pin:")) {
        Ok(ControlAction::SetPin { pin }) => assert_eq!(pin, ""),
        _ => panic!("expected set-pin"),
    }
    match action_for_command(&cmd("frobnicate")) {
        Err(r) => {
            assert!(!r.ok);
            assert_eq!(r.error.as_deref(), Some("Unknown command: frobnicate"));
        }
        Ok(_) => panic!("expected an error"),
    }
}

#[test]
fn responses_carry_what_they_say() {
    let ok = ControlResponse::ok("done");
    assert!(ok.ok && ok.message.as_deref() == Some("done") && ok.error.is_none());
    let st = ControlResponse::status(true, 3).with_details("{}".to_string());
    assert_eq!(st.message.as_deref(), Some("Vault is locked"));
    assert_eq!(st.locked, Some(true));
    assert_eq!(st.key_count, Some(3));
    assert_eq!(st.details.as_deref(), Some("{}"));
}

fn facts() -> ControlFacts {
    ControlFacts {
        vault_locked: true,
        pin_lockout_remaining: None,
        has_local_key_cache: true,
        login_email: "a@b.c".to_string(),
        loaded_key_count: 2,
        hello_supported: false,
    }
}

fn answer(step: ControlStep) -> Option<(bool, String)> {
    match step {
        ControlStep::Proceed => None,
        ControlStep::Respond(r) => Some((r.ok, r.message.or(r.error).unwrap_or_default())),
    }
}

#[test]
fn prechecks_answer_without_work() {
    let f = facts();
    assert_eq!(answer(control_precheck(&ControlAction::Unlock, &f)), None);
    assert_eq!(
        answer(control_precheck(&ControlAction::Lock, &f)),
        Some((true, "Vault is already locked".to_string()))
    );
    let mut unlocked = facts();
    unlocked.vault_locked = false;
    assert_eq!(
        answer(control_precheck(&ControlAction::UnlockNative, &unlocked)),
        Some((true, "Vault is already unlocked".to_string()))
    );
    let mut locked_out = facts();
    locked_out.pin_lockout_remaining = Some(12_345);
    assert_eq!(
        answer(control_precheck(&ControlAction::UnlockPin { pin: "1".into() }, &locked_out)),
        Some((false, "Too many failed PIN attempts; locked for 13s".to_string()))
    );
    assert_eq!(
        answer(control_precheck(&ControlAction::UnlockHello, &f)),
        Some((false, "Windows Hello is only supported on Windows".to_string()))
    );
    assert_eq!(
        answer(control_precheck(&ControlAction::SetPin { pin: "123".into() }, &f)),
        Some((false, "PIN must be at least 4 characters".to_string()))
    );
    let mut no_keys = facts();
    no_keys.loaded_key_count = 0;
    assert_eq!(
        answer(control_precheck(&ControlAction::SetPin { pin: "1234".into() }, &no_keys)),
        Some((false, "No keys loaded. Login first.".to_string()))
    );
    let mut no_email = facts();
    no_email.login_email = String::new();
    assert_eq!(
        answer(control_precheck(&ControlAction::UnlockPassword { password: "x".into() }, &no_email)),
        Some((false, "No email configured. Cannot re-login.".to_string()))
    );
}

#[test]
fn pin_failures_lock_out_after_five() {
    let mut st = PinFailureState::default();
    assert_eq!(record_pin_attempt(&mut st, false, 0), 500);
    assert_eq!(record_pin_attempt(&mut st, false, 10), 1000);
    assert_eq!(record_pin_attempt(&mut st, false, 20), 1500);
    assert_eq!(record_pin_attempt(&mut st, false, 30), 2000);
    assert_eq!(pin_lockout_remaining(&mut st, 40), None);
    assert_eq!(record_pin_attempt(&mut st, false, 1_000), 2500);
    assert_eq!(pin_lockout_remaining(&mut st, 1_000), Some(30_000));
    assert_eq!(pin_lockout_remaining(&mut st, 30_999), Some(1));
    assert_eq!(pin_lockout_remaining(&mut st, 31_000), None);
    assert_eq!(st.locked_until, None);
    for _ in 0..20 {
        assert!(record_pin_attempt(&mut st, false, 40_000) <= 5000);
    }
    assert_eq!(record_pin_attempt(&mut st, true, 50_000), 0);
    assert_eq!(st, PinFailureState::default());
}

#[test]
fn status_line_lists_the_remarks() {
    let f = StatusFacts {
        locked: true,
        key_count: 2,
        signable_key_count: 0,
        agent_running: true,
        has_pin: true,
        has_vault_file: true,
        has_local_key_cache: false,
        authenticated: false,
        pending_sync: true,
        stale_cache: false,
        notification_state: NotificationConnectionState::Running,
    };
    let r = build_status_response(false, &f, "{}".to_string());
    assert_eq!(
        r.message.as_deref(),
        Some("Vault is locked (keys listed but not signable until unlock, PIN configured, vault.enc present, legacy migration available, pending sync, running)")
    );
    let j = build_status_response(true, &f, "{}".to_string());
    assert!(j.message.is_none());
    assert_eq!(j.key_count, Some(2));
}

#[test]
fn sync_and_dialog_answers() {
    assert_eq!(sync_response(Ok(3), false).message.as_deref(), Some("Synced 3 SSH keys"));
    assert_eq!(
        sync_response(Ok(10), true).message.as_deref(),
        Some("Synced 10 SSH keys to cache; they will load into the agent on next unlock")
    );
    assert_eq!(sync_response(Err("boom".into()), true).error.as_deref(), Some("boom"));
    assert_eq!(bind_hosts_response(Ok(true)).message.as_deref(), Some("Bindings updated"));
    assert_eq!(bind_hosts_response(Ok(false)).message.as_deref(), Some("Dialog cancelled"));
    assert_eq!(
        bind_hosts_response(Err("no ui".into())).error.as_deref(),
        Some("Failed to open bind-hosts dialog: no ui")
    );
}

#[test]
fn notification_options_floor_durations() {
    let mut config = Config::default();
    config.agent.notification_keepalive_interval = 0;
    config.agent.sync_interval = 0;
    let o = notification_options(&config);
    assert_eq!(o.keepalive_interval, 1);
    assert_eq!(o.idle_timeout, 90);
    assert_eq!(o.fallback_sync_interval, 0);
    let st = NotificationRuntimeState::default();
    assert_eq!(st.state_name(), "not_started");
}
