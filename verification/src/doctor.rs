//! The `doctor` diagnostics: from what the caller found out (the daemon's status, the
//! selector directory, the agent endpoint, the SSH config files, and the outcome of any
//! repair it made), the checks to report, each passed or warned, in order.
use vstd::prelude::*;

use crate::daemon::DoctorCheck;
use crate::text::{chars_of, concat, contains_exec, contains_seq, decimal, decimal_string, string_of};

verus! {

/// What the daemon's status says, as the doctor reads it.
pub struct DaemonStatusFacts {
    pub agent_running: bool,
    pub authenticated: bool,
    pub pending_sync: bool,
    pub has_local_key_cache: bool,
    pub has_vault_file: bool,
    /// What the status says of a legacy migration, if it says anything.
    pub legacy_migration_available: Option<bool>,
    pub stale_cache: bool,
    pub stale_cache_error: Option<String>,
    pub notification_state: String,
    pub notification_url: Option<String>,
    pub notification_error: Option<String>,
}

/// The key selector directory: where it is, how many `.pub` files it holds and whether
/// it exists; or why it could not be located.
pub enum SelectorDirFacts {
    Resolved { dir: String, count: usize, exists: bool },
    Unresolved(String),
}

/// The SSH agent endpoint: the OpenSSH pipe on Windows; elsewhere the agent socket,
/// its permission bits (or why they could not be read) and `SSH_AUTH_SOCK`.
pub enum AgentEndpointFacts {
    WindowsPipe { exists: bool },
    Unresolved(String),
    Missing(String),
    Present { path: String, mode: Result<u32, String>, ssh_auth_sock: Option<String> },
}

/// The outcome of repairing a missing `Include` line: creating the SSH directory (the
/// directory and the error, if that failed), writing a placeholder snippet (when there was
/// none), and adding the line.
pub struct IncludeFixFacts {
    pub dir_error: Option<(String, String)>,
    pub include_file: Option<Result<(), String>>,
    pub include_line: Result<(), String>,
}

/// The managed snippet and `~/.ssh/config`.
pub struct SshConfigFacts {
    pub include_path: String,
    pub config_path: String,
    pub include_file_exists: bool,
    pub managed_content: String,
    pub fix: Option<IncludeFixFacts>,
    /// Whether `~/.ssh/config` includes the snippet (after any repair).
    pub has_include: bool,
}

/// Everything the doctor reports on.
pub struct DoctorFacts {
    pub fix: bool,
    /// What `/api/config` advertised as the notifications URL, or why it could not be read.
    pub discovery: Result<Option<String>, String>,
    pub notifications_url: String,
    pub daemon: Result<DaemonStatusFacts, String>,
    pub selectors: SelectorDirFacts,
    pub agent_endpoint: AgentEndpointFacts,
    pub ssh_config: Option<SshConfigFacts>,
}

/// A check as plain values: its name, whether it passed, its message.
pub type CheckView = (Seq<char>, bool, Seq<char>);

pub open spec fn check_view(c: DoctorCheck) -> CheckView {
    (c.name@, c.ok, c.message@)
}

pub open spec fn checks_view(v: Seq<DoctorCheck>) -> Seq<CheckView> {
    v.map_values(|c: DoctorCheck| check_view(c))
}

pub open spec fn pass(name: Seq<char>, msg: Seq<char>) -> Seq<CheckView> {
    seq![(name, true, msg)]
}

pub open spec fn warn(name: Seq<char>, msg: Seq<char>) -> Seq<CheckView> {
    seq![(name, false, msg)]
}

pub open spec fn or_text(o: Option<String>, fallback: Seq<char>) -> Seq<char> {
    match o {
        Some(s) => s@,
        None => fallback,
    }
}

/// The placeholder a repair writes when the managed snippet is missing.
pub const MANAGED_SNIPPET_PLACEHOLDER: &'static str = "# SSHWarden managed key selector snippets\n# Run `sshwarden ssh-config` to print Host-specific examples.\n";

/// Octal digits of `n`.
pub open spec fn octal(n: nat) -> Seq<char>
    decreases n,
{
    if n < 8 {
        seq![crate::text::digit_char(n)]
    } else {
        octal(n / 8).push(crate::text::digit_char(n % 8))
    }
}

fn octal_chars(n: u32) -> (v: Vec<char>)
    ensures
        v@ == octal(n as nat),
    decreases n,
{
    let c = ((n % 8) as u8 + 48) as char;
    assert(c == crate::text::digit_char((n % 8) as nat));
    if n < 8 {
        let mut v: Vec<char> = Vec::new();
        v.push(c);
        assert(v@ =~= seq![c]);
        v
    } else {
        let mut v = octal_chars(n / 8);
        v.push(c);
        v
    }
}

fn push_check(v: &mut Vec<DoctorCheck>, ok: bool, name: &str, message: &str)
    ensures
        checks_view(final(v)@) == checks_view(old(v)@) + seq![(name@, ok, message@)],
{
    let c = if ok {
        DoctorCheck::ok(name, message)
    } else {
        DoctorCheck::warn(name, message)
    };
    let ghost before = old(v)@;
    v.push(c);
    assert(checks_view(v@) =~= checks_view(before) + seq![(name@, ok, message@)]) by {
        assert(v@ == before.push(c));
    }
}

// ---------------------------------------------------------------------------
// The sections, in report order
// ---------------------------------------------------------------------------

pub open spec fn fix_section(fix: bool) -> Seq<CheckView> {
    if fix {
        pass("doctor.fix"@, "doctor --fix requested; applying only explicit safe repairs implemented by doctor"@)
    } else {
        seq![]
    }
}

pub open spec fn discovery_section(d: Result<Option<String>, String>, url: Seq<char>) -> Seq<CheckView> {
    (match d {
        Ok(Some(u)) => pass("server.discovery"@, "/api/config advertises notifications URL: "@ + u@),
        Ok(None) => warn(
            "server.discovery"@,
            "/api/config is reachable but did not advertise environment.notifications"@,
        ),
        Err(e) => warn("server.discovery"@, "/api/config discovery failed; built-in URL rules will be used: "@ + e@),
    }) + pass("notification.resolved_url"@, "Configured fallback notification URL resolves to "@ + url)
}

pub open spec fn serving_part(s: DaemonStatusFacts) -> Seq<CheckView> {
    if s.agent_running {
        pass("agent.serving"@, "SSHWarden's SSH agent task is serving the endpoint"@)
    } else {
        warn(
            "agent.serving"@,
            "The control channel answers but SSHWarden's SSH agent is NOT serving the endpoint — another agent likely owns it (on Windows, the OpenSSH 'ssh-agent' service: Stop-Service ssh-agent; Set-Service ssh-agent -StartupType Disabled). ssh/ssh-add will not see SSHWarden's keys until this is fixed."@,
        )
    }
}

pub open spec fn session_part(s: DaemonStatusFacts) -> Seq<CheckView> {
    if s.authenticated {
        pass("session"@, "Bitwarden API session is restored in the daemon"@)
    } else {
        warn(
            "session"@,
            "Bitwarden API session is not restored; notifications and online sync will not run until login/unlock restores it"@,
        )
    }
}

pub open spec fn pending_part(s: DaemonStatusFacts) -> Seq<CheckView> {
    if s.pending_sync {
        warn("sync.pending"@, "Pending Sync is recorded; unlock or restore connectivity to resolve it"@)
    } else {
        pass("sync.pending"@, "No Pending Sync is recorded"@)
    }
}

/// Whether a legacy vault file waits to be migrated: as the status says, else a vault
/// file without a local key cache.
pub open spec fn migration_available(s: DaemonStatusFacts) -> bool {
    match s.legacy_migration_available {
        Some(b) => b,
        None => s.has_vault_file && !s.has_local_key_cache,
    }
}

pub open spec fn cache_part(s: DaemonStatusFacts) -> Seq<CheckView> {
    if s.has_local_key_cache {
        pass("local_key_cache"@, "Envelope Local Key Cache is present"@)
    } else if migration_available(s) {
        warn(
            "local_key_cache.migration"@,
            "Legacy vault.enc is present without envelope Local Key Cache; run `sshwarden unlock --pin` to migrate"@,
        )
    } else {
        warn("local_key_cache"@, "No remembered Local Key Cache is present"@)
    }
}

pub open spec fn stale_part(s: DaemonStatusFacts) -> Seq<CheckView> {
    if s.stale_cache {
        warn(
            "local_key_cache.stale"@,
            "Local Key Cache is stale: "@ + or_text(s.stale_cache_error, "unknown refresh error"@),
        )
    } else {
        pass("local_key_cache.stale"@, "Local Key Cache is not marked stale"@)
    }
}

pub open spec fn notification_part(s: DaemonStatusFacts) -> Seq<CheckView> {
    if s.notification_state@ == "running"@ {
        pass(
            "notification"@,
            "Notification client is running ("@ + or_text(s.notification_url, "unknown URL"@) + ")"@,
        )
    } else if s.notification_state@ == "not_started"@ {
        warn(
            "notification"@,
            "Notification client has not started; usually no API session/token is available yet"@,
        )
    } else if s.notification_state@ == "failed"@ {
        warn("notification"@, "Notification client failed: "@ + or_text(s.notification_error, "unknown error"@))
    } else {
        warn("notification"@, "Notification client state is "@ + s.notification_state@)
    }
}

/// What the daemon's status shows: whether the agent serves, the API session, a pending
/// sync, the local key cache (or a legacy vault file to migrate), whether the cache is
/// stale, and the notification client.
pub open spec fn status_section(s: DaemonStatusFacts) -> Seq<CheckView> {
    serving_part(s) + session_part(s) + pending_part(s) + cache_part(s) + stale_part(s) + notification_part(s)
}

pub open spec fn daemon_section(d: Result<DaemonStatusFacts, String>) -> Seq<CheckView> {
    match d {
        Ok(s) => pass("daemon"@, "SSHWarden daemon control channel is reachable"@) + status_section(s),
        Err(e) => warn("daemon"@, "SSHWarden daemon control channel is not reachable: "@ + e@),
    }
}

pub open spec fn selector_section(f: SelectorDirFacts) -> Seq<CheckView> {
    match f {
        SelectorDirFacts::Resolved { dir, count, exists } => if count > 0 {
            pass("key_selectors"@, "Found "@ + decimal(count as nat) + " key selector .pub file(s) in "@ + dir@) + (
            if count > 5 {
                warn(
                    "ssh.max_auth_tries"@,
                    decimal(count as nat)
                        + " selector files/keys detected; without Host-specific IdentityFile + IdentitiesOnly yes, OpenSSH servers may fail with MaxAuthTries"@,
                )
            } else {
                pass(
                    "ssh.max_auth_tries"@,
                    "Key count is not high enough to trigger the common MaxAuthTries failure by itself"@,
                )
            })
        } else if exists {
            warn("key_selectors"@, "No key selector .pub files found in "@ + dir@)
        } else {
            warn("key_selectors"@, "Key selector directory does not exist: "@ + dir@)
        },
        SelectorDirFacts::Unresolved(e) => warn("key_selectors"@, "Could not determine key selector directory: "@ + e@),
    }
}

pub open spec fn endpoint_section(f: AgentEndpointFacts) -> Seq<CheckView> {
    match f {
        AgentEndpointFacts::WindowsPipe { exists } => if exists {
            pass(
                "agent_endpoint.windows_pipe"@,
                "OpenSSH agent pipe \\\\.\\pipe\\openssh-ssh-agent exists (it may be owned by SSHWarden or by the OS ssh-agent service — see the agent.serving check for which one is actually serving)"@,
            )
        } else {
            warn(
                "agent_endpoint.windows_pipe"@,
                "No OpenSSH agent pipe at \\\\.\\pipe\\openssh-ssh-agent; SSH clients have no agent to talk to"@,
            )
        },
        AgentEndpointFacts::Unresolved(e) => warn(
            "agent_endpoint.unix_socket"@,
            "Could not resolve agent socket path: "@ + e@,
        ),
        AgentEndpointFacts::Missing(p) => warn(
            "agent_endpoint.unix_socket"@,
            "Agent socket not present at "@ + p@ + "; is the daemon running?"@,
        ),
        AgentEndpointFacts::Present { path, mode, ssh_auth_sock } => (match mode {
            Ok(m) => if m == 0o600 {
                pass("agent_endpoint.unix_socket"@, "Agent socket present with 0600 perms: "@ + path@)
            } else {
                warn(
                    "agent_endpoint.unix_socket"@,
                    "Agent socket "@ + path@ + " has mode "@ + octal(m as nat) + ", expected 0600"@,
                )
            },
            Err(e) => warn("agent_endpoint.unix_socket"@, "Could not stat agent socket "@ + path@ + ": "@ + e@),
        }) + (match ssh_auth_sock {
            Some(s) => if s@ == path@ {
                pass("agent_endpoint.ssh_auth_sock"@, "SSH_AUTH_SOCK points at the SSHWarden agent socket"@)
            } else {
                warn(
                    "agent_endpoint.ssh_auth_sock"@,
                    "SSH_AUTH_SOCK ("@ + s@ + ") does not point at the SSHWarden agent socket ("@ + path@
                        + "); run `eval \"$(sshwarden env)\"`"@,
                )
            },
            None => warn(
                "agent_endpoint.ssh_auth_sock"@,
                "SSH_AUTH_SOCK is not set; run `eval \"$(sshwarden env)\"` so ssh uses "@ + path@,
            ),
        }),
    }
}

pub open spec fn fix_include_section(f: IncludeFixFacts, include_path: Seq<char>, config_path: Seq<char>) -> Seq<CheckView> {
    (match f.dir_error {
        Some((d, e)) => warn("doctor.fix.ssh_config_dir"@, "Failed to create SSH config directory "@ + d@ + ": "@ + e@),
        None => seq![],
    }) + (match f.include_file {
        Some(Ok(())) => pass("doctor.fix.include_file"@, "Created managed SSH config placeholder: "@ + include_path),
        Some(Err(e)) => warn(
            "doctor.fix.include_file"@,
            "Failed to create managed SSH config "@ + include_path + ": "@ + e@,
        ),
        None => seq![],
    }) + (match f.include_line {
        Ok(()) => pass("doctor.fix.include"@, "Added SSHWarden Include line to "@ + config_path),
        Err(e) => warn("doctor.fix.include"@, "Failed to add SSHWarden Include line to "@ + config_path + ": "@ + e@),
    })
}

pub open spec fn ssh_config_section(f: Option<SshConfigFacts>) -> Seq<CheckView> {
    match f {
        None => warn("ssh_config"@, "Could not determine ~/.ssh/config or managed include path"@),
        Some(c) => (if c.include_file_exists {
            pass("ssh_config.include_file"@, "Managed SSH config exists: "@ + c.include_path@) + (
            if contains_seq(c.managed_content@, "IdentityFile"@) && contains_seq(
                c.managed_content@,
                "IdentitiesOnly yes"@,
            ) {
                pass(
                    "ssh_config.selector_rules"@,
                    "Managed SSH config contains IdentityFile and IdentitiesOnly yes selector rules"@,
                )
            } else {
                warn(
                    "ssh_config.selector_rules"@,
                    "Managed SSH config does not contain Host-specific IdentityFile + IdentitiesOnly yes rules; run `sshwarden ssh-config` to print examples or `sshwarden ssh-config --write` to replace the managed include"@,
                )
            })
        } else {
            warn("ssh_config.include_file"@, "Managed SSH config does not exist: "@ + c.include_path@)
        }) + (match c.fix {
            Some(fx) => fix_include_section(fx, c.include_path@, c.config_path@),
            None => seq![],
        }) + (if c.has_include {
            pass("ssh_config.include"@, c.config_path@ + " includes SSHWarden managed config"@)
        } else {
            warn(
                "ssh_config.include"@,
                c.config_path@ + " does not include SSHWarden managed config; run `sshwarden ssh-config --write` if desired"@,
            )
        }),
    }
}

/// The doctor's checks, in report order.
pub open spec fn doctor_spec(f: DoctorFacts) -> Seq<CheckView> {
    fix_section(f.fix) + discovery_section(f.discovery, f.notifications_url@) + daemon_section(f.daemon)
        + selector_section(f.selectors) + endpoint_section(f.agent_endpoint) + ssh_config_section(f.ssh_config)
}

// ---------------------------------------------------------------------------
// Building the checks
// ---------------------------------------------------------------------------

fn or_text_exec(o: &Option<String>, fallback: &str) -> (r: String)
    ensures
        r@ == or_text(*o, fallback@),
{
    match o {
        Some(s) => s.clone(),
        None => fallback.to_string(),
    }
}

fn same_text(a: &str, b: &str) -> (r: bool)
    ensures
        r == (a@ == b@),
{
    crate::text::chars_equal(chars_of(a).as_slice(), chars_of(b).as_slice())
}

fn cat3(a: &str, b: &str, c: &str) -> (r: String)
    ensures
        r@ == a@ + b@ + c@,
{
    concat(concat(a, b).as_str(), c)
}

fn push_fix(v: &mut Vec<DoctorCheck>, fix: bool)
    ensures
        checks_view(final(v)@) == checks_view(old(v)@) + fix_section(fix),
{
    if fix {
        push_check(v, true, "doctor.fix", "doctor --fix requested; applying only explicit safe repairs implemented by doctor");
    } else {
        assert(checks_view(v@) + fix_section(fix) =~= checks_view(v@));
    }
}

fn push_discovery(v: &mut Vec<DoctorCheck>, d: &Result<Option<String>, String>, url: &str)
    ensures
        checks_view(final(v)@) == checks_view(old(v)@) + discovery_section(*d, url@),
{
    let ghost start = checks_view(v@);
    match d {
        Ok(Some(u)) => {
            let m = concat("/api/config advertises notifications URL: ", u.as_str());
            push_check(v, true, "server.discovery", m.as_str());
        },
        Ok(None) => {
            push_check(v, false, "server.discovery", "/api/config is reachable but did not advertise environment.notifications");
        },
        Err(e) => {
            let m = concat("/api/config discovery failed; built-in URL rules will be used: ", e.as_str());
            push_check(v, false, "server.discovery", m.as_str());
        },
    }
    let m = concat("Configured fallback notification URL resolves to ", url);
    push_check(v, true, "notification.resolved_url", m.as_str());
    assert(checks_view(v@) =~= start + discovery_section(*d, url@));
}

fn push_agent_session_sync(v: &mut Vec<DoctorCheck>, s: &DaemonStatusFacts)
    ensures
        checks_view(final(v)@) == checks_view(old(v)@) + serving_part(*s) + session_part(*s) + pending_part(*s),
{
    let ghost start = checks_view(v@);
    if s.agent_running {
        push_check(v, true, "agent.serving", "SSHWarden's SSH agent task is serving the endpoint");
    } else {
        push_check(
            v,
            false,
            "agent.serving",
            "The control channel answers but SSHWarden's SSH agent is NOT serving the endpoint — another agent likely owns it (on Windows, the OpenSSH 'ssh-agent' service: Stop-Service ssh-agent; Set-Service ssh-agent -StartupType Disabled). ssh/ssh-add will not see SSHWarden's keys until this is fixed.",
        );
    }
    if s.authenticated {
        push_check(v, true, "session", "Bitwarden API session is restored in the daemon");
    } else {
        push_check(
            v,
            false,
            "session",
            "Bitwarden API session is not restored; notifications and online sync will not run until login/unlock restores it",
        );
    }
    if s.pending_sync {
        push_check(v, false, "sync.pending", "Pending Sync is recorded; unlock or restore connectivity to resolve it");
    } else {
        push_check(v, true, "sync.pending", "No Pending Sync is recorded");
    }
    assert(checks_view(v@) =~= start + serving_part(*s) + session_part(*s) + pending_part(*s));
}

fn push_cache_notification(v: &mut Vec<DoctorCheck>, s: &DaemonStatusFacts)
    ensures
        checks_view(final(v)@) == checks_view(old(v)@) + cache_part(*s) + stale_part(*s) + notification_part(*s),
{
    let ghost start = checks_view(v@);
    if s.has_local_key_cache {
        push_check(v, true, "local_key_cache", "Envelope Local Key Cache is present");
    } else if match s.legacy_migration_available {
        Some(b) => b,
        None => s.has_vault_file && !s.has_local_key_cache,
    } {
        push_check(
            v,
            false,
            "local_key_cache.migration",
            "Legacy vault.enc is present without envelope Local Key Cache; run `sshwarden unlock --pin` to migrate",
        );
    } else {
        push_check(v, false, "local_key_cache", "No remembered Local Key Cache is present");
    }
    if s.stale_cache {
        let e = or_text_exec(&s.stale_cache_error, "unknown refresh error");
        let m = concat("Local Key Cache is stale: ", e.as_str());
        push_check(v, false, "local_key_cache.stale", m.as_str());
    } else {
        push_check(v, true, "local_key_cache.stale", "Local Key Cache is not marked stale");
    }
    let state = s.notification_state.as_str();
    if same_text(state, "running") {
        let u = or_text_exec(&s.notification_url, "unknown URL");
        let m = cat3("Notification client is running (", u.as_str(), ")");
        push_check(v, true, "notification", m.as_str());
    } else if same_text(state, "not_started") {
        push_check(
            v,
            false,
            "notification",
            "Notification client has not started; usually no API session/token is available yet",
        );
    } else if same_text(state, "failed") {
        let e = or_text_exec(&s.notification_error, "unknown error");
        let m = concat("Notification client failed: ", e.as_str());
        push_check(v, false, "notification", m.as_str());
    } else {
        let m = concat("Notification client state is ", state);
        push_check(v, false, "notification", m.as_str());
    }
    assert(checks_view(v@) =~= start + cache_part(*s) + stale_part(*s) + notification_part(*s));
}

fn push_daemon(v: &mut Vec<DoctorCheck>, d: &Result<DaemonStatusFacts, String>)
    ensures
        checks_view(final(v)@) == checks_view(old(v)@) + daemon_section(*d),
{
    let ghost start = checks_view(v@);
    match d {
        Ok(s) => {
            push_check(v, true, "daemon", "SSHWarden daemon control channel is reachable");
            push_agent_session_sync(v, s);
            push_cache_notification(v, s);
            assert(checks_view(v@) =~= start + daemon_section(*d));
        },
        Err(e) => {
            let m = concat("SSHWarden daemon control channel is not reachable: ", e.as_str());
            push_check(v, false, "daemon", m.as_str());
        },
    }
}

fn push_selectors(v: &mut Vec<DoctorCheck>, f: &SelectorDirFacts)
    ensures
        checks_view(final(v)@) == checks_view(old(v)@) + selector_section(*f),
{
    let ghost start = checks_view(v@);
    match f {
        SelectorDirFacts::Resolved { dir, count, exists } => {
            if *count > 0 {
                let n = decimal_string(*count as u64);
                let m = cat3("Found ", n.as_str(), concat(" key selector .pub file(s) in ", dir.as_str()).as_str());
                assert(m@ =~= "Found "@ + decimal(*count as nat) + " key selector .pub file(s) in "@ + dir@);
                push_check(v, true, "key_selectors", m.as_str());
                if *count > 5 {
                    let m2 = concat(
                        n.as_str(),
                        " selector files/keys detected; without Host-specific IdentityFile + IdentitiesOnly yes, OpenSSH servers may fail with MaxAuthTries",
                    );
                    push_check(v, false, "ssh.max_auth_tries", m2.as_str());
                } else {
                    push_check(
                        v,
                        true,
                        "ssh.max_auth_tries",
                        "Key count is not high enough to trigger the common MaxAuthTries failure by itself",
                    );
                }
                assert(checks_view(v@) =~= start + selector_section(*f));
            } else if *exists {
                let m = concat("No key selector .pub files found in ", dir.as_str());
                push_check(v, false, "key_selectors", m.as_str());
            } else {
                let m = concat("Key selector directory does not exist: ", dir.as_str());
                push_check(v, false, "key_selectors", m.as_str());
            }
        },
        SelectorDirFacts::Unresolved(e) => {
            let m = concat("Could not determine key selector directory: ", e.as_str());
            push_check(v, false, "key_selectors", m.as_str());
        },
    }
}

fn push_endpoint(v: &mut Vec<DoctorCheck>, f: &AgentEndpointFacts)
    ensures
        checks_view(final(v)@) == checks_view(old(v)@) + endpoint_section(*f),
{
    let ghost start = checks_view(v@);
    match f {
        AgentEndpointFacts::WindowsPipe { exists } => {
            if *exists {
                push_check(
                    v,
                    true,
                    "agent_endpoint.windows_pipe",
                    "OpenSSH agent pipe \\\\.\\pipe\\openssh-ssh-agent exists (it may be owned by SSHWarden or by the OS ssh-agent service — see the agent.serving check for which one is actually serving)",
                );
            } else {
                push_check(
                    v,
                    false,
                    "agent_endpoint.windows_pipe",
                    "No OpenSSH agent pipe at \\\\.\\pipe\\openssh-ssh-agent; SSH clients have no agent to talk to",
                );
            }
        },
        AgentEndpointFacts::Unresolved(e) => {
            let m = concat("Could not resolve agent socket path: ", e.as_str());
            push_check(v, false, "agent_endpoint.unix_socket", m.as_str());
        },
        AgentEndpointFacts::Missing(p) => {
            let m = cat3("Agent socket not present at ", p.as_str(), "; is the daemon running?");
            push_check(v, false, "agent_endpoint.unix_socket", m.as_str());
        },
        AgentEndpointFacts::Present { path, mode, ssh_auth_sock } => {
            match mode {
                Ok(m) => {
                    if *m == 0o600 {
                        let t = concat("Agent socket present with 0600 perms: ", path.as_str());
                        push_check(v, true, "agent_endpoint.unix_socket", t.as_str());
                    } else {
                        let digits = string_of(octal_chars(*m).as_slice());
                        let t = concat(
                            cat3("Agent socket ", path.as_str(), " has mode ").as_str(),
                            concat(digits.as_str(), ", expected 0600").as_str(),
                        );
                        assert(t@ =~= "Agent socket "@ + path@ + " has mode "@ + octal(*m as nat) + ", expected 0600"@);
                        push_check(v, false, "agent_endpoint.unix_socket", t.as_str());
                    }
                },
                Err(e) => {
                    let t = concat(cat3("Could not stat agent socket ", path.as_str(), ": ").as_str(), e.as_str());
                    push_check(v, false, "agent_endpoint.unix_socket", t.as_str());
                },
            }
            match ssh_auth_sock {
                Some(sock) => {
                    if same_text(sock.as_str(), path.as_str()) {
                        push_check(
                            v,
                            true,
                            "agent_endpoint.ssh_auth_sock",
                            "SSH_AUTH_SOCK points at the SSHWarden agent socket",
                        );
                    } else {
                        let t = concat(
                            cat3("SSH_AUTH_SOCK (", sock.as_str(), ") does not point at the SSHWarden agent socket (").as_str(),
                            concat(path.as_str(), "); run `eval \"$(sshwarden env)\"`").as_str(),
                        );
                        assert(t@ =~= "SSH_AUTH_SOCK ("@ + sock@ + ") does not point at the SSHWarden agent socket ("@ + path@
                            + "); run `eval \"$(sshwarden env)\"`"@);
                        push_check(v, false, "agent_endpoint.ssh_auth_sock", t.as_str());
                    }
                },
                None => {
                    let t = concat("SSH_AUTH_SOCK is not set; run `eval \"$(sshwarden env)\"` so ssh uses ", path.as_str());
                    push_check(v, false, "agent_endpoint.ssh_auth_sock", t.as_str());
                },
            }
            assert(checks_view(v@) =~= start + endpoint_section(*f));
        },
    }
}

fn push_include_fix(v: &mut Vec<DoctorCheck>, f: &IncludeFixFacts, include_path: &str, config_path: &str)
    ensures
        checks_view(final(v)@) == checks_view(old(v)@) + fix_include_section(*f, include_path@, config_path@),
{
    let ghost start = checks_view(v@);
    match &f.dir_error {
        Some((d, e)) => {
            let t = concat(cat3("Failed to create SSH config directory ", d.as_str(), ": ").as_str(), e.as_str());
            push_check(v, false, "doctor.fix.ssh_config_dir", t.as_str());
        },
        None => {},
    }
    let ghost mid1 = checks_view(v@);
    match &f.include_file {
        Some(Ok(())) => {
            let t = concat("Created managed SSH config placeholder: ", include_path);
            push_check(v, true, "doctor.fix.include_file", t.as_str());
        },
        Some(Err(e)) => {
            let t = concat(cat3("Failed to create managed SSH config ", include_path, ": ").as_str(), e.as_str());
            push_check(v, false, "doctor.fix.include_file", t.as_str());
        },
        None => {},
    }
    let ghost mid2 = checks_view(v@);
    match &f.include_line {
        Ok(()) => {
            let t = concat("Added SSHWarden Include line to ", config_path);
            push_check(v, true, "doctor.fix.include", t.as_str());
        },
        Err(e) => {
            let t = concat(cat3("Failed to add SSHWarden Include line to ", config_path, ": ").as_str(), e.as_str());
            push_check(v, false, "doctor.fix.include", t.as_str());
        },
    }
    assert(checks_view(v@) =~= start + fix_include_section(*f, include_path@, config_path@));
}

fn push_ssh_config(v: &mut Vec<DoctorCheck>, f: &Option<SshConfigFacts>)
    ensures
        checks_view(final(v)@) == checks_view(old(v)@) + ssh_config_section(*f),
{
    let ghost start = checks_view(v@);
    match f {
        None => {
            push_check(v, false, "ssh_config", "Could not determine ~/.ssh/config or managed include path");
        },
        Some(c) => {
            if c.include_file_exists {
                let t = concat("Managed SSH config exists: ", c.include_path.as_str());
                push_check(v, true, "ssh_config.include_file", t.as_str());
                let content = chars_of(c.managed_content.as_str());
                let has_file = contains_exec(content.as_slice(), chars_of("IdentityFile").as_slice());
                let has_only = contains_exec(content.as_slice(), chars_of("IdentitiesOnly yes").as_slice());
                if has_file && has_only {
                    push_check(
                        v,
                        true,
                        "ssh_config.selector_rules",
                        "Managed SSH config contains IdentityFile and IdentitiesOnly yes selector rules",
                    );
                } else {
                    push_check(
                        v,
                        false,
                        "ssh_config.selector_rules",
                        "Managed SSH config does not contain Host-specific IdentityFile + IdentitiesOnly yes rules; run `sshwarden ssh-config` to print examples or `sshwarden ssh-config --write` to replace the managed include",
                    );
                }
            } else {
                let t = concat("Managed SSH config does not exist: ", c.include_path.as_str());
                push_check(v, false, "ssh_config.include_file", t.as_str());
            }
            let ghost mid = checks_view(v@);
            match &c.fix {
                Some(fx) => push_include_fix(v, fx, c.include_path.as_str(), c.config_path.as_str()),
                None => {},
            }
            if c.has_include {
                let t = concat(c.config_path.as_str(), " includes SSHWarden managed config");
                push_check(v, true, "ssh_config.include", t.as_str());
            } else {
                let t = concat(
                    c.config_path.as_str(),
                    " does not include SSHWarden managed config; run `sshwarden ssh-config --write` if desired",
                );
                push_check(v, false, "ssh_config.include", t.as_str());
            }
            assert(checks_view(v@) =~= start + ssh_config_section(*f));
        },
    }
}

/// The doctor's checks for what the caller found, in report order (see [`doctor_spec`]).
pub fn doctor_checks(facts: &DoctorFacts) -> (r: Vec<DoctorCheck>)
    ensures
        checks_view(r@) == doctor_spec(*facts),
{
    let mut v: Vec<DoctorCheck> = Vec::new();
    assert(checks_view(v@) =~= Seq::<CheckView>::empty());
    push_fix(&mut v, facts.fix);
    push_discovery(&mut v, &facts.discovery, facts.notifications_url.as_str());
    push_daemon(&mut v, &facts.daemon);
    push_selectors(&mut v, &facts.selectors);
    push_endpoint(&mut v, &facts.agent_endpoint);
    push_ssh_config(&mut v, &facts.ssh_config);
    assert(checks_view(v@) =~= doctor_spec(*facts));
    v
}

} // verus!
