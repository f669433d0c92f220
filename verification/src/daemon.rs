//! The daemon's decisions: PIN brute-force protection, the status report, the answers
//! that a control action gets before any work is done, and the notification settings.
//!
//! The daemon's loop (sockets, the vault, the UI, timers) runs in the caller; it asks
//! these functions what to answer and what state comes next. Times are milliseconds of a
//! monotonic clock, handed in by the caller.
use vstd::prelude::*;

use crate::client::{BitwardenClient, DecryptedSshKey};
use crate::config::{config_dir, join_in, join_result, shared_dir_spec, string_result, Config, ConfigError, StorageEnv};
use crate::crypto::{pin_decrypt_spec, pin_encrypt, pin_key, CryptoError, SymmetricKey};
use crate::storage::{LocalKeyCacheFile, SessionFile, VaultFile};
use crate::control::{ActionView, ControlAction, ControlResponse};
use crate::notifications::{NotificationOptions, SyncEvent};
use crate::primitives::{sha256, spec_sha256};
use crate::text::{chars_of, decimal, decimal_string, join_strings, join_with, push_str, string_of, views};

verus! {

// ---------------------------------------------------------------------------
// PIN brute-force protection
// ---------------------------------------------------------------------------

/// Consecutive wrong PINs after which PIN unlock is locked out.
pub const PIN_MAX_ATTEMPTS: u32 = 5;

/// The delay per consecutive failure, in milliseconds.
pub const PIN_FAILURE_BASE_DELAY_MS: u64 = 500;

/// The longest delay after a failure, in milliseconds.
pub const PIN_FAILURE_MAX_DELAY_MS: u64 = 5000;

/// How long a lockout lasts, in milliseconds.
pub const PIN_LOCKOUT_MS: u64 = 30000;

/// The daemon's record of wrong PINs. It lives in memory only, so that editing files on
/// disk cannot reset it.
#[derive(Debug, Clone, Copy, PartialEq, Eq, Structural)]
pub struct PinFailureState {
    pub consecutive_failures: u32,
    /// The end of the current lockout, if one was armed.
    pub locked_until: Option<u64>,
}

impl Default for PinFailureState {
    fn default() -> (s: PinFailureState)
        ensures
            s.consecutive_failures == 0,
            s.locked_until is None,
    {
        PinFailureState { consecutive_failures: 0, locked_until: None }
    }
}

/// Asking whether a lockout is active at `now`: the time left if so; an expired lockout
/// is cleared.
pub open spec fn lockout_check(s: PinFailureState, now: u64) -> (PinFailureState, Option<u64>) {
    match s.locked_until {
        Some(until) => if until > now {
            (s, Some((until - now) as u64))
        } else {
            (PinFailureState { consecutive_failures: s.consecutive_failures, locked_until: None }, None)
        },
        None => (s, None),
    }
}

/// Recording the outcome of a PIN attempt at `now`: a success resets everything and asks
/// no delay; a failure counts (saturating), arms a lockout once the count reaches the
/// limit, and asks a delay of half a second per consecutive failure, at most five.
pub open spec fn attempt_outcome(s: PinFailureState, success: bool, now: u64) -> (PinFailureState, u64) {
    if success {
        (PinFailureState { consecutive_failures: 0, locked_until: None }, 0)
    } else {
        let f: u32 = if s.consecutive_failures == u32::MAX {
            u32::MAX
        } else {
            (s.consecutive_failures + 1) as u32
        };
        let until = if f >= PIN_MAX_ATTEMPTS {
            Some(if now + PIN_LOCKOUT_MS <= u64::MAX { (now + PIN_LOCKOUT_MS) as u64 } else { u64::MAX })
        } else {
            s.locked_until
        };
        let delay: u64 = if PIN_FAILURE_BASE_DELAY_MS * f <= PIN_FAILURE_MAX_DELAY_MS {
            (PIN_FAILURE_BASE_DELAY_MS * f) as u64
        } else {
            PIN_FAILURE_MAX_DELAY_MS
        };
        (PinFailureState { consecutive_failures: f, locked_until: until }, delay)
    }
}

/// The time left of an active PIN lockout at `now_ms`, clearing an expired one.
pub fn pin_lockout_remaining(st: &mut PinFailureState, now_ms: u64) -> (r: Option<u64>)
    ensures
        (*final(st), r) == lockout_check(*old(st), now_ms),
{
    match st.locked_until {
        Some(until) => {
            if until > now_ms {
                Some(until - now_ms)
            } else {
                st.locked_until = None;
                None
            }
        },
        None => None,
    }
}

/// Record a PIN attempt's outcome at `now_ms` and return the delay to apply, in ms.
pub fn record_pin_attempt(st: &mut PinFailureState, success: bool, now_ms: u64) -> (delay: u64)
    ensures
        (*final(st), delay) == attempt_outcome(*old(st), success, now_ms),
{
    if success {
        st.consecutive_failures = 0;
        st.locked_until = None;
        return 0;
    }
    st.consecutive_failures = st.consecutive_failures.saturating_add(1);
    if st.consecutive_failures >= PIN_MAX_ATTEMPTS {
        st.locked_until = Some(now_ms.saturating_add(PIN_LOCKOUT_MS));
    }
    let f = st.consecutive_failures as u64;
    if f <= 10 {
        PIN_FAILURE_BASE_DELAY_MS * f
    } else {
        PIN_FAILURE_MAX_DELAY_MS
    }
}

/// A wrong PIN that brings the count to the limit locks PIN unlock: for the lockout's
/// whole length after it, asking gives the exact time left.
pub proof fn law_pin_lockout_after_max_failures(s: PinFailureState, t: u64, later: u64)
    requires
        s.consecutive_failures + 1 >= PIN_MAX_ATTEMPTS,
        t <= later,
        later < t + PIN_LOCKOUT_MS,
        t + PIN_LOCKOUT_MS <= u64::MAX,
    ensures
        lockout_check(attempt_outcome(s, false, t).0, later).1 == Some((t + PIN_LOCKOUT_MS - later) as u64),
{
}

/// A correct PIN clears the count and any lockout, and asks no delay.
pub proof fn law_pin_success_resets(s: PinFailureState, t: u64, later: u64)
    ensures
        attempt_outcome(s, true, t).0 == PinFailureState::default_spec(),
        attempt_outcome(s, true, t).1 == 0,
        lockout_check(attempt_outcome(s, true, t).0, later).1 is None,
{
}

/// Fewer wrong PINs than the limit, from a clean state, never lock PIN unlock, and each
/// delay is half a second per failure so far.
pub proof fn law_pin_no_lockout_below_limit(s: PinFailureState, t: u64)
    requires
        s.locked_until is None,
        s.consecutive_failures + 1 < PIN_MAX_ATTEMPTS,
    ensures
        attempt_outcome(s, false, t).0.locked_until is None,
        attempt_outcome(s, false, t).1 == PIN_FAILURE_BASE_DELAY_MS * (s.consecutive_failures + 1),
{
}

/// Every delay asked after a failure is positive and at most five seconds.
pub proof fn law_pin_delay_bounded(s: PinFailureState, t: u64)
    ensures
        0 < attempt_outcome(s, false, t).1 <= PIN_FAILURE_MAX_DELAY_MS,
{
}

impl PinFailureState {
    pub open spec fn default_spec() -> PinFailureState {
        PinFailureState { consecutive_failures: 0, locked_until: None }
    }
}

// ---------------------------------------------------------------------------
// The notification connection as the status report shows it
// ---------------------------------------------------------------------------

/// Where the notification connection stands.
#[derive(Debug, Clone, Copy, PartialEq, Eq, Structural)]
pub enum NotificationConnectionState {
    NotStarted,
    Starting,
    Running,
    Stopped,
    Failed,
}

/// What the daemon knows of its notification connection. Times are milliseconds of the
/// daemon's clock.
#[derive(Debug, Clone)]
pub struct NotificationRuntimeState {
    pub state: NotificationConnectionState,
    pub url: Option<String>,
    pub last_error: Option<String>,
    pub reconnect_attempts: usize,
    pub last_connected_at: Option<u64>,
    pub last_event_at: Option<u64>,
    pub last_fallback_sync_at: Option<u64>,
    pub stale_cache: bool,
    pub stale_cache_error: Option<String>,
}

impl Default for NotificationRuntimeState {
    fn default() -> (s: NotificationRuntimeState)
        ensures
            s.state == NotificationConnectionState::NotStarted,
            s.url is None,
            s.last_error is None,
            s.reconnect_attempts == 0,
            s.last_connected_at is None,
            s.last_event_at is None,
            s.last_fallback_sync_at is None,
            !s.stale_cache,
            s.stale_cache_error is None,
    {
        NotificationRuntimeState {
            state: NotificationConnectionState::NotStarted,
            url: None,
            last_error: None,
            reconnect_attempts: 0,
            last_connected_at: None,
            last_event_at: None,
            last_fallback_sync_at: None,
            stale_cache: false,
            stale_cache_error: None,
        }
    }
}

/// The name a state has in the status report.
pub open spec fn state_name_of(s: NotificationConnectionState) -> Seq<char> {
    match s {
        NotificationConnectionState::NotStarted => "not_started"@,
        NotificationConnectionState::Starting => "starting"@,
        NotificationConnectionState::Running => "running"@,
        NotificationConnectionState::Stopped => "stopped"@,
        NotificationConnectionState::Failed => "failed"@,
    }
}

impl NotificationRuntimeState {
    /// The connection state's name in the status report.
    pub fn state_name(&self) -> (s: &'static str)
        ensures
            s@ == state_name_of(self.state),
    {
        match self.state {
            NotificationConnectionState::NotStarted => "not_started",
            NotificationConnectionState::Starting => "starting",
            NotificationConnectionState::Running => "running",
            NotificationConnectionState::Stopped => "stopped",
            NotificationConnectionState::Failed => "failed",
        }
    }
}

// ---------------------------------------------------------------------------
// The status report
// ---------------------------------------------------------------------------

/// What the status report is made of.
#[derive(Debug, Clone, Copy)]
pub struct StatusFacts {
    pub locked: bool,
    pub key_count: usize,
    pub signable_key_count: usize,
    pub agent_running: bool,
    pub has_pin: bool,
    pub has_vault_file: bool,
    pub has_local_key_cache: bool,
    pub authenticated: bool,
    pub pending_sync: bool,
    pub stale_cache: bool,
    pub notification_state: NotificationConnectionState,
}

/// `s` pushed when `cond` holds.
pub open spec fn push_if(v: Seq<Seq<char>>, cond: bool, s: Seq<char>) -> Seq<Seq<char>> {
    if cond {
        v.push(s)
    } else {
        v
    }
}

/// The remarks of the status line, in order: a zombie agent, keys without private
/// material, a PIN, `vault.enc`, the local key cache, a possible legacy migration, a
/// restored API session, a pending sync, a stale cache, and the notification state.
pub open spec fn status_extras(f: StatusFacts) -> Seq<Seq<char>> {
    let e0 = Seq::<Seq<char>>::empty();
    let e1 = push_if(e0, !f.agent_running, "AGENT NOT SERVING (SSH endpoint unavailable)"@);
    let e2 = push_if(
        e1,
        f.key_count > 0 && f.signable_key_count < f.key_count,
        "keys listed but not signable until unlock"@,
    );
    let e3 = push_if(e2, f.has_pin, "PIN configured"@);
    let e4 = push_if(e3, f.has_vault_file, "vault.enc present"@);
    let e5 = push_if(e4, f.has_local_key_cache, "local key cache present"@);
    let e6 = push_if(e5, f.has_vault_file && !f.has_local_key_cache, "legacy migration available"@);
    let e7 = push_if(e6, f.authenticated, "API session restored"@);
    let e8 = push_if(e7, f.pending_sync, "pending sync"@);
    let e9 = push_if(e8, f.stale_cache, "stale cache"@);
    e9.push(state_name_of(f.notification_state))
}

/// The status line: the vault's state and, in brackets, the remarks.
pub open spec fn status_message(f: StatusFacts) -> Seq<char> {
    let base = if f.locked {
        "Vault is locked"@
    } else {
        "Vault is unlocked"@
    };
    base + " ("@ + join_with(status_extras(f), ", "@) + ")"@
}

fn push_if_exec(v: &mut Vec<String>, cond: bool, s: &str)
    ensures
        views(final(v)@) == push_if(views(old(v)@), cond, s@),
{
    if cond {
        let ghost before = views(v@);
        v.push(string_of(chars_of(s).as_slice()));
        assert(views(v@) =~= before.push(s@));
    }
}

/// The status answer: the vault's state and key count, the details document, and for a
/// human reader the status line (none when JSON was asked for).
pub fn build_status_response(json: bool, facts: &StatusFacts, details: String) -> (r: ControlResponse)
    ensures
        r.ok,
        r.error is None,
        r.locked == Some(facts.locked),
        r.key_count == Some(facts.key_count),
        r.details == Some(details),
        json ==> r.message is None,
        !json ==> (r.message matches Some(m) && m@ == status_message(*facts)),
{
    let resp = ControlResponse::status(facts.locked, facts.key_count).with_details(details);
    let mut extras: Vec<String> = Vec::new();
    assert(views(extras@) =~= Seq::<Seq<char>>::empty());
    let f = *facts;
    push_if_exec(&mut extras, !f.agent_running, "AGENT NOT SERVING (SSH endpoint unavailable)");
    push_if_exec(
        &mut extras,
        f.key_count > 0 && f.signable_key_count < f.key_count,
        "keys listed but not signable until unlock",
    );
    push_if_exec(&mut extras, f.has_pin, "PIN configured");
    push_if_exec(&mut extras, f.has_vault_file, "vault.enc present");
    push_if_exec(&mut extras, f.has_local_key_cache, "local key cache present");
    push_if_exec(&mut extras, f.has_vault_file && !f.has_local_key_cache, "legacy migration available");
    push_if_exec(&mut extras, f.authenticated, "API session restored");
    push_if_exec(&mut extras, f.pending_sync, "pending sync");
    push_if_exec(&mut extras, f.stale_cache, "stale cache");
    let name = match f.notification_state {
        NotificationConnectionState::NotStarted => "not_started",
        NotificationConnectionState::Starting => "starting",
        NotificationConnectionState::Running => "running",
        NotificationConnectionState::Stopped => "stopped",
        NotificationConnectionState::Failed => "failed",
    };
    push_if_exec(&mut extras, true, name);
    assert(views(extras@) == status_extras(*facts));
    if json {
        let mut r = resp;
        r.message = None;
        return r;
    }
    let base = if f.locked {
        "Vault is locked"
    } else {
        "Vault is unlocked"
    };
    let mut text = chars_of(base);
    push_str(&mut text, " (");
    let joined = join_strings(&extras, ", ");
    push_str(&mut text, joined.as_str());
    push_str(&mut text, ")");
    let mut r = resp;
    r.message = Some(string_of(text.as_slice()));
    r
}

// ---------------------------------------------------------------------------
// Control actions: the answers given before any work is done
// ---------------------------------------------------------------------------

/// What the daemon knows when a control action arrives.
#[derive(Debug, Clone)]
pub struct ControlFacts {
    pub vault_locked: bool,
    /// The time left of an active PIN lockout, in milliseconds.
    pub pin_lockout_remaining: Option<u64>,
    pub has_local_key_cache: bool,
    /// The email a password unlock would log in with.
    pub login_email: String,
    /// How many keys are loaded.
    pub loaded_key_count: usize,
    /// Whether this platform has Windows Hello.
    pub hello_supported: bool,
}

/// Whether the daemon answers at once, or goes on to do the work.
#[derive(Debug, Clone)]
pub enum ControlStep {
    Respond(ControlResponse),
    Proceed,
}

/// The plain answers a precheck can give.
pub enum Answer {
    Success(Seq<char>),
    Failure(Seq<char>),
}

/// The answer to a PIN unlock during a lockout: the whole seconds left, plus one.
pub open spec fn lockout_text(remaining_ms: u64) -> Seq<char> {
    "Too many failed PIN attempts; locked for "@ + decimal((remaining_ms / 1000 + 1) as nat) + "s"@
}

/// The answer a control action gets before any work, if it gets one: an action that
/// needs the vault locked finds it unlocked (or `lock` finds it locked), a PIN unlock
/// meets a lockout, a native unlock finds no local key cache, Windows Hello is asked for
/// where there is none, a password unlock has no email, or a new PIN is shorter than four
/// bytes or there are no keys to protect with it.
pub open spec fn precheck_answer(a: ActionView, f: ControlFacts) -> Option<Answer> {
    match a {
        ActionView::Lock => if f.vault_locked {
            Some(Answer::Success("Vault is already locked"@))
        } else {
            None
        },
        ActionView::Unlock => if !f.vault_locked {
            Some(Answer::Success("Vault is already unlocked"@))
        } else {
            None
        },
        ActionView::UnlockPin(_) => if !f.vault_locked {
            Some(Answer::Success("Vault is already unlocked"@))
        } else if f.pin_lockout_remaining is Some {
            Some(Answer::Failure(lockout_text(f.pin_lockout_remaining->0)))
        } else {
            None
        },
        ActionView::UnlockNative => if !f.vault_locked {
            Some(Answer::Success("Vault is already unlocked"@))
        } else if !f.has_local_key_cache {
            Some(Answer::Failure("No Local Key Cache found"@))
        } else {
            None
        },
        ActionView::UnlockHello => if !f.vault_locked {
            Some(Answer::Success("Vault is already unlocked"@))
        } else if !f.hello_supported {
            Some(Answer::Failure("Windows Hello is only supported on Windows"@))
        } else {
            None
        },
        ActionView::UnlockPassword(_) => if !f.vault_locked {
            Some(Answer::Success("Vault is already unlocked"@))
        } else if f.login_email@.len() == 0 {
            Some(Answer::Failure("No email configured. Cannot re-login."@))
        } else {
            None
        },
        ActionView::SetPin(pin) => if (vstd::utf8::encode_utf8(pin).len() as usize) < 4 {
            Some(Answer::Failure("PIN must be at least 4 characters"@))
        } else if f.loaded_key_count == 0 {
            Some(Answer::Failure("No keys loaded. Login first."@))
        } else {
            None
        },
        _ => None,
    }
}

/// Whether a response carries exactly a plain answer.
pub open spec fn answers(r: ControlResponse, a: Answer) -> bool {
    match a {
        Answer::Success(m) => r.ok && r.error is None && (r.message matches Some(t) && t@ == m),
        Answer::Failure(e) => !r.ok && r.message is None && (r.error matches Some(t) && t@ == e),
    }
}

/// Decide whether a control action is answered at once (see [`precheck_answer`]).
pub fn control_precheck(action: &ControlAction, facts: &ControlFacts) -> (step: ControlStep)
    ensures
        match precheck_answer(action.view(), *facts) {
            None => step is Proceed,
            Some(a) => (step matches ControlStep::Respond(r) && answers(r, a)),
        },
{
    let already_unlocked = "Vault is already unlocked";
    match action {
        ControlAction::Lock => {
            if facts.vault_locked {
                return ControlStep::Respond(ControlResponse::ok("Vault is already locked"));
            }
            ControlStep::Proceed
        },
        ControlAction::Unlock => {
            if !facts.vault_locked {
                return ControlStep::Respond(ControlResponse::ok(already_unlocked));
            }
            ControlStep::Proceed
        },
        ControlAction::UnlockPin { pin: _ } => {
            if !facts.vault_locked {
                return ControlStep::Respond(ControlResponse::ok(already_unlocked));
            }
            match facts.pin_lockout_remaining {
                Some(w) => {
                    let mut text = chars_of("Too many failed PIN attempts; locked for ");
                    let secs = decimal_string(w / 1000 + 1);
                    push_str(&mut text, secs.as_str());
                    push_str(&mut text, "s");
                    let t = string_of(text.as_slice());
                    ControlStep::Respond(ControlResponse::err(t.as_str()))
                },
                None => ControlStep::Proceed,
            }
        },
        ControlAction::UnlockNative => {
            if !facts.vault_locked {
                return ControlStep::Respond(ControlResponse::ok(already_unlocked));
            }
            if !facts.has_local_key_cache {
                return ControlStep::Respond(ControlResponse::err("No Local Key Cache found"));
            }
            ControlStep::Proceed
        },
        ControlAction::UnlockHello => {
            if !facts.vault_locked {
                return ControlStep::Respond(ControlResponse::ok(already_unlocked));
            }
            if !facts.hello_supported {
                return ControlStep::Respond(
                    ControlResponse::err("Windows Hello is only supported on Windows"),
                );
            }
            ControlStep::Proceed
        },
        ControlAction::UnlockPassword { password: _ } => {
            if !facts.vault_locked {
                return ControlStep::Respond(ControlResponse::ok(already_unlocked));
            }
            if facts.login_email.as_str().is_empty() {
                return ControlStep::Respond(
                    ControlResponse::err("No email configured. Cannot re-login."),
                );
            }
            ControlStep::Proceed
        },
        ControlAction::SetPin { pin } => {
            if pin.as_str().len() < 4 {
                return ControlStep::Respond(ControlResponse::err("PIN must be at least 4 characters"));
            }
            if facts.loaded_key_count == 0 {
                return ControlStep::Respond(ControlResponse::err("No keys loaded. Login first."));
            }
            ControlStep::Proceed
        },
        _ => ControlStep::Proceed,
    }
}

/// The answer to `sync`: how many keys were synced, with the note that they load at the
/// next unlock when the vault was locked; or the sync's error.
pub fn sync_response(result: Result<usize, String>, was_locked: bool) -> (r: ControlResponse)
    ensures
        match result {
            Ok(n) => answers(r, Answer::Success(
                if was_locked {
                    "Synced "@ + decimal(n as nat)
                        + " SSH keys to cache; they will load into the agent on next unlock"@
                } else {
                    "Synced "@ + decimal(n as nat) + " SSH keys"@
                },
            )),
            Err(e) => answers(r, Answer::Failure(e@)),
        },
{
    match result {
        Ok(n) => {
            let mut text = chars_of("Synced ");
            let count = decimal_string(n as u64);
            push_str(&mut text, count.as_str());
            if was_locked {
                push_str(&mut text, " SSH keys to cache; they will load into the agent on next unlock");
            } else {
                push_str(&mut text, " SSH keys");
            }
            let t = string_of(text.as_slice());
            ControlResponse::ok(t.as_str())
        },
        Err(e) => ControlResponse::err(e.as_str()),
    }
}

/// The answer to the host-binding dialog: whether the bindings were saved, or why the
/// dialog could not open.
pub fn bind_hosts_response(result: Result<bool, String>) -> (r: ControlResponse)
    ensures
        match result {
            Ok(true) => answers(r, Answer::Success("Bindings updated"@)),
            Ok(false) => answers(r, Answer::Success("Dialog cancelled"@)),
            Err(e) => answers(r, Answer::Failure("Failed to open bind-hosts dialog: "@ + e@)),
        },
{
    match result {
        Ok(saved) => if saved {
            ControlResponse::ok("Bindings updated")
        } else {
            ControlResponse::ok("Dialog cancelled")
        },
        Err(e) => {
            let mut text = chars_of("Failed to open bind-hosts dialog: ");
            push_str(&mut text, e.as_str());
            let t = string_of(text.as_slice());
            ControlResponse::err(t.as_str())
        },
    }
}

// ---------------------------------------------------------------------------
// Notification settings
// ---------------------------------------------------------------------------

/// The notifications URL to connect to: the configured one, else the one the server
/// advertised, else the default for the base URL.
pub fn resolve_notifications_url(config: &Config, discovered: Option<String>) -> (r: String)
    ensures
        r@ == match config.server.notifications_url {
            Some(u) => u@,
            None => match discovered {
                Some(d) => d@,
                None => crate::config::notifications_url_for(config.server.base_url@),
            },
        },
{
    match (&config.server.notifications_url, discovered) {
        (Some(u), _) => u.clone(),
        (None, Some(d)) => d,
        (None, None) => config.server.notifications_url(),
    }
}

/// The refresh token a device session keeps under a PIN, if it keeps one and the PIN
/// opens it.
pub open spec fn session_token_under(s: SessionFile, pin: Seq<char>) -> Option<Seq<char>> {
    match s.pin_encrypted_token {
        None => None,
        Some(t) => match pin_decrypt_spec(t@, pin) {
            Ok(x) => Some(x),
            Err(_) => None,
        },
    }
}

/// The refresh token to restore an API session with after a PIN unlock.
pub fn restore_refresh_token(session: &SessionFile, pin: &str) -> (r: Option<String>)
    ensures
        crate::text::opt_view(r) == session_token_under(*session, pin@),
{
    match &session.pin_encrypted_token {
        None => None,
        Some(t) => match crate::crypto::pin_decrypt(t.as_str(), pin) {
            Ok(x) => Some(x),
            Err(_) => None,
        },
    }
}

/// Law: a device session saved with a PIN (as [`device_session_to_save`] writes it)
/// gives its refresh token back with that PIN.
pub proof fn law_session_reopens_with_its_pin(s: SessionFile, pin: Seq<char>, token: Seq<char>)
    requires
        s.pin_encrypted_token matches Some(t) && pin_decrypt_spec(t@, pin) == Ok::<Seq<char>, CryptoError>(token),
    ensures
        session_token_under(s, pin) == Some(token),
{
}

/// The notification options the configuration asks for: every duration at least one
/// second, except the fallback interval, which is the sync interval.
pub fn notification_options(config: &Config) -> (o: NotificationOptions)
    ensures
        o.keepalive_interval == if config.agent.notification_keepalive_interval >= 1 {
            config.agent.notification_keepalive_interval
        } else {
            1
        },
        o.idle_timeout == if config.agent.notification_idle_timeout >= 1 {
            config.agent.notification_idle_timeout
        } else {
            1
        },
        o.reconnect_attempts_before_fallback
            == config.agent.notification_reconnect_attempts_before_fallback,
        o.reconnect_max_backoff == if config.agent.notification_reconnect_max_backoff >= 1 {
            config.agent.notification_reconnect_max_backoff
        } else {
            1
        },
        o.fallback_sync_interval == config.agent.sync_interval,
{
    let a = &config.agent;
    NotificationOptions {
        keepalive_interval: if a.notification_keepalive_interval >= 1 {
            a.notification_keepalive_interval
        } else {
            1
        },
        idle_timeout: if a.notification_idle_timeout >= 1 {
            a.notification_idle_timeout
        } else {
            1
        },
        reconnect_attempts_before_fallback: a.notification_reconnect_attempts_before_fallback,
        reconnect_max_backoff: if a.notification_reconnect_max_backoff >= 1 {
            a.notification_reconnect_max_backoff
        } else {
            1
        },
        fallback_sync_interval: a.sync_interval,
    }
}

// ---------------------------------------------------------------------------
// Keys held in memory
// ---------------------------------------------------------------------------

/// Wraps `zeroize::Zeroize::zeroize` on a `String`. Claims: the string's bytes are
/// overwritten and it is left empty, as zeroize's `Vec` implementation ends in `clear`.
#[verifier::external_body]
fn zeroize_string(s: &mut String)
    ensures
        final(s)@ == Seq::<char>::empty(),
{
    zeroize::Zeroize::zeroize(s);
}

pub open spec fn tuples_view(v: Seq<(String, String, String)>) -> Seq<(Seq<char>, Seq<char>, Seq<char>)> {
    v.map_values(|t: (String, String, String)| (t.0@, t.1@, t.2@))
}

/// The decrypted key tuples (private key, name, vault item id); private keys are wiped
/// from memory when the cache is cleared or replaced.
pub struct SecureKeyCache {
    keys: Vec<(String, String, String)>,
}

impl SecureKeyCache {
    pub closed spec fn view(&self) -> Seq<(Seq<char>, Seq<char>, Seq<char>)> {
        tuples_view(self.keys@)
    }

    pub fn new() -> (c: SecureKeyCache)
        ensures
            c@ == Seq::<(Seq<char>, Seq<char>, Seq<char>)>::empty(),
    {
        let c = SecureKeyCache { keys: Vec::new() };
        assert(c@ =~= Seq::<(Seq<char>, Seq<char>, Seq<char>)>::empty());
        c
    }

    /// How many keys the cache holds.
    pub fn len(&self) -> (n: usize)
        ensures
            n == self@.len(),
    {
        self.keys.len()
    }

    /// Replace the keys, wiping the old private keys first.
    pub fn set(&mut self, keys: Vec<(String, String, String)>)
        ensures
            final(self)@ == tuples_view(keys@),
    {
        self.clear();
        self.keys = keys;
    }

    /// Wipe every private key and empty the cache.
    pub fn clear(&mut self)
        ensures
            final(self)@ == Seq::<(Seq<char>, Seq<char>, Seq<char>)>::empty(),
    {
        let mut i: usize = 0;
        let n = self.keys.len();
        while i < n
            invariant
                i <= n,
                self.keys@.len() == n,
            decreases n - i,
        {
            let mut t = self.keys.remove(i);
            zeroize_string(&mut t.0);
            self.keys.insert(i, t);
            i += 1;
        }
        self.keys.clear();
        assert(self@ =~= Seq::<(Seq<char>, Seq<char>, Seq<char>)>::empty());
    }

    /// A copy of the keys.
    pub fn clone_inner(&self) -> (r: Vec<(String, String, String)>)
        ensures
            tuples_view(r@) == self@,
    {
        let mut out: Vec<(String, String, String)> = Vec::new();
        let mut i: usize = 0;
        while i < self.keys.len()
            invariant
                i <= self.keys@.len(),
                tuples_view(out@) == tuples_view(self.keys@).take(i as int),
            decreases self.keys.len() - i,
        {
            let t = &self.keys[i];
            let ghost before = tuples_view(out@);
            out.push((t.0.clone(), t.1.clone(), t.2.clone()));
            assert(tuples_view(out@) =~= before.push((t.0@, t.1@, t.2@)));
            assert(tuples_view(self.keys@).take(i + 1) =~= tuples_view(self.keys@).take(i as int).push(
                (t.0@, t.1@, t.2@),
            ));
            i += 1;
        }
        assert(tuples_view(self.keys@).take(self.keys@.len() as int) =~= tuples_view(self.keys@));
        out
    }
}

/// The local cache key while the vault is unlocked.
pub struct LocalCacheKeyState {
    pub key: Option<SymmetricKey>,
}

impl Default for LocalCacheKeyState {
    fn default() -> (s: LocalCacheKeyState)
        ensures
            s.key is None,
    {
        LocalCacheKeyState { key: None }
    }
}

impl LocalCacheKeyState {
    pub fn set(&mut self, key: SymmetricKey)
        ensures
            final(self).key == Some(key),
    {
        self.key = Some(key);
    }

    /// A copy of the key, if one is held.
    pub fn clone_key(&self) -> (k: Option<SymmetricKey>)
        ensures
            match self.key {
                Some(a) => k matches Some(b) && b.enc() == a.enc() && b.mac() == a.mac(),
                None => k is None,
            },
    {
        match &self.key {
            Some(a) => Some(a.duplicate()),
            None => None,
        }
    }

    pub fn clear(&mut self)
        ensures
            final(self).key is None,
    {
        self.key = None;
    }
}

/// Lock the vault: mark it locked and forget the key material, the local cache key (so
/// the cache can no longer be refreshed) and the authorizations remembered until lock.
/// The key identities, kept apart, stay listable.
pub fn lock_vault(
    vault_locked: &mut bool,
    cached_key_tuples: &mut SecureKeyCache,
    local_cache_key_state: &mut LocalCacheKeyState,
    authorization_memory: &mut Vec<(String, String)>,
)
    ensures
        *final(vault_locked),
        final(cached_key_tuples)@ == Seq::<(Seq<char>, Seq<char>, Seq<char>)>::empty(),
        final(local_cache_key_state).key is None,
        final(authorization_memory)@.len() == 0,
{
    *vault_locked = true;
    cached_key_tuples.clear();
    local_cache_key_state.clear();
    authorization_memory.clear();
}

/// What the daemon holds in memory of remembered key and session material.
pub struct RememberedMaterial {
    pub local_key_cache: Option<LocalKeyCacheFile>,
    pub vault_file: Option<VaultFile>,
    pub pin_encrypted: Option<String>,
    pub identities: Vec<(String, String, String)>,
    pub client: Option<BitwardenClient>,
    pub pending_sync: bool,
}

/// The in-memory half of `forget`: drop the cache, the legacy vault, the PIN slot,
/// the key identities and the API session, drop a pending sync and the stale-cache
/// flag, and lock the vault as `lock_vault` does. The files themselves are deleted
/// by the caller.
pub fn forget_remembered_material(
    material: &mut RememberedMaterial,
    notification: &mut NotificationRuntimeState,
    vault_locked: &mut bool,
    cached_key_tuples: &mut SecureKeyCache,
    local_cache_key_state: &mut LocalCacheKeyState,
    authorization_memory: &mut Vec<(String, String)>,
) -> (r: ControlResponse)
    ensures
        final(material).local_key_cache is None,
        final(material).vault_file is None,
        final(material).pin_encrypted is None,
        final(material).identities@.len() == 0,
        final(material).client is None,
        !final(material).pending_sync,
        !final(notification).stale_cache,
        final(notification).stale_cache_error is None,
        final(notification).state == old(notification).state,
        final(notification).url == old(notification).url,
        final(notification).last_error == old(notification).last_error,
        final(notification).reconnect_attempts == old(notification).reconnect_attempts,
        *final(vault_locked),
        final(cached_key_tuples)@ == Seq::<(Seq<char>, Seq<char>, Seq<char>)>::empty(),
        final(local_cache_key_state).key is None,
        final(authorization_memory)@.len() == 0,
        r.ok,
        r.message matches Some(m) && m@
            == "Forgot local key cache, legacy vault file, and device session material"@,
        r.error is None,
        r.details is None,
{
    material.local_key_cache = None;
    material.vault_file = None;
    material.pin_encrypted = None;
    material.identities.clear();
    material.client = None;
    material.pending_sync = false;
    notification.stale_cache = false;
    notification.stale_cache_error = None;
    lock_vault(vault_locked, cached_key_tuples, local_cache_key_state, authorization_memory);
    ControlResponse::ok("Forgot local key cache, legacy vault file, and device session material")
}

// ---------------------------------------------------------------------------
// The device session
// ---------------------------------------------------------------------------

/// The refresh token a kept session holds under the PIN, and under Windows Hello.
pub open spec fn kept_tokens(existing: Option<SessionFile>) -> (Option<Seq<char>>, Option<Seq<char>>) {
    match existing {
        Some(s) => (crate::text::opt_view(s.pin_encrypted_token), crate::text::opt_view(s.hello_encrypted_token)),
        None => (None, None),
    }
}

/// The device session to save for a session with a refresh token: the device id and
/// identity URL, the refresh token encrypted under `pin` when one is given and a key
/// can be derived from it (else the token the kept session had under a PIN), and the
/// kept Windows Hello token. Without a refresh token there is nothing to save.
pub fn device_session_to_save(client: &BitwardenClient, pin: Option<&str>, existing: &Option<SessionFile>) -> (r: Option<SessionFile>)
    ensures
        client.refresh_token is None <==> r is None,
        r matches Some(s) ==> {
            &&& s.version == 1
            &&& s.device_id@ == client.device_id@
            &&& s.identity_url@ == client.identity_url@
            &&& crate::text::opt_view(s.hello_encrypted_token) == kept_tokens(*existing).1
            &&& match pin {
                Some(p) if pin_key(p@) is Some => s.pin_encrypted_token matches Some(t) && pin_decrypt_spec(
                    t@,
                    p@,
                ) == Ok::<Seq<char>, CryptoError>(client.refresh_token->0@),
                _ => crate::text::opt_view(s.pin_encrypted_token) == kept_tokens(*existing).0,
            }
        },
{
    let token = match &client.refresh_token {
        Some(t) => t,
        None => return None,
    };
    let (kept_pin, kept_hello) = match existing {
        Some(s) => (crate::text::clone_opt(&s.pin_encrypted_token), crate::text::clone_opt(&s.hello_encrypted_token)),
        None => (None, None),
    };
    let pin_encrypted_token = match pin {
        Some(p) => match pin_encrypt(token.as_str(), p) {
            Ok(enc) => Some(enc),
            Err(_) => kept_pin,
        },
        None => kept_pin,
    };
    Some(SessionFile {
        version: 1,
        device_id: client.device_id.clone(),
        pin_encrypted_token,
        hello_encrypted_token: kept_hello,
        identity_url: client.identity_url.clone(),
    })
}

/// The PIN-encrypted key tuples to unlock with: those in memory, else the vault file's.
pub open spec fn pin_source_spec(in_memory: Option<String>, vault_file: Option<VaultFile>) -> Option<Seq<char>> {
    match in_memory {
        Some(m) => Some(m@),
        None => match vault_file {
            Some(v) => Some(v.pin_encrypted@),
            None => None,
        },
    }
}

/// The PIN-encrypted key tuples to unlock with: those in memory, else the vault file's.
pub fn pin_encrypted_source(in_memory: &Option<String>, vault_file: &Option<VaultFile>) -> (r: Option<String>)
    ensures
        crate::text::opt_view(r) == pin_source_spec(*in_memory, *vault_file),
{
    match in_memory {
        Some(m) => Some(m.clone()),
        None => match vault_file {
            Some(v) => Some(v.pin_encrypted.clone()),
            None => None,
        },
    }
}

// ---------------------------------------------------------------------------
// Daemon files and the doctor report
// ---------------------------------------------------------------------------

/// The daemon's data directory: the shared data directory.
pub fn data_dir(env: &StorageEnv) -> (r: Result<String, ConfigError>)
    ensures
        string_result(r) == shared_dir_spec(*env),
{
    config_dir(env)
}

/// The daemon's PID file.
pub fn pid_file_path(env: &StorageEnv) -> (r: Result<String, ConfigError>)
    ensures
        string_result(r) == join_in(shared_dir_spec(*env), "sshwarden.pid"@),
{
    join_result(data_dir(env), "sshwarden.pid")
}

/// The daemon's log file.
pub fn log_file_path(env: &StorageEnv) -> (r: Result<String, ConfigError>)
    ensures
        string_result(r) == join_in(shared_dir_spec(*env), "sshwarden.log"@),
{
    join_result(data_dir(env), "sshwarden.log")
}

/// One line of the doctor report.
#[derive(Debug, Clone)]
pub struct DoctorCheck {
    pub name: String,
    pub ok: bool,
    pub message: String,
}

impl DoctorCheck {
    /// A passed check.
    pub fn ok(name: &str, message: &str) -> (c: DoctorCheck)
        ensures
            c.name@ == name@,
            c.ok,
            c.message@ == message@,
    {
        DoctorCheck { name: string_of(chars_of(name).as_slice()), ok: true, message: string_of(chars_of(message).as_slice()) }
    }

    /// A check that found a problem.
    pub fn warn(name: &str, message: &str) -> (c: DoctorCheck)
        ensures
            c.name@ == name@,
            !c.ok,
            c.message@ == message@,
    {
        DoctorCheck { name: string_of(chars_of(name).as_slice()), ok: false, message: string_of(chars_of(message).as_slice()) }
    }
}

/// The base URL a client uses: the override, else the configured one.
pub open spec fn client_base(configured: Seq<char>, over: Option<&str>) -> Seq<char> {
    match over {
        Some(b) => b@,
        None => configured,
    }
}

/// A client for the configured server (or another base URL): the configured API and
/// identity URLs, else `{base}/api` and `{base}/identity`.
pub fn create_client(config: &Config, base_url_override: Option<&str>) -> (c: BitwardenClient)
    ensures
        c.api_url@ == match config.server.api_url {
            Some(u) => u@,
            None => client_base(config.server.base_url@, base_url_override) + "/api"@,
        },
        c.identity_url@ == match config.server.identity_url {
            Some(u) => u@,
            None => client_base(config.server.base_url@, base_url_override) + "/identity"@,
        },
        c.access_token is None,
        c.refresh_token is None,
        c.user_key is None,
{
    let base: &str = match base_url_override {
        Some(b) => b,
        None => config.server.base_url.as_str(),
    };
    let api_url = match &config.server.api_url {
        Some(u) => string_of(chars_of(u.as_str()).as_slice()),
        None => {
            let mut v = chars_of(base);
            push_str(&mut v, "/api");
            string_of(v.as_slice())
        },
    };
    let identity_url = match &config.server.identity_url {
        Some(u) => string_of(chars_of(u.as_str()).as_slice()),
        None => {
            let mut v = chars_of(base);
            push_str(&mut v, "/identity");
            string_of(v.as_slice())
        },
    };
    BitwardenClient::new(base, api_url.as_str(), identity_url.as_str())
}

// ---------------------------------------------------------------------------
// The daemon loop's decisions
// ---------------------------------------------------------------------------

/// What the daemon does about a notification event.
#[derive(Debug, Clone, Copy, PartialEq, Eq, Structural)]
pub enum SyncEventAction {
    /// Remember that a sync is due once the vault is unlocked.
    MarkPending,
    /// Sync now; `fallback` tells whether notifications are degraded.
    Sync { fallback: bool },
    /// Lock the vault.
    Lock,
}

/// A change or a degraded hub means syncing, which has to wait while the vault is
/// locked; a remote logout locks the vault.
pub open spec fn sync_event_action_spec(event: SyncEvent, vault_locked: bool) -> SyncEventAction {
    match event {
        SyncEvent::LogOut => SyncEventAction::Lock,
        SyncEvent::CipherChanged => if vault_locked {
            SyncEventAction::MarkPending
        } else {
            SyncEventAction::Sync { fallback: false }
        },
        SyncEvent::FallbackSyncDue => if vault_locked {
            SyncEventAction::MarkPending
        } else {
            SyncEventAction::Sync { fallback: true }
        },
    }
}

/// Decide what a notification event calls for (see [`sync_event_action_spec`]). A sync
/// that then fails leaves the sync pending.
pub fn sync_event_action(event: SyncEvent, vault_locked: bool) -> (a: SyncEventAction)
    ensures
        a == sync_event_action_spec(event, vault_locked),
{
    match event {
        SyncEvent::LogOut => SyncEventAction::Lock,
        SyncEvent::CipherChanged => if vault_locked {
            SyncEventAction::MarkPending
        } else {
            SyncEventAction::Sync { fallback: false }
        },
        SyncEvent::FallbackSyncDue => if vault_locked {
            SyncEventAction::MarkPending
        } else {
            SyncEventAction::Sync { fallback: true }
        },
    }
}

/// Whether the unlocked vault has been idle long enough to lock it: a lock timeout (in
/// seconds) of zero never locks.
pub open spec fn auto_lock_due(lock_timeout: u64, vault_locked: bool, last_activity_ms: u64, now_ms: u64) -> bool {
    &&& lock_timeout > 0
    &&& !vault_locked
    &&& now_ms >= last_activity_ms
    &&& (now_ms - last_activity_ms) / 1000 >= lock_timeout
}

/// Decide whether to lock the vault for inactivity.
pub fn should_auto_lock(lock_timeout: u64, vault_locked: bool, last_activity_ms: u64, now_ms: u64) -> (b: bool)
    ensures
        b == auto_lock_due(lock_timeout, vault_locked, last_activity_ms, now_ms),
{
    lock_timeout > 0 && !vault_locked && now_ms >= last_activity_ms && (now_ms - last_activity_ms) / 1000
        >= lock_timeout
}

/// How the daemon starts.
#[derive(Debug, Clone, Copy, PartialEq, Eq, Structural)]
pub enum StartupPlan {
    /// A local key cache is there: start locked, listing its key identities.
    LockedWithIdentities,
    /// Only a legacy vault file is there: start locked, with no keys listed.
    LockedLegacy,
    /// Nothing remembered: log in with the configured email.
    Login,
    /// Nothing remembered and no email configured: ask for one first.
    AskEmail,
}

/// How the daemon starts, from what it remembers and whether an email is configured.
pub fn startup_plan(has_local_key_cache: bool, has_vault_file: bool, email_configured: bool) -> (p: StartupPlan)
    ensures
        p == if has_local_key_cache {
            StartupPlan::LockedWithIdentities
        } else if has_vault_file {
            StartupPlan::LockedLegacy
        } else if email_configured {
            StartupPlan::Login
        } else {
            StartupPlan::AskEmail
        },
{
    if has_local_key_cache {
        StartupPlan::LockedWithIdentities
    } else if has_vault_file {
        StartupPlan::LockedLegacy
    } else if email_configured {
        StartupPlan::Login
    } else {
        StartupPlan::AskEmail
    }
}

// ---------------------------------------------------------------------------
// Key material fingerprints and remembered authorizations
// ---------------------------------------------------------------------------

/// A lowercase hexadecimal digit.
pub open spec fn hex_digit(d: nat) -> char {
    if d < 10 {
        ((d + 48) as u32) as char
    } else {
        ((d + 87) as u32) as char
    }
}

/// Bytes in lowercase hexadecimal, two digits each, as `{:x}` writes a digest.
pub open spec fn hex_of(b: Seq<u8>) -> Seq<char>
    decreases b.len(),
{
    if b.len() == 0 {
        Seq::empty()
    } else {
        hex_of(b.drop_last()).push(hex_digit((b.last() / 16) as nat)).push(hex_digit((b.last() % 16) as nat))
    }
}

fn hex_digit_exec(d: u8) -> (c: char)
    requires
        d < 16,
    ensures
        c == hex_digit(d as nat),
{
    if d < 10 {
        (d + 48) as char
    } else {
        (d + 87) as char
    }
}

fn hex_string(b: &[u8]) -> (r: String)
    ensures
        r@ == hex_of(b@),
{
    let mut out: Vec<char> = Vec::new();
    let mut i: usize = 0;
    while i < b.len()
        invariant
            i <= b@.len(),
            out@ == hex_of(b@.take(i as int)),
        decreases b.len() - i,
    {
        assert(b@.take(i + 1).drop_last() =~= b@.take(i as int));
        assert(b@.take(i + 1).last() == b@[i as int]);
        out.push(hex_digit_exec(b[i] / 16));
        out.push(hex_digit_exec(b[i] % 16));
        i += 1;
    }
    assert(b@.take(b@.len() as int) =~= b@);
    string_of(out.as_slice())
}

/// The fingerprint of a private key: the SHA-256 of its text, in hexadecimal.
pub open spec fn fingerprint_of(pem: Seq<char>) -> Seq<char> {
    hex_of(spec_sha256(vstd::utf8::encode_utf8(pem)))
}

/// Pairs of (vault item id, value) as plain values.
pub open spec fn pairs_view(v: Seq<(String, String)>) -> Seq<(Seq<char>, Seq<char>)> {
    v.map_values(|p: (String, String)| (p.0@, p.1@))
}

/// The value of the last pair with this id, as a map built from the pairs in order has.
pub open spec fn lookup(s: Seq<(Seq<char>, Seq<char>)>, id: Seq<char>) -> Option<Seq<char>>
    decreases s.len(),
{
    if s.len() == 0 {
        None
    } else if s.last().0 == id {
        Some(s.last().1)
    } else {
        lookup(s.drop_last(), id)
    }
}

/// The fingerprint of each key tuple (private key, name, id), by id, in order.
pub open spec fn fingerprints_spec(keys: Seq<(Seq<char>, Seq<char>, Seq<char>)>) -> Seq<(Seq<char>, Seq<char>)> {
    keys.map_values(|k: (Seq<char>, Seq<char>, Seq<char>)| (k.2, fingerprint_of(k.0)))
}

/// The key material fingerprints of key tuples (private key, name, id), by id.
pub fn key_material_fingerprints_from_tuples(keys: &[(String, String, String)]) -> (r: Vec<(String, String)>)
    ensures
        pairs_view(r@) == fingerprints_spec(tuples_view(keys@)),
{
    let mut out: Vec<(String, String)> = Vec::new();
    let mut i: usize = 0;
    while i < keys.len()
        invariant
            i <= keys@.len(),
            pairs_view(out@) == fingerprints_spec(tuples_view(keys@)).take(i as int),
        decreases keys.len() - i,
    {
        let k = &keys[i];
        let digest = sha256(k.0.as_str().as_bytes());
        let hex = hex_string(digest.as_slice());
        let ghost before = pairs_view(out@);
        out.push((k.2.clone(), hex));
        assert(pairs_view(out@) =~= before.push((k.2@, fingerprint_of(k.0@))));
        assert(fingerprints_spec(tuples_view(keys@)).take(i + 1) =~= fingerprints_spec(tuples_view(keys@)).take(
            i as int,
        ).push((k.2@, fingerprint_of(k.0@))));
        i += 1;
    }
    assert(fingerprints_spec(tuples_view(keys@)).take(keys@.len() as int) =~= fingerprints_spec(
        tuples_view(keys@),
    ));
    out
}

fn lookup_exec(s: &Vec<(String, String)>, id: &String) -> (r: Option<String>)
    ensures
        crate::text::opt_view(r) == lookup(pairs_view(s@), id@),
{
    let idc = chars_of(id.as_str());
    let mut j: usize = s.len();
    assert(pairs_view(s@).take(j as int) =~= pairs_view(s@));
    while j > 0
        invariant
            j <= s@.len(),
            idc@ == id@,
            lookup(pairs_view(s@), id@) == lookup(pairs_view(s@).take(j as int), id@),
        decreases j,
    {
        let ghost t = pairs_view(s@).take(j as int);
        assert(t.drop_last() =~= pairs_view(s@).take(j - 1));
        assert(t.last() == (s@[j - 1].0@, s@[j - 1].1@));
        if crate::text::chars_equal(chars_of(s[j - 1].0.as_str()).as_slice(), idc.as_slice()) {
            return Some(s[j - 1].1.clone());
        }
        j -= 1;
    }
    None
}

fn same_text(a: &Option<String>, b: &Option<String>) -> (r: bool)
    ensures
        r == (crate::text::opt_view(*a) == crate::text::opt_view(*b)),
{
    match (a, b) {
        (Some(x), Some(y)) => crate::text::chars_equal(chars_of(x.as_str()).as_slice(), chars_of(y.as_str()).as_slice()),
        (None, None) => true,
        _ => false,
    }
}

/// Whether a key's material changed in a sync: its fingerprint differs, or it appeared or
/// went away.
pub open spec fn material_changed(old: Seq<(Seq<char>, Seq<char>)>, new: Seq<(Seq<char>, Seq<char>)>, id: Seq<char>) -> bool {
    lookup(old, id) != lookup(new, id)
}

/// The remembered authorizations (vault item id, operation) that survive a sync: those
/// of keys whose material did not change.
pub open spec fn surviving(
    memory: Seq<(Seq<char>, Seq<char>)>,
    old: Seq<(Seq<char>, Seq<char>)>,
    new: Seq<(Seq<char>, Seq<char>)>,
) -> Seq<(Seq<char>, Seq<char>)>
    decreases memory.len(),
{
    if memory.len() == 0 {
        memory
    } else if material_changed(old, new, memory.last().0) {
        surviving(memory.drop_last(), old, new)
    } else {
        surviving(memory.drop_last(), old, new).push(memory.last())
    }
}

/// After a sync, forget the remembered authorizations of keys whose material changed (a
/// changed, new or removed key); returns how many were forgotten and the new fingerprints.
pub fn clear_authorization_memory_for_changed_keys(
    old_fingerprints: &Vec<(String, String)>,
    new_keys: &[(String, String, String)],
    memory: &mut Vec<(String, String)>,
) -> (r: (usize, Vec<(String, String)>))
    ensures
        pairs_view(r.1@) == fingerprints_spec(tuples_view(new_keys@)),
        pairs_view(final(memory)@) == surviving(
            pairs_view(old(memory)@),
            pairs_view(old_fingerprints@),
            fingerprints_spec(tuples_view(new_keys@)),
        ),
        r.0 == old(memory)@.len() - final(memory)@.len(),
{
    let new_fps = key_material_fingerprints_from_tuples(new_keys);
    let ghost oldv = pairs_view(old_fingerprints@);
    let ghost newv = pairs_view(new_fps@);
    let ghost m0 = pairs_view(memory@);
    let n0 = memory.len();
    let mut kept: Vec<(String, String)> = Vec::new();
    let mut i: usize = 0;
    while i < memory.len()
        invariant
            i <= memory@.len(),
            memory@.len() == n0,
            m0 == pairs_view(memory@),
            oldv == pairs_view(old_fingerprints@),
            newv == pairs_view(new_fps@),
            pairs_view(kept@) == surviving(m0.take(i as int), oldv, newv),
            kept@.len() <= i,
        decreases memory.len() - i,
    {
        let entry = &memory[i];
        assert(m0.take(i + 1).drop_last() =~= m0.take(i as int));
        assert(m0.take(i + 1).last() == (entry.0@, entry.1@));
        let before_fp = lookup_exec(old_fingerprints, &entry.0);
        let after_fp = lookup_exec(&new_fps, &entry.0);
        if same_text(&before_fp, &after_fp) {
            let ghost before = pairs_view(kept@);
            kept.push((entry.0.clone(), entry.1.clone()));
            assert(pairs_view(kept@) =~= before.push((entry.0@, entry.1@)));
        }
        i += 1;
    }
    assert(m0.take(n0 as int) =~= m0);
    let cleared = n0 - kept.len();
    *memory = kept;
    (cleared, new_fps)
}

/// After a sync no remembered authorization is left for a key whose material changed,
/// and every one for an unchanged key is kept, in order.
pub proof fn law_authorizations_follow_key_material(
    memory: Seq<(Seq<char>, Seq<char>)>,
    old: Seq<(Seq<char>, Seq<char>)>,
    new: Seq<(Seq<char>, Seq<char>)>,
)
    ensures
        forall|i: int| 0 <= i < surviving(memory, old, new).len()
            ==> !material_changed(old, new, #[trigger] surviving(memory, old, new)[i].0),
        (forall|i: int| 0 <= i < memory.len() ==> !material_changed(old, new, #[trigger] memory[i].0))
            ==> surviving(memory, old, new) == memory,
    decreases memory.len(),
{
    if memory.len() > 0 {
        law_authorizations_follow_key_material(memory.drop_last(), old, new);
        let prev = surviving(memory.drop_last(), old, new);
        let cur = surviving(memory, old, new);
        assert forall|i: int| 0 <= i < cur.len() implies !material_changed(old, new, #[trigger] cur[i].0) by {
            if i < prev.len() {
                assert(cur[i] == prev[i]);
            }
        }
        if forall|i: int| 0 <= i < memory.len() ==> !material_changed(old, new, #[trigger] memory[i].0) {
            assert forall|i: int| 0 <= i < memory.drop_last().len() implies !material_changed(
                old,
                new,
                #[trigger] memory.drop_last()[i].0,
            ) by {
                assert(memory.drop_last()[i] == memory[i]);
            }
            assert(!material_changed(old, new, memory[memory.len() - 1].0));
            assert(memory.drop_last().push(memory.last()) =~= memory);
        }
    }
}

/// The doctor report's line for a check: `[ok]` or `[warn]`, its name and its message.
pub open spec fn doctor_line(c: DoctorCheck) -> Seq<char> {
    (if c.ok {
        "[ok] "@
    } else {
        "[warn] "@
    }) + c.name@ + ": "@ + c.message@
}

/// The doctor report for a human reader: one line per check, in order.
pub fn doctor_report_lines(checks: &Vec<DoctorCheck>) -> (r: Vec<String>)
    ensures
        r@.len() == checks@.len(),
        forall|i: int| 0 <= i < checks@.len() ==> #[trigger] r@[i]@ == doctor_line(checks@[i]),
{
    let mut out: Vec<String> = Vec::new();
    let mut i: usize = 0;
    while i < checks.len()
        invariant
            i <= checks@.len(),
            out@.len() == i,
            forall|j: int| 0 <= j < i ==> #[trigger] out@[j]@ == doctor_line(checks@[j]),
        decreases checks.len() - i,
    {
        let c = &checks[i];
        let mut v = if c.ok {
            chars_of("[ok] ")
        } else {
            chars_of("[warn] ")
        };
        push_str(&mut v, c.name.as_str());
        push_str(&mut v, ": ");
        push_str(&mut v, c.message.as_str());
        out.push(string_of(v.as_slice()));
        i += 1;
    }
    out
}

/// Whether every doctor check passed.
pub fn all_checks_ok(checks: &Vec<DoctorCheck>) -> (b: bool)
    ensures
        b == forall|i: int| 0 <= i < checks@.len() ==> #[trigger] checks@[i].ok,
{
    let mut i: usize = 0;
    while i < checks.len()
        invariant
            i <= checks@.len(),
            forall|j: int| 0 <= j < i ==> #[trigger] checks@[j].ok,
        decreases checks.len() - i,
    {
        if !checks[i].ok {
            return false;
        }
        i += 1;
    }
    true
}

// ---------------------------------------------------------------------------
// Taking the keys of a sync or a login
// ---------------------------------------------------------------------------

/// The key tuples (private key, name, vault item id) of decrypted keys, in order.
pub fn key_tuples_of(keys: &[DecryptedSshKey]) -> (r: Vec<(String, String, String)>)
    ensures
        tuples_view(r@) == keys@.map_values(|k: DecryptedSshKey| k.view()),
{
    let mut out: Vec<(String, String, String)> = Vec::new();
    let mut i: usize = 0;
    while i < keys.len()
        invariant
            i <= keys@.len(),
            tuples_view(out@) == keys@.take(i as int).map_values(|k: DecryptedSshKey| k.view()),
        decreases keys.len() - i,
    {
        let k = &keys[i];
        let a = k.private_key_pem.clone();
        let b = k.name.clone();
        let c = k.cipher_id.clone();
        let ghost before = out@;
        out.push((a, b, c));
        assert(out@ == before.push((a, b, c)));
        assert(tuples_view(out@) =~= tuples_view(before).push((a@, b@, c@)));
        assert(keys@.take(i + 1) =~= keys@.take(i as int).push(keys@[i as int]));
        assert(keys@[i as int].view() == (a@, b@, c@));
        assert(tuples_view(out@) =~= keys@.take(i + 1).map_values(|k: DecryptedSshKey| k.view()));
        i += 1;
    }
    assert(keys@.take(keys@.len() as int) =~= keys@);
    out
}

/// The note kept when a sync could not refresh the local key cache: the refresh error's
/// own message, which is what encrypting under a key that is not 32 bytes reports.
pub open spec fn refresh_failure_text() -> Seq<char> {
    "AES-CBC encrypt init failed: Invalid Length"@
}

/// Mark the local key cache stale with the error that kept it from being refreshed or
/// saved; nothing else of the notification state changes.
pub fn mark_cache_stale(notification: &mut NotificationRuntimeState, error: String)
    ensures
        *final(notification) == (NotificationRuntimeState {
            stale_cache: true,
            stale_cache_error: Some(error),
            ..*old(notification)
        }),
{
    notification.stale_cache = true;
    notification.stale_cache_error = Some(error);
}

/// Take the key tuples a sync brought: they become the loaded keys and the listed
/// identities, the authorizations remembered for keys whose material changed are
/// forgotten (returning how many), and the local key cache, when it and its key are both
/// held, is rebuilt for the new tuples; when that fails the cache is marked stale.
pub fn apply_sync(
    tuples: Vec<(String, String, String)>,
    keys: &mut SecureKeyCache,
    identities: &mut Vec<(String, String, String)>,
    fingerprints: &mut Vec<(String, String)>,
    memory: &mut Vec<(String, String)>,
    cache: &mut Option<LocalKeyCacheFile>,
    local_cache_key: &LocalCacheKeyState,
    notification: &mut NotificationRuntimeState,
) -> (cleared: usize)
    ensures
        final(keys)@ == tuples_view(tuples@),
        tuples_view(final(identities)@) == tuples_view(tuples@),
        pairs_view(final(fingerprints)@) == fingerprints_spec(tuples_view(tuples@)),
        pairs_view(final(memory)@) == surviving(
            pairs_view(old(memory)@),
            pairs_view(old(fingerprints)@),
            fingerprints_spec(tuples_view(tuples@)),
        ),
        cleared == old(memory)@.len() - final(memory)@.len(),
        match (*old(cache), local_cache_key.key) {
            (Some(c), Some(k)) => if k.enc().len() == 32 {
                &&& *final(cache) matches Some(n) && crate::envelope::holds_envelope(
                    n,
                    tuples_view(tuples@),
                    c.header.email@,
                    c.header.server_url@,
                    k,
                    crate::envelope::slots_view(c.local_cache_key),
                )
                &&& *final(notification) == *old(notification)
            } else {
                &&& *final(cache) == *old(cache)
                &&& final(notification).stale_cache
                &&& final(notification).stale_cache_error matches Some(t) && t@ == refresh_failure_text()
            },
            _ => *final(cache) == *old(cache) && *final(notification) == *old(notification),
        },
{
    let (count, new_fps) = clear_authorization_memory_for_changed_keys(fingerprints, tuples.as_slice(), memory);
    *fingerprints = new_fps;
    let refreshed = match (&*cache, &local_cache_key.key) {
        (Some(c), Some(k)) => Some(crate::envelope::refresh_envelope_local_key_cache(tuples.as_slice(), c, k)),
        _ => None,
    };
    match refreshed {
        Some(Ok(n)) => {
            *cache = Some(n);
        },
        Some(Err(_)) => {
            mark_cache_stale(notification, "AES-CBC encrypt init failed: Invalid Length".to_string());
        },
        None => {},
    }
    keys.set(tuples);
    *identities = keys.clone_inner();
    count
}

/// The email a password unlock logs in with: the legacy vault file's, else the
/// configured one.
pub fn password_unlock_email(vault_file: &Option<VaultFile>, config: &Config) -> (r: String)
    ensures
        r@ == match vault_file {
            Some(v) => v.email@,
            None => config.auth.email@,
        },
{
    match vault_file {
        Some(v) => v.email.clone(),
        None => config.auth.email.clone(),
    }
}

/// The answer to a password unlock whose login and sync brought these keys.
pub open spec fn password_unlock_text(count: nat) -> Seq<char> {
    "Vault unlocked, "@ + decimal(count) + " SSH keys loaded"@
}

/// Finish a password unlock with the keys the sync brought: they become the loaded keys
/// and the listed identities, and the vault is unlocked.
pub fn finish_password_unlock(
    tuples: Vec<(String, String, String)>,
    keys: &mut SecureKeyCache,
    identities: &mut Vec<(String, String, String)>,
    vault_locked: &mut bool,
) -> (r: ControlResponse)
    ensures
        final(keys)@ == tuples_view(tuples@),
        tuples_view(final(identities)@) == tuples_view(tuples@),
        !*final(vault_locked),
        r.ok,
        r.message matches Some(m) && m@ == password_unlock_text(tuples@.len()),
        r.error is None,
{
    let count = tuples.len();
    keys.set(tuples);
    *identities = keys.clone_inner();
    *vault_locked = false;
    let n = decimal_string(count as u64);
    let mut v = chars_of("Vault unlocked, ");
    push_str(&mut v, n.as_str());
    push_str(&mut v, " SSH keys loaded");
    let text = string_of(v.as_slice());
    proof {
        reveal_strlit("Vault unlocked, ");
        reveal_strlit(" SSH keys loaded");
    }
    assert(text@ =~= password_unlock_text(count as nat));
    ControlResponse::ok(text.as_str())
}

/// The facts a status report gives, from the daemon's state: the identities it lists,
/// how many of them have their private keys loaded (none while locked), whether a legacy
/// PIN slot, a legacy vault file and a local key cache are held, whether there is an API
/// session, a pending sync and a stale cache, and the hub connection's state.
pub fn status_facts(
    material: &RememberedMaterial,
    vault_locked: bool,
    cached_key_tuples: &SecureKeyCache,
    notification: &NotificationRuntimeState,
    agent_running: bool,
) -> (f: StatusFacts)
    ensures
        f.locked == vault_locked,
        f.key_count == material.identities@.len(),
        f.signable_key_count == cached_key_tuples@.len(),
        f.agent_running == agent_running,
        f.has_pin == material.pin_encrypted is Some,
        f.has_vault_file == material.vault_file is Some,
        f.has_local_key_cache == material.local_key_cache is Some,
        f.authenticated == material.client is Some,
        f.pending_sync == material.pending_sync,
        f.stale_cache == notification.stale_cache,
        f.notification_state == notification.state,
{
    StatusFacts {
        locked: vault_locked,
        key_count: material.identities.len(),
        signable_key_count: cached_key_tuples.len(),
        agent_running,
        has_pin: material.pin_encrypted.is_some(),
        has_vault_file: material.vault_file.is_some(),
        has_local_key_cache: material.local_key_cache.is_some(),
        authenticated: material.client.is_some(),
        pending_sync: material.pending_sync,
        stale_cache: notification.stale_cache,
        notification_state: notification.state,
    }
}

} // verus!
