//! The control channel between the command-line client and the daemon: its commands,
//! actions and responses.
//!
//! The channel itself (a Unix socket or a named pipe carrying one JSON line each way)
//! is I/O and stays with the caller; the library decides which action a command names
//! and builds the responses.
use vstd::prelude::*;

use crate::text::{chars_equal, chars_of, starts_with, starts_with_exec, string_of};

verus! {

/// A command as the client sends it: `{"cmd": "..."}`.
#[derive(Debug, Clone)]
pub struct ControlCommand {
    pub cmd: String,
}

/// The daemon's answer. `details` holds a JSON document, as text.
#[derive(Debug, Clone)]
pub struct ControlResponse {
    pub ok: bool,
    pub message: Option<String>,
    pub error: Option<String>,
    pub locked: Option<bool>,
    pub key_count: Option<usize>,
    pub details: Option<String>,
}

impl ControlResponse {
    /// A success carrying a message.
    pub fn ok(message: &str) -> (r: ControlResponse)
        ensures
            r.ok,
            r.message matches Some(m) && m@ == message@,
            r.error is None,
            r.locked is None,
            r.key_count is None,
            r.details is None,
    {
        ControlResponse {
            ok: true,
            message: Some(string_of(chars_of(message).as_slice())),
            error: None,
            locked: None,
            key_count: None,
            details: None,
        }
    }

    /// A failure carrying an error text.
    pub fn err(error: &str) -> (r: ControlResponse)
        ensures
            !r.ok,
            r.message is None,
            r.error matches Some(e) && e@ == error@,
            r.locked is None,
            r.key_count is None,
            r.details is None,
    {
        ControlResponse {
            ok: false,
            message: None,
            error: Some(string_of(chars_of(error).as_slice())),
            locked: None,
            key_count: None,
            details: None,
        }
    }

    /// The vault's state: locked or not, and how many keys are loaded.
    pub fn status(locked: bool, key_count: usize) -> (r: ControlResponse)
        ensures
            r.ok,
            r.message matches Some(m) && m@ == (if locked {
                "Vault is locked"@
            } else {
                "Vault is unlocked"@
            }),
            r.error is None,
            r.locked == Some(locked),
            r.key_count == Some(key_count),
            r.details is None,
    {
        let m = if locked {
            "Vault is locked"
        } else {
            "Vault is unlocked"
        };
        ControlResponse {
            ok: true,
            message: Some(string_of(chars_of(m).as_slice())),
            error: None,
            locked: Some(locked),
            key_count: Some(key_count),
            details: None,
        }
    }

    /// The same response with details attached.
    pub fn with_details(self, details: String) -> (r: ControlResponse)
        ensures
            r.ok == self.ok,
            r.message == self.message,
            r.error == self.error,
            r.locked == self.locked,
            r.key_count == self.key_count,
            r.details == Some(details),
    {
        let mut r = self;
        r.details = Some(details);
        r
    }
}

/// The Windows named pipe of the control channel.
pub const CONTROL_PIPE_NAME: &'static str = "\\\\.\\pipe\\sshwarden-control";

/// The most bytes the daemon reads of one command line.
pub const MAX_CONTROL_LINE_BYTES: u64 = 65536;

/// What a control command asks the daemon to do.
#[derive(Debug, Clone)]
pub enum ControlAction {
    Lock,
    Unlock,
    UnlockPin { pin: String },
    UnlockHello,
    UnlockNative,
    UnlockPassword { password: String },
    Status { json: bool },
    Sync,
    SetPin { pin: String },
    Forget,
    /// Open the host-binding dialog; the answer comes once it closes.
    BindHostsDialog,
}

/// A [`ControlAction`] as plain values.
pub enum ActionView {
    Lock,
    Unlock,
    UnlockPin(Seq<char>),
    UnlockHello,
    UnlockNative,
    UnlockPassword(Seq<char>),
    Status(bool),
    Sync,
    SetPin(Seq<char>),
    Forget,
    BindHostsDialog,
}

impl ControlAction {
    pub open spec fn view(self) -> ActionView {
        match self {
            ControlAction::Lock => ActionView::Lock,
            ControlAction::Unlock => ActionView::Unlock,
            ControlAction::UnlockPin { pin } => ActionView::UnlockPin(pin@),
            ControlAction::UnlockHello => ActionView::UnlockHello,
            ControlAction::UnlockNative => ActionView::UnlockNative,
            ControlAction::UnlockPassword { password } => ActionView::UnlockPassword(password@),
            ControlAction::Status { json } => ActionView::Status(json),
            ControlAction::Sync => ActionView::Sync,
            ControlAction::SetPin { pin } => ActionView::SetPin(pin@),
            ControlAction::Forget => ActionView::Forget,
            ControlAction::BindHostsDialog => ActionView::BindHostsDialog,
        }
    }
}

/// The action a command names: one of the fixed words, or `unlock-pin:`,
/// `unlock-password:` or `set-pin:` followed by the secret; `None` for anything else.
pub open spec fn action_for(cmd: Seq<char>) -> Option<ActionView> {
    if cmd == "lock"@ {
        Some(ActionView::Lock)
    } else if cmd == "unlock"@ {
        Some(ActionView::Unlock)
    } else if cmd == "unlock-hello"@ {
        Some(ActionView::UnlockHello)
    } else if cmd == "unlock-native"@ {
        Some(ActionView::UnlockNative)
    } else if cmd == "status"@ {
        Some(ActionView::Status(false))
    } else if cmd == "status-json"@ {
        Some(ActionView::Status(true))
    } else if cmd == "sync"@ {
        Some(ActionView::Sync)
    } else if cmd == "forget"@ {
        Some(ActionView::Forget)
    } else if cmd == "bind-hosts-dialog"@ {
        Some(ActionView::BindHostsDialog)
    } else if starts_with(cmd, "unlock-pin:"@) {
        Some(ActionView::UnlockPin(cmd.skip("unlock-pin:"@.len() as int)))
    } else if starts_with(cmd, "unlock-password:"@) {
        Some(ActionView::UnlockPassword(cmd.skip("unlock-password:"@.len() as int)))
    } else if starts_with(cmd, "set-pin:"@) {
        Some(ActionView::SetPin(cmd.skip("set-pin:"@.len() as int)))
    } else {
        None
    }
}

/// The error text for a command that names no action.
pub open spec fn unknown_command_text(cmd: Seq<char>) -> Seq<char> {
    "Unknown command: "@ + cmd
}

fn is_word(s: &[char], w: &str) -> (b: bool)
    ensures
        b == (s@ == w@),
{
    chars_equal(s, chars_of(w).as_slice())
}

fn after_prefix(s: &[char], p: &str) -> (r: Option<String>)
    ensures
        starts_with(s@, p@) ==> (r matches Some(t) && t@ == s@.skip(p@.len() as int)),
        !starts_with(s@, p@) ==> r is None,
{
    let pc = chars_of(p);
    if starts_with_exec(s, pc.as_slice()) {
        let rest = vstd::slice::slice_subrange(s, pc.len(), s.len());
        assert(rest@ =~= s@.skip(p@.len() as int));
        Some(string_of(rest))
    } else {
        None
    }
}

/// The action a command names, or the error response for an unknown command.
pub fn action_for_command(cmd: &ControlCommand) -> (r: Result<ControlAction, ControlResponse>)
    ensures
        match action_for(cmd.cmd@) {
            Some(a) => r matches Ok(act) && act.view() == a,
            None => (r matches Err(e) && !e.ok && (e.error matches Some(t) && t@
                == unknown_command_text(cmd.cmd@))),
        },
{
    let c = chars_of(cmd.cmd.as_str());
    let s = c.as_slice();
    if is_word(s, "lock") {
        return Ok(ControlAction::Lock);
    }
    if is_word(s, "unlock") {
        return Ok(ControlAction::Unlock);
    }
    if is_word(s, "unlock-hello") {
        return Ok(ControlAction::UnlockHello);
    }
    if is_word(s, "unlock-native") {
        return Ok(ControlAction::UnlockNative);
    }
    if is_word(s, "status") {
        return Ok(ControlAction::Status { json: false });
    }
    if is_word(s, "status-json") {
        return Ok(ControlAction::Status { json: true });
    }
    if is_word(s, "sync") {
        return Ok(ControlAction::Sync);
    }
    if is_word(s, "forget") {
        return Ok(ControlAction::Forget);
    }
    if is_word(s, "bind-hosts-dialog") {
        return Ok(ControlAction::BindHostsDialog);
    }
    if let Some(pin) = after_prefix(s, "unlock-pin:") {
        return Ok(ControlAction::UnlockPin { pin });
    }
    if let Some(password) = after_prefix(s, "unlock-password:") {
        return Ok(ControlAction::UnlockPassword { password });
    }
    if let Some(pin) = after_prefix(s, "set-pin:") {
        return Ok(ControlAction::SetPin { pin });
    }
    let mut text = chars_of("Unknown command: ");
    crate::text::push_all(&mut text, s);
    let t = string_of(text.as_slice());
    Err(ControlResponse::err(t.as_str()))
}

/// The command text the client sends for an action that carries a secret: its prefix,
/// then the secret.
pub open spec fn secret_command(prefix: Seq<char>, secret: Seq<char>) -> Seq<char> {
    prefix + secret
}

/// What the client sends is what the daemon understands: `unlock-pin:`, `unlock-password:`
/// and `set-pin:` followed by any secret name those actions with exactly that secret.
pub proof fn law_secret_commands_roundtrip(secret: Seq<char>)
    ensures
        action_for(secret_command("unlock-pin:"@, secret)) == Some(ActionView::UnlockPin(secret)),
        action_for(secret_command("unlock-password:"@, secret)) == Some(ActionView::UnlockPassword(secret)),
        action_for(secret_command("set-pin:"@, secret)) == Some(ActionView::SetPin(secret)),
{
    reveal_strlit("lock");
    reveal_strlit("unlock");
    reveal_strlit("unlock-hello");
    reveal_strlit("unlock-native");
    reveal_strlit("status");
    reveal_strlit("status-json");
    reveal_strlit("sync");
    reveal_strlit("forget");
    reveal_strlit("bind-hosts-dialog");
    reveal_strlit("unlock-pin:");
    reveal_strlit("unlock-password:");
    reveal_strlit("set-pin:");
    let a = "unlock-pin:"@ + secret;
    assert(a[0] == 'u' && a[7] == 'p' && a[10] == ':');
    assert(a.take(11) =~= "unlock-pin:"@);
    assert(a.skip(11) =~= secret);
    let b = "unlock-password:"@ + secret;
    assert(b[0] == 'u' && b[7] == 'p' && b[8] == 'a' && b[15] == ':');
    assert(b.take(16) =~= "unlock-password:"@);
    assert(b.skip(16) =~= secret);
    assert(!starts_with(b, "unlock-pin:"@)) by {
        assert(b[8] != "unlock-pin:"@[8]);
    }
    let c = "set-pin:"@ + secret;
    assert(c[0] == 's' && c[1] == 'e' && c[7] == ':');
    assert(c.take(8) =~= "set-pin:"@);
    assert(c.skip(8) =~= secret);
    assert(!starts_with(c, "unlock-pin:"@)) by {
        assert(c[0] != "unlock-pin:"@[0]);
    }
    assert(!starts_with(c, "unlock-password:"@)) by {
        assert(c[0] != "unlock-password:"@[0]);
    }
    assert(a != "lock"@ && a != "unlock"@ && a != "sync"@ && a != "status"@) by {
        assert(a.len() >= 11);
    }
    assert(a != "unlock-hello"@) by {
        assert(a[7] != "unlock-hello"@[7]);
    }
    assert(a != "unlock-native"@) by {
        assert(a[7] != "unlock-native"@[7]);
    }
    assert(a != "status-json"@ && a != "forget"@ && a != "bind-hosts-dialog"@) by {
        assert(a[0] != "status-json"@[0]);
        assert(a[0] != "forget"@[0]);
        assert(a[0] != "bind-hosts-dialog"@[0]);
    }
    assert(b != "lock"@ && b != "unlock"@ && b != "sync"@ && b != "status"@ && b != "status-json"@
        && b != "forget"@ && b != "unlock-hello"@ && b != "unlock-native"@) by {
        assert(b.len() >= 16);
    }
    assert(b != "bind-hosts-dialog"@) by {
        assert(b[0] != "bind-hosts-dialog"@[0]);
    }
    assert(c != "lock"@ && c != "unlock"@ && c != "sync"@ && c != "forget"@) by {
        assert(c.len() >= 8);
        assert(c[0] != "lock"@[0]);
        assert(c[0] != "unlock"@[0]);
        assert(c[1] != "sync"@[1]);
        assert(c[0] != "forget"@[0]);
    }
    assert(c != "status"@ && c != "status-json"@) by {
        assert(c[1] != "status"@[1]);
        assert(c[1] != "status-json"@[1]);
    }
    assert(c != "unlock-hello"@ && c != "unlock-native"@ && c != "bind-hosts-dialog"@) by {
        assert(c[0] != "unlock-hello"@[0]);
        assert(c[0] != "unlock-native"@[0]);
        assert(c[0] != "bind-hosts-dialog"@[0]);
    }
}

} // verus!
