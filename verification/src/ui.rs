//! What the daemon shows the user and what comes back: sign requests, unlock prompts,
//! the host-binding dialog, and the placement of dialogs on screen.
//!
//! The dialogs themselves (Slint windows, Windows Hello, the platform keyring) are
//! outside the library; it holds their requests and answers as plain values and
//! computes what they need.
use vstd::prelude::*;

use crate::bindings::{
    first_pattern_error, set_hosts_map, strings_view, unit_result, BindingView, HostBindingsFile,
    HostPatternError,
};
use crate::config::{Platform, PromptBehavior};
use crate::crypto::{
    as_text, decrypt_enc, decrypt_enc_string_to_string, encrypt_enc_string, text_view, CryptoError,
    SymmetricKey,
};
use crate::keys::{managed_view, ManagedKey};
use crate::primitives::{sha256, spec_sha256};
use crate::request_parser::{operation_kind_name, OperationKind};
use crate::text::{chars_of, chars_equal, string_of};

verus! {

broadcast use {vstd::utf8::encode_utf8_decode_utf8, vstd::utf8::encode_utf8_valid_utf8};

/// A sign request as the authorization prompt shows it.
#[derive(Debug, Clone)]
pub struct SignRequestInfo {
    pub key_name: String,
    pub process_name: String,
    pub namespace: Option<String>,
    pub operation_kind: String,
    pub is_forwarding: bool,
}

/// Why an unlock prompt appears, when a sign request caused it.
#[derive(Debug, Clone)]
pub struct UnlockRequestContext {
    pub key_name: String,
    pub process_name: String,
    pub operation_kind: String,
    pub is_forwarding: bool,
}

/// The answer to an authorization prompt.
#[derive(Debug, Clone, Copy, PartialEq, Eq, Structural)]
pub enum AuthorizationResult {
    Approved,
    Denied,
    Timeout,
    /// The user asked to bind the key to this host first.
    BindRequested,
}

/// One key in the host-binding dialog.
#[derive(Debug, Clone)]
pub struct BindHostsKeyEntry {
    pub cipher_id: String,
    pub name: String,
    /// The patterns bound to the key now (maybe none).
    pub hosts: Vec<String>,
}

/// What the host-binding dialog opens with.
#[derive(Debug, Clone)]
pub struct BindHostsRequest {
    pub keys: Vec<BindHostsKeyEntry>,
    /// The key to select first, if present.
    pub initial_selection: Option<String>,
    /// A host pattern to pre-fill for that key.
    pub prefill_host: Option<String>,
    /// Whether saving also approves a waiting sign request.
    pub approve_on_save: bool,
}

/// What the host-binding dialog answers.
#[derive(Debug, Clone)]
pub enum BindHostsResult {
    /// The user saved: for each key touched, in ascending order of id, its patterns
    /// (none to unbind it).
    Saved { bindings: Vec<(String, Vec<String>)> },
    Cancelled,
}

/// The outcome of an unlock prompt.
#[derive(Debug, Clone, Copy, PartialEq, Eq, Structural)]
pub enum UnlockResult {
    Verified,
    Cancelled,
    NotAvailable,
    Failed,
}

/// Platform UI setup; there is nothing to set up outside Windows.
pub fn init() {
}

/// A sign request from the agent, as the daemon's prompts read it.
#[derive(Debug, Clone)]
pub struct SshAgentUIRequest {
    pub cipher_id: Option<String>,
    pub process_name: String,
    pub namespace: Option<String>,
    pub operation_kind: OperationKind,
    pub is_forwarding: bool,
    pub is_list: bool,
    pub pid: u32,
}

/// The name of the key a request is for: the name in the key tuples (private key, name,
/// id) of the first tuple with the request's id, else `Unknown key`.
pub open spec fn request_key_name(cipher_id: Option<String>, keys: Seq<(String, String, String)>) -> Seq<char> {
    match cipher_id {
        None => "Unknown key"@,
        Some(cid) => if exists|i: int| 0 <= i < keys.len() && #[trigger] keys[i].2@ == cid@ {
            let i = choose|i: int|
                0 <= i < keys.len() && keys[i].2@ == cid@ && forall|j: int| 0 <= j < i ==> keys[j].2@ != cid@;
            keys[i].1@
        } else {
            "Unknown key"@
        },
    }
}

/// The name of the key a request is for (see [`request_key_name`]).
pub fn key_name_for_request(request: &SshAgentUIRequest, keys: &[(String, String, String)]) -> (r: String)
    ensures
        r@ == request_key_name(request.cipher_id, keys@),
{
    let cid = match &request.cipher_id {
        None => return string_of(chars_of("Unknown key").as_slice()),
        Some(c) => c,
    };
    let cc = chars_of(cid.as_str());
    let mut i: usize = 0;
    while i < keys.len()
        invariant
            i <= keys@.len(),
            cc@ == cid@,
            request.cipher_id == Some(*cid),
            forall|j: int| 0 <= j < i ==> #[trigger] keys@[j].2@ != cid@,
        decreases keys.len() - i,
    {
        if chars_equal(chars_of(keys[i].2.as_str()).as_slice(), cc.as_slice()) {
            proof {
                let w = choose|w: int|
                    0 <= w < keys@.len() && keys@[w].2@ == cid@ && forall|j: int| 0 <= j < w ==> keys@[j].2@ != cid@;
                assert(0 <= i < keys@.len() && keys@[i as int].2@ == cid@ && forall|j: int|
                    0 <= j < i ==> keys@[j].2@ != cid@);
                if w < i {
                    assert(keys@[w].2@ != cid@);
                }
                if i < w {
                    assert(keys@[i as int].2@ != cid@);
                }
            }
            return keys[i].1.clone();
        }
        i += 1;
    }
    string_of(chars_of("Unknown key").as_slice())
}

/// The operation a request performs, by name.
pub fn operation_kind_for_request(request: &SshAgentUIRequest) -> (s: &'static str)
    ensures
        s@ == operation_kind_name(request.operation_kind),
{
    request.operation_kind.as_str()
}

/// The context an unlock prompt shows for a request.
pub fn unlock_context_for_request(request: &SshAgentUIRequest, key_name: String) -> (c: UnlockRequestContext)
    ensures
        c.key_name == key_name,
        c.process_name@ == request.process_name@,
        c.operation_kind@ == operation_kind_name(request.operation_kind),
        c.is_forwarding == request.is_forwarding,
{
    UnlockRequestContext {
        key_name,
        process_name: string_of(chars_of(request.process_name.as_str()).as_slice()),
        operation_kind: string_of(chars_of(operation_kind_for_request(request)).as_slice()),
        is_forwarding: request.is_forwarding,
    }
}

// ---------------------------------------------------------------------------
// The host-binding dialog
// ---------------------------------------------------------------------------

/// The patterns bound to an id, none when it has no binding.
pub open spec fn bound_hosts(m: Map<Seq<char>, BindingView>, id: Seq<char>) -> Seq<Seq<char>> {
    if m.contains_key(id) {
        m[id].0
    } else {
        Seq::empty()
    }
}

/// The dialog's entries: each key with its current patterns, in order.
pub fn bind_hosts_entries(keys: &[ManagedKey], bindings: &HostBindingsFile) -> (r: Vec<BindHostsKeyEntry>)
    requires
        bindings.bindings.wf(),
    ensures
        r@.len() == keys@.len(),
        forall|i: int| 0 <= i < keys@.len() ==> {
            let e = #[trigger] r@[i];
            &&& e.cipher_id@ == keys@[i].cipher_id@
            &&& e.name@ == keys@[i].name@
            &&& strings_view(e.hosts@) == bound_hosts(bindings.bindings@, keys@[i].cipher_id@)
        },
{
    let mut out: Vec<BindHostsKeyEntry> = Vec::new();
    let mut i: usize = 0;
    while i < keys.len()
        invariant
            i <= keys@.len(),
            bindings.bindings.wf(),
            out@.len() == i,
            forall|j: int| 0 <= j < i ==> {
                let e = #[trigger] out@[j];
                &&& e.cipher_id@ == keys@[j].cipher_id@
                &&& e.name@ == keys@[j].name@
                &&& strings_view(e.hosts@) == bound_hosts(bindings.bindings@, keys@[j].cipher_id@)
            },
        decreases keys.len() - i,
    {
        let k = &keys[i];
        let hosts = match bindings.bindings.get(k.cipher_id.as_str()) {
            Some(b) => {
                let mut hs: Vec<String> = Vec::new();
                let mut h: usize = 0;
                while h < b.hosts.len()
                    invariant
                        h <= b.hosts@.len(),
                        strings_view(hs@) == strings_view(b.hosts@).take(h as int),
                    decreases b.hosts.len() - h,
                {
                    let ghost before = strings_view(hs@);
                    hs.push(string_of(chars_of(b.hosts[h].as_str()).as_slice()));
                    assert(strings_view(hs@) =~= before.push(b.hosts@[h as int]@));
                    assert(strings_view(b.hosts@).take(h + 1) =~= strings_view(b.hosts@).take(h as int).push(
                        b.hosts@[h as int]@,
                    ));
                    h += 1;
                }
                assert(strings_view(b.hosts@).take(b.hosts@.len() as int) =~= strings_view(b.hosts@));
                hs
            },
            None => {
                let hs: Vec<String> = Vec::new();
                assert(strings_view(hs@) =~= Seq::<Seq<char>>::empty());
                hs
            },
        };
        out.push(BindHostsKeyEntry {
            cipher_id: k.cipher_id.clone(),
            name: k.name.clone(),
            hosts,
        });
        i += 1;
    }
    out
}

/// The bindings after the dialog's choices, applied in order at time `now`; the first
/// refused pattern stops it.
pub open spec fn apply_choices(
    m: Map<Seq<char>, BindingView>,
    p: Seq<(Seq<char>, Seq<Seq<char>>)>,
    now: i64,
) -> Result<Map<Seq<char>, BindingView>, HostPatternError>
    decreases p.len(),
{
    if p.len() == 0 {
        Ok(m)
    } else {
        match apply_choices(m, p.drop_last(), now) {
            Err(e) => Err(e),
            Ok(m2) => match first_pattern_error(p.last().1) {
                Some(e) => Err(e),
                None => Ok(set_hosts_map(m2, p.last().0, p.last().1, now)),
            },
        }
    }
}

pub open spec fn choices_view(p: Seq<(String, Vec<String>)>) -> Seq<(Seq<char>, Seq<Seq<char>>)> {
    p.map_values(|c: (String, Vec<String>)| (c.0@, strings_view(c.1@)))
}

/// Apply the dialog's saved choices to the bindings at time `now` (see
/// [`apply_choices`]). On an error the caller must not save the bindings.
pub fn apply_bind_choices(bindings: &mut HostBindingsFile, choices: &Vec<(String, Vec<String>)>, now: i64) -> (r: Result<
    (),
    HostPatternError,
>)
    requires
        old(bindings).bindings.wf(),
    ensures
        final(bindings).bindings.wf(),
        final(bindings).version == old(bindings).version,
        match apply_choices(old(bindings).bindings@, choices_view(choices@), now) {
            Ok(m) => r is Ok && final(bindings).bindings@ == m,
            Err(e) => r == Err::<(), HostPatternError>(e),
        },
{
    let ghost m0 = bindings.bindings@;
    let ghost cv = choices_view(choices@);
    let mut i: usize = 0;
    assert(cv.take(0) =~= Seq::<(Seq<char>, Seq<Seq<char>>)>::empty());
    while i < choices.len()
        invariant
            i <= choices@.len(),
            bindings.bindings.wf(),
            bindings.version == old(bindings).version,
            m0 == old(bindings).bindings@,
            cv == choices_view(choices@),
            apply_choices(m0, cv.take(i as int), now) == Ok::<Map<Seq<char>, BindingView>, HostPatternError>(
                bindings.bindings@,
            ),
        decreases choices.len() - i,
    {
        assert(cv.take(i + 1).drop_last() =~= cv.take(i as int));
        assert(cv.take(i + 1).last() == (choices@[i as int].0@, strings_view(choices@[i as int].1@)));
        let c = &choices[i];
        let mut hosts: Vec<String> = Vec::new();
        let mut h: usize = 0;
        while h < c.1.len()
            invariant
                h <= c.1@.len(),
                strings_view(hosts@) == strings_view(c.1@).take(h as int),
            decreases c.1.len() - h,
        {
            let ghost before = strings_view(hosts@);
            hosts.push(string_of(chars_of(c.1[h].as_str()).as_slice()));
            assert(strings_view(hosts@) =~= before.push(c.1@[h as int]@));
            assert(strings_view(c.1@).take(h + 1) =~= strings_view(c.1@).take(h as int).push(c.1@[h as int]@));
            h += 1;
        }
        assert(strings_view(c.1@).take(c.1@.len() as int) =~= strings_view(c.1@));
        match bindings.set_hosts_at(c.0.as_str(), hosts, now) {
            Ok(()) => {},
            Err(e) => {
                proof {
                    assert(apply_choices(m0, cv.take(i + 1), now) == Err::<
                        Map<Seq<char>, BindingView>,
                        HostPatternError,
                    >(e));
                    lemma_apply_choices_stops(m0, cv, i as int + 1, now);
                }
                return Err(e);
            },
        }
        i += 1;
    }
    assert(cv.take(choices@.len() as int) =~= cv);
    Ok(())
}

proof fn lemma_apply_choices_stops(
    m: Map<Seq<char>, BindingView>,
    p: Seq<(Seq<char>, Seq<Seq<char>>)>,
    k: int,
    now: i64,
)
    requires
        0 <= k <= p.len(),
        apply_choices(m, p.take(k), now) is Err,
    ensures
        apply_choices(m, p, now) == apply_choices(m, p.take(k), now),
    decreases p.len() - k,
{
    if k < p.len() {
        assert(p.take(k + 1).drop_last() =~= p.take(k));
        lemma_apply_choices_stops(m, p, k + 1, now);
    } else {
        assert(p.take(k) =~= p);
    }
}

// ---------------------------------------------------------------------------
// Platform unlock
// ---------------------------------------------------------------------------

/// Whether native unlock is offered: on Linux when `secret-tool` is there; never on
/// macOS (until a user-presence ceremony exists) nor elsewhere.
pub fn native_available(platform: Platform, secret_tool_found: bool) -> (b: bool)
    ensures
        b == (platform == Platform::Linux && secret_tool_found),
{
    match platform {
        Platform::Linux => secret_tool_found,
        _ => false,
    }
}

/// The key that a Windows Hello signature's 32-byte digest gives: that digest encrypts,
/// and the SHA-256 of `sshwarden-hello-mac` followed by it authenticates.
pub open spec fn hello_key(raw: Seq<u8>) -> (Seq<u8>, Seq<u8>) {
    (raw, spec_sha256(vstd::utf8::encode_utf8("sshwarden-hello-mac"@) + raw))
}

/// The symmetric key made from a Windows Hello digest.
pub fn hello_sym_key(raw_key: &[u8]) -> (k: SymmetricKey)
    ensures
        (k.enc(), k.mac()) == hello_key(raw_key@),
{
    let mut data: Vec<u8> = Vec::new();
    let label = "sshwarden-hello-mac".as_bytes();
    let mut i: usize = 0;
    while i < label.len()
        invariant
            i <= label@.len(),
            data@ == label@.take(i as int),
        decreases label.len() - i,
    {
        data.push(label[i]);
        assert(label@.take(i + 1) =~= label@.take(i as int).push(label@[i as int]));
        i += 1;
    }
    let mut j: usize = 0;
    while j < raw_key.len()
        invariant
            i == label@.len(),
            j <= raw_key@.len(),
            data@ == label@ + raw_key@.take(j as int),
        decreases raw_key.len() - j,
    {
        assert(label@.take(i as int) =~= label@);
        data.push(raw_key[j]);
        assert(raw_key@.take(j + 1) =~= raw_key@.take(j as int).push(raw_key@[j as int]));
        j += 1;
    }
    assert(label@.take(label@.len() as int) =~= label@);
    assert(raw_key@.take(raw_key@.len() as int) =~= raw_key@);
    let mac_key = sha256(data.as_slice());
    SymmetricKey { enc_key: vstd::slice::slice_to_vec(raw_key), mac_key }
}

/// Encrypt the key tuples' JSON under the key of a Windows Hello digest.
pub fn hello_encrypt_keys(key_tuples_json: &str, raw_key: &[u8]) -> (r: Result<String, CryptoError>)
    ensures
        r is Err <==> raw_key@.len() != 32,
        r matches Ok(s) ==> as_text(decrypt_enc(s@, hello_key(raw_key@).0, hello_key(raw_key@).1))
            == Ok::<Seq<char>, CryptoError>(key_tuples_json@),
{
    let key = hello_sym_key(raw_key);
    encrypt_enc_string(key_tuples_json.as_bytes(), &key)
}

/// Decrypt key tuples' JSON with the key of a Windows Hello digest.
pub fn hello_decrypt_keys(enc_string: &str, raw_key: &[u8]) -> (r: Result<String, CryptoError>)
    ensures
        text_view(r) == as_text(decrypt_enc(enc_string@, hello_key(raw_key@).0, hello_key(raw_key@).1)),
{
    let key = hello_sym_key(raw_key);
    decrypt_enc_string_to_string(enc_string, &key)
}

// ---------------------------------------------------------------------------
// Dialog placement
// ---------------------------------------------------------------------------

/// A monitor's area, in physical pixels.
#[derive(Debug, Clone, Copy)]
pub struct ScreenBounds {
    pub x: i32,
    pub y: i32,
    pub width: i32,
    pub height: i32,
}

/// `a + b`, saturating at the bounds of `i32`.
pub open spec fn sat_add_i32(a: int, b: int) -> i32 {
    if a + b > i32::MAX {
        i32::MAX
    } else if a + b < i32::MIN {
        i32::MIN
    } else {
        (a + b) as i32
    }
}

/// Where a window of the given size goes to be centered in the bounds (never left of or
/// above them); `None` when the bounds or the window have no area.
pub open spec fn centered_at(b: ScreenBounds, w: i32, h: i32) -> Option<(i32, i32)> {
    if b.width <= 0 || b.height <= 0 || w <= 0 || h <= 0 {
        None
    } else {
        let dx = if b.width - w > 0 { (b.width - w) / 2 } else { 0 };
        let dy = if b.height - h > 0 { (b.height - h) / 2 } else { 0 };
        Some((sat_add_i32(b.x as int, dx), sat_add_i32(b.y as int, dy)))
    }
}

impl ScreenBounds {
    /// Whether the area is non-empty.
    pub fn is_valid(self) -> (b: bool)
        ensures
            b == (self.width > 0 && self.height > 0),
    {
        self.width > 0 && self.height > 0
    }

    /// Where to put a window of `width` by `height` to center it here.
    pub fn centered_position(self, width: i32, height: i32) -> (r: Option<(i32, i32)>)
        ensures
            r == centered_at(self, width, height),
    {
        if !self.is_valid() || width <= 0 || height <= 0 {
            return None;
        }
        let dw = self.width - width;
        let dh = self.height - height;
        let dx = if dw > 0 { dw / 2 } else { 0 };
        let dy = if dh > 0 { dh / 2 } else { 0 };
        let x = if self.x > i32::MAX - dx { i32::MAX } else { self.x + dx };
        let y = if self.y > i32::MAX - dy { i32::MAX } else { self.y + dy };
        Some((x, y))
    }
}

// ---------------------------------------------------------------------------
// Deciding sign requests
// ---------------------------------------------------------------------------

/// What the daemon does with a request from the agent.
#[derive(Debug, Clone, Copy, PartialEq, Eq, Structural)]
pub enum SignDecision {
    /// Answer yes without asking.
    Approve,
    /// Answer no.
    Deny,
    /// Unlock the vault first (native unlock, Windows Hello, then a PIN prompt), then
    /// decide about the prompt as [`needs_prompt`] says.
    Unlock,
    /// Ask the user.
    Prompt,
}

/// Whether a sign request needs the user's approval: a forwarded one always does,
/// otherwise unless prompting is off.
pub open spec fn needs_prompt_spec(is_forwarding: bool, behavior: PromptBehavior) -> bool {
    is_forwarding || behavior != PromptBehavior::Never
}

/// Whether a sign request needs the user's approval.
pub fn needs_prompt(is_forwarding: bool, behavior: PromptBehavior) -> (b: bool)
    ensures
        b == needs_prompt_spec(is_forwarding, behavior),
{
    is_forwarding || match behavior {
        PromptBehavior::Always => true,
        PromptBehavior::Never => false,
        PromptBehavior::RememberUntilLock => true,
    }
}

/// The authorizations remembered until the vault locks, as (vault item id, operation).
pub open spec fn remembered(memory: Seq<(Seq<char>, Seq<char>)>, r: SshAgentUIRequest) -> bool {
    match r.cipher_id {
        None => false,
        Some(id) => exists|i: int| 0 <= i < memory.len() && #[trigger] memory[i] == (id@, operation_kind_name(r.operation_kind)),
    }
}

/// What to do with a request: key listings are always answered; a sign request on a
/// locked vault unlocks first or, without auto-unlock, is refused; a remembered
/// authorization (not for a forwarded request) answers yes; otherwise the user is asked
/// unless prompting is off.
pub open spec fn sign_decision(
    r: SshAgentUIRequest,
    vault_locked: bool,
    auto_unlock: bool,
    behavior: PromptBehavior,
    memory: Seq<(Seq<char>, Seq<char>)>,
) -> SignDecision {
    if r.is_list {
        SignDecision::Approve
    } else if vault_locked && auto_unlock {
        SignDecision::Unlock
    } else if vault_locked {
        SignDecision::Deny
    } else if !r.is_forwarding && behavior == PromptBehavior::RememberUntilLock && remembered(memory, r) {
        SignDecision::Approve
    } else if needs_prompt_spec(r.is_forwarding, behavior) {
        SignDecision::Prompt
    } else {
        SignDecision::Approve
    }
}

fn is_remembered(memory: &Vec<(String, String)>, request: &SshAgentUIRequest) -> (b: bool)
    ensures
        b == remembered(crate::daemon::pairs_view(memory@), *request),
{
    let id = match &request.cipher_id {
        None => return false,
        Some(id) => id,
    };
    let idc = chars_of(id.as_str());
    let op = chars_of(request.operation_kind.as_str());
    let ghost mv = crate::daemon::pairs_view(memory@);
    let mut i: usize = 0;
    while i < memory.len()
        invariant
            i <= memory@.len(),
            mv == crate::daemon::pairs_view(memory@),
            idc@ == id@,
            op@ == operation_kind_name(request.operation_kind),
            request.cipher_id == Some(*id),
            forall|j: int| 0 <= j < i ==> #[trigger] mv[j] != (id@, operation_kind_name(request.operation_kind)),
        decreases memory.len() - i,
    {
        let e = &memory[i];
        if chars_equal(chars_of(e.0.as_str()).as_slice(), idc.as_slice()) && chars_equal(
            chars_of(e.1.as_str()).as_slice(),
            op.as_slice(),
        ) {
            assert(mv[i as int] == (id@, operation_kind_name(request.operation_kind)));
            return true;
        }
        i += 1;
    }
    false
}

/// Decide what to do with a request from the agent (see [`sign_decision`]).
pub fn decide_sign_request(
    request: &SshAgentUIRequest,
    vault_locked: bool,
    auto_unlock: bool,
    behavior: PromptBehavior,
    memory: &Vec<(String, String)>,
) -> (d: SignDecision)
    ensures
        d == sign_decision(*request, vault_locked, auto_unlock, behavior, crate::daemon::pairs_view(memory@)),
{
    if request.is_list {
        return SignDecision::Approve;
    }
    if vault_locked && auto_unlock {
        return SignDecision::Unlock;
    }
    if vault_locked {
        return SignDecision::Deny;
    }
    let remember = match behavior {
        PromptBehavior::RememberUntilLock => true,
        _ => false,
    };
    if !request.is_forwarding && remember && is_remembered(memory, request) {
        return SignDecision::Approve;
    }
    if needs_prompt(request.is_forwarding, behavior) {
        SignDecision::Prompt
    } else {
        SignDecision::Approve
    }
}

/// Whether an approval is remembered until the vault locks: only for a request that was
/// not forwarded, and only when the configuration asks for it.
pub fn should_remember(approved: bool, request: &SshAgentUIRequest, behavior: PromptBehavior) -> (b: bool)
    ensures
        b == (approved && !request.is_forwarding && behavior == PromptBehavior::RememberUntilLock
            && request.cipher_id is Some),
{
    approved && !request.is_forwarding && match behavior {
        PromptBehavior::RememberUntilLock => true,
        _ => false,
    } && request.cipher_id.is_some()
}

/// What the authorization prompt shows for a request.
pub fn sign_request_info(request: &SshAgentUIRequest, key_name: String) -> (i: SignRequestInfo)
    ensures
        i.key_name == key_name,
        i.process_name@ == request.process_name@,
        crate::text::opt_view(i.namespace) == crate::text::opt_view(request.namespace),
        i.operation_kind@ == operation_kind_name(request.operation_kind),
        i.is_forwarding == request.is_forwarding,
{
    SignRequestInfo {
        key_name,
        process_name: string_of(chars_of(request.process_name.as_str()).as_slice()),
        namespace: crate::text::clone_opt(&request.namespace),
        operation_kind: string_of(chars_of(request.operation_kind.as_str()).as_slice()),
        is_forwarding: request.is_forwarding,
    }
}

/// A forwarded sign request is never approved without asking: it is prompted for,
/// refused, or waits for an unlock that prompts afterwards.
pub proof fn law_forwarded_requests_are_prompted(
    r: SshAgentUIRequest,
    vault_locked: bool,
    auto_unlock: bool,
    behavior: PromptBehavior,
    memory: Seq<(Seq<char>, Seq<char>)>,
)
    requires
        r.is_forwarding,
        !r.is_list,
    ensures
        sign_decision(r, vault_locked, auto_unlock, behavior, memory) != SignDecision::Approve,
        needs_prompt_spec(r.is_forwarding, behavior),
{
}

/// A key listing never waits for an unlock: identities are listed even when locked.
pub proof fn law_key_listing_needs_no_unlock(
    r: SshAgentUIRequest,
    vault_locked: bool,
    auto_unlock: bool,
    behavior: PromptBehavior,
    memory: Seq<(Seq<char>, Seq<char>)>,
)
    requires
        r.is_list,
    ensures
        sign_decision(r, vault_locked, auto_unlock, behavior, memory) == SignDecision::Approve,
{
}

/// On a locked vault a sign request is never approved or prompted for at once: it
/// waits for an unlock, or is refused.
pub proof fn law_locked_vault_never_signs_at_once(
    r: SshAgentUIRequest,
    auto_unlock: bool,
    behavior: PromptBehavior,
    memory: Seq<(Seq<char>, Seq<char>)>,
)
    requires
        !r.is_list,
    ensures
        sign_decision(r, true, auto_unlock, behavior, memory) == (if auto_unlock {
            SignDecision::Unlock
        } else {
            SignDecision::Deny
        }),
{
}

/// Authorizations are remembered only until lock: with the memory a lock leaves (none),
/// a sign request under "remember until lock" is asked about again.
pub proof fn law_lock_forgets_authorizations(r: SshAgentUIRequest, auto_unlock: bool)
    requires
        !r.is_list,
    ensures
        sign_decision(r, false, auto_unlock, PromptBehavior::RememberUntilLock, Seq::empty()) == SignDecision::Prompt,
{
}

// ---------------------------------------------------------------------------
// Unlocking for a sign request
// ---------------------------------------------------------------------------

/// The ways a locked vault is unlocked for a sign request, in the order they are tried.
#[derive(Debug, Clone, Copy, PartialEq, Eq, Structural)]
pub enum UnlockStage {
    /// The platform keyring's slot of the local key cache; no dialog.
    Native,
    /// The Windows Hello slot of the local key cache.
    HelloEnvelope,
    /// Windows Hello over the legacy vault file.
    HelloLegacy,
    /// The PIN dialog, over the local key cache's PIN slot or the legacy PIN data.
    PinDialog,
}

/// Which unlock material is at hand.
#[derive(Debug, Clone, Copy)]
pub struct UnlockOptions {
    /// The local key cache has a platform-keyring slot.
    pub native_slot: bool,
    /// Windows Hello can be used here.
    pub hello_supported: bool,
    /// The local key cache has a Windows Hello slot.
    pub hello_slot: bool,
    /// The legacy vault file carries a Windows Hello challenge and data.
    pub legacy_hello: bool,
    /// A PIN can unlock: the local key cache has a PIN slot, or legacy PIN data exists.
    pub pin_credentials: bool,
}

/// What the unlock cascade does next.
#[derive(Debug, Clone, Copy, PartialEq, Eq, Structural)]
pub enum CascadeStep {
    /// Try this way of unlocking.
    Try(UnlockStage),
    /// The vault is unlocked: approve at once.
    Approve,
    /// The vault is unlocked: ask the user to authorize the request.
    Prompt,
    /// Refuse the request.
    Deny,
}

/// The position of a stage in the cascade.
pub open spec fn stage_index(s: UnlockStage) -> int {
    match s {
        UnlockStage::Native => 0,
        UnlockStage::HelloEnvelope => 1,
        UnlockStage::HelloLegacy => 2,
        UnlockStage::PinDialog => 3,
    }
}

/// Whether a stage can be tried with the material at hand.
pub open spec fn stage_available(o: UnlockOptions, s: UnlockStage) -> bool {
    match s {
        UnlockStage::Native => o.native_slot,
        UnlockStage::HelloEnvelope => o.hello_supported && o.hello_slot,
        UnlockStage::HelloLegacy => o.hello_supported && o.legacy_hello,
        UnlockStage::PinDialog => o.pin_credentials,
    }
}

/// The first available stage at position `from` or later; refusal when none is left.
pub open spec fn cascade_from(o: UnlockOptions, from: int) -> CascadeStep {
    if from <= 0 && stage_available(o, UnlockStage::Native) {
        CascadeStep::Try(UnlockStage::Native)
    } else if from <= 1 && stage_available(o, UnlockStage::HelloEnvelope) {
        CascadeStep::Try(UnlockStage::HelloEnvelope)
    } else if from <= 2 && stage_available(o, UnlockStage::HelloLegacy) {
        CascadeStep::Try(UnlockStage::HelloLegacy)
    } else if from <= 3 && stage_available(o, UnlockStage::PinDialog) {
        CascadeStep::Try(UnlockStage::PinDialog)
    } else {
        CascadeStep::Deny
    }
}

fn cascade_from_exec(o: &UnlockOptions, from: u8) -> (s: CascadeStep)
    requires
        from <= 4,
    ensures
        s == cascade_from(*o, from as int),
{
    if from == 0 && o.native_slot {
        CascadeStep::Try(UnlockStage::Native)
    } else if from <= 1 && o.hello_supported && o.hello_slot {
        CascadeStep::Try(UnlockStage::HelloEnvelope)
    } else if from <= 2 && o.hello_supported && o.legacy_hello {
        CascadeStep::Try(UnlockStage::HelloLegacy)
    } else if from <= 3 && o.pin_credentials {
        CascadeStep::Try(UnlockStage::PinDialog)
    } else {
        CascadeStep::Deny
    }
}

/// The first step for a sign request that found the vault locked with unlocking on
/// request enabled: the first way of unlocking at hand, else refusal.
pub fn first_unlock_step(o: &UnlockOptions) -> (s: CascadeStep)
    ensures
        s == cascade_from(*o, 0),
{
    cascade_from_exec(o, 0)
}

/// What follows an unlock attempt. After success the request is authorized as
/// [`needs_prompt`] says (the remembered authorizations went with the lock); after a
/// failure the next way at hand is tried, and a failed or cancelled PIN dialog refuses
/// the request.
pub fn after_unlock_attempt(
    o: &UnlockOptions,
    stage: UnlockStage,
    succeeded: bool,
    is_forwarding: bool,
    behavior: PromptBehavior,
) -> (s: CascadeStep)
    ensures
        succeeded ==> s == if needs_prompt_spec(is_forwarding, behavior) {
            CascadeStep::Prompt
        } else {
            CascadeStep::Approve
        },
        !succeeded ==> s == cascade_from(*o, stage_index(stage) + 1),
{
    if succeeded {
        if needs_prompt(is_forwarding, behavior) {
            CascadeStep::Prompt
        } else {
            CascadeStep::Approve
        }
    } else {
        let next: u8 = match stage {
            UnlockStage::Native => 1,
            UnlockStage::HelloEnvelope => 2,
            UnlockStage::HelloLegacy => 3,
            UnlockStage::PinDialog => 4,
        };
        cascade_from_exec(o, next)
    }
}

/// Law: the cascade only ever tries ways whose material is at hand, each later than the
/// one before, and a forwarded request is never approved without asking, even right after
/// an unlock.
pub proof fn law_cascade_moves_forward(o: UnlockOptions, from: int, behavior: PromptBehavior)
    ensures
        cascade_from(o, from) matches CascadeStep::Try(s) ==> stage_available(o, s) && stage_index(s) >= from,
        cascade_from(o, from) is Try || cascade_from(o, from) is Deny,
        needs_prompt_spec(true, behavior),
{
}

/// Law: with no PIN material the cascade ends in refusal once the other ways fail, and a
/// failed or cancelled PIN dialog always refuses.
pub proof fn law_pin_dialog_is_last(o: UnlockOptions)
    ensures
        cascade_from(o, stage_index(UnlockStage::PinDialog) + 1) == CascadeStep::Deny,
        !o.pin_credentials ==> cascade_from(o, stage_index(UnlockStage::HelloLegacy) + 1) == CascadeStep::Deny,
{
}

} // verus!
