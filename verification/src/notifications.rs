//! The SignalR notification hub: its URL, frames and messages, and the decisions of the
//! connection loop.
//!
//! The WebSocket itself (connecting, sending, receiving, sleeping) is I/O and stays with
//! the caller. The library decides what each received message means, what to answer, and
//! when to reconnect or ask for a fallback sync.
use vstd::prelude::*;

use rmpv::Value;

use crate::config::{trim_end_slashes, trim_end_slashes_exec};
use crate::text::{
    chars_equal, chars_of, contains_exec, contains_seq, ends_with, ends_with_exec, push_all,
    starts_with, starts_with_exec, string_of,
};

verus! {

/// Events that the notification hub reports.
#[derive(Debug, Clone, Copy, PartialEq, Eq, Structural)]
pub enum SyncEvent {
    /// A cipher was created, updated or deleted, or the vault was synced.
    CipherChanged,
    /// The server asks for a logout.
    LogOut,
    /// Notifications are degraded; the caller should sync on its own if that is safe.
    FallbackSyncDue,
}

/// Options of the notification connection. Durations are in whole seconds.
#[derive(Debug, Clone, Copy)]
pub struct NotificationOptions {
    /// Cadence of the binary SignalR ping while connected.
    pub keepalive_interval: u64,
    /// Longest silence before the connection is dropped and made again.
    pub idle_timeout: u64,
    /// Failed reconnects before [`SyncEvent::FallbackSyncDue`] is reported.
    pub reconnect_attempts_before_fallback: usize,
    /// Cap of the doubling reconnect delay.
    pub reconnect_max_backoff: u64,
    /// Cadence of fallback sync events while notifications stay degraded (0: never).
    pub fallback_sync_interval: u64,
}

impl Default for NotificationOptions {
    fn default() -> (o: NotificationOptions)
        ensures
            o.keepalive_interval == 30,
            o.idle_timeout == 90,
            o.reconnect_attempts_before_fallback == 3,
            o.reconnect_max_backoff == 60,
            o.fallback_sync_interval == 300,
    {
        NotificationOptions {
            keepalive_interval: 30,
            idle_timeout: 90,
            reconnect_attempts_before_fallback: 3,
            reconnect_max_backoff: 60,
            fallback_sync_interval: 300,
        }
    }
}

/// The SignalR record separator, which ends every text frame.
pub const RECORD_SEP: u8 = 0x1E;

/// The WebSocket form of a URL: `https://` becomes `wss://`, `http://` becomes `ws://`,
/// `ws(s)://` stays, and a URL without a scheme gets `wss://`.
pub open spec fn ws_scheme(url: Seq<char>) -> Seq<char> {
    if starts_with(url, "https://"@) {
        "wss://"@ + url.skip(8)
    } else if starts_with(url, "http://"@) {
        "ws://"@ + url.skip(7)
    } else if starts_with(url, "wss://"@) || starts_with(url, "ws://"@) {
        url
    } else {
        "wss://"@ + url
    }
}

/// The hub URL for a notifications URL and an access token: trailing `/` dropped, the
/// WebSocket scheme, `/hub` appended unless the URL already ends in `/hub` or
/// `/anonymous-hub`, then `?access_token=` and the token.
pub open spec fn ws_url(notifications_url: Seq<char>, access_token: Seq<char>) -> Seq<char> {
    let ws_base = ws_scheme(trim_end_slashes(notifications_url));
    let hub = if ends_with(ws_base, "/hub"@) || ends_with(ws_base, "/anonymous-hub"@) {
        ws_base
    } else {
        ws_base + "/hub"@
    };
    hub + "?access_token="@ + access_token
}

fn concat_chars(a: &[char], b: &str) -> (r: Vec<char>)
    ensures
        r@ == a@ + b@,
{
    let mut out = vstd::slice::slice_to_vec(a);
    push_all(&mut out, chars_of(b).as_slice());
    out
}

fn prefixed(p: &str, rest: &[char]) -> (r: Vec<char>)
    ensures
        r@ == p@ + rest@,
{
    let mut out = chars_of(p);
    push_all(&mut out, rest);
    out
}

fn starts_with_lit(s: &[char], lit: &str) -> (b: bool)
    ensures
        b == starts_with(s@, lit@),
{
    starts_with_exec(s, chars_of(lit).as_slice())
}

/// Convert a URL to its WebSocket scheme (see [`ws_scheme`]).
pub fn to_ws_scheme(url: &str) -> (r: String)
    ensures
        r@ == ws_scheme(url@),
{
    let u = chars_of(url);
    let out = if starts_with_lit(u.as_slice(), "https://") {
        proof { reveal_strlit("https://"); }
        prefixed("wss://", vstd::slice::slice_subrange(u.as_slice(), 8, u.len()))
    } else if starts_with_lit(u.as_slice(), "http://") {
        proof { reveal_strlit("http://"); }
        prefixed("ws://", vstd::slice::slice_subrange(u.as_slice(), 7, u.len()))
    } else if starts_with_lit(u.as_slice(), "wss://") || starts_with_lit(u.as_slice(), "ws://") {
        u
    } else {
        prefixed("wss://", u.as_slice())
    };
    assert(u@.subrange(8, u@.len() as int) =~= u@.skip(8));
    assert(u@.subrange(7, u@.len() as int) =~= u@.skip(7));
    string_of(out.as_slice())
}

/// The WebSocket URL of the notification hub (see [`ws_url`]).
pub fn build_ws_url(notifications_url: &str, access_token: &str) -> (r: String)
    ensures
        r@ == ws_url(notifications_url@, access_token@),
{
    let base = trim_end_slashes_exec(chars_of(notifications_url).as_slice());
    let base_s = string_of(base.as_slice());
    let ws_base = chars_of(to_ws_scheme(base_s.as_str()).as_str());
    let complete = ends_with_exec(ws_base.as_slice(), chars_of("/hub").as_slice())
        || ends_with_exec(ws_base.as_slice(), chars_of("/anonymous-hub").as_slice());
    let hub = if complete {
        ws_base
    } else {
        concat_chars(ws_base.as_slice(), "/hub")
    };
    let with_key = concat_chars(hub.as_slice(), "?access_token=");
    let full = concat_chars(with_key.as_slice(), access_token);
    string_of(full.as_slice())
}

/// A handshake answer: `{}`, with or without one trailing record separator.
pub open spec fn handshake_bytes(b: Seq<u8>) -> bool {
    let body = if b.len() > 0 && b.last() == RECORD_SEP {
        b.drop_last()
    } else {
        b
    };
    body == seq![0x7Bu8, 0x7Du8]
}

/// Whether the bytes are the hub's handshake answer.
pub fn is_handshake_bytes(bytes: &[u8]) -> (b: bool)
    ensures
        b == handshake_bytes(bytes@),
{
    let n = if bytes.len() > 0 && bytes[bytes.len() - 1] == RECORD_SEP {
        bytes.len() - 1
    } else {
        bytes.len()
    };
    let r = n == 2 && bytes[0] == 0x7B && bytes[1] == 0x7D;
    proof {
        let body = if bytes@.len() > 0 && bytes@.last() == RECORD_SEP {
            bytes@.drop_last()
        } else {
            bytes@
        };
        assert(body.len() == n);
        if n == 2 {
            assert(body[0] == bytes@[0] && body[1] == bytes@[1]);
            if r {
                assert(body =~= seq![0x7Bu8, 0x7Du8]);
            }
        }
    }
    r
}

// ---------------------------------------------------------------------------
// VarInt length prefixes
// ---------------------------------------------------------------------------

/// `128^k`.
pub open spec fn pow128(k: nat) -> nat
    decreases k,
{
    if k == 0 {
        1
    } else {
        128 * pow128((k - 1) as nat)
    }
}

/// The VarInt encoding of `n`: seven bits per byte, least significant first, the high
/// bit set on every byte but the last.
pub open spec fn varint_bytes(n: nat) -> Seq<u8>
    decreases n,
{
    if n < 128 {
        seq![n as u8]
    } else {
        seq![(n % 128 + 128) as u8] + varint_bytes(n / 128)
    }
}

/// The length of the VarInt at the start of `data`: the first byte without the high bit
/// ends it; `None` when none does within ten bytes.
pub open spec fn varint_len(data: Seq<u8>) -> Option<nat> {
    if exists|i: int| 0 <= i < data.len() && i < 10 && data[i] < 128 {
        let i = choose|i: int|
            0 <= i < data.len() && i < 10 && data[i] < 128 && forall|j: int| 0 <= j < i ==> data[j] >= 128;
        Some((i + 1) as nat)
    } else {
        None
    }
}

/// What the first `n` bytes of a VarInt add up to. Of the tenth byte only the lowest bit
/// counts: it is bit 63, the last one a 64-bit value holds.
pub open spec fn varint_value(data: Seq<u8>, n: nat) -> nat
    decreases n,
{
    if n == 0 {
        0
    } else {
        let k = (n - 1) as nat;
        let digit: nat = if k == 9 {
            (data[9] % 2) as nat * 0x8000_0000_0000_0000
        } else {
            (data[k as int] % 128) as nat * pow128(k)
        };
        varint_value(data, k) + digit
    }
}

proof fn lemma_first_terminator(data: Seq<u8>, i: int)
    requires
        0 <= i < data.len(),
        i < 10,
        data[i] < 128,
        forall|j: int| 0 <= j < i ==> data[j] >= 128,
    ensures
        varint_len(data) == Some((i + 1) as nat),
{
    let c = choose|c: int|
        0 <= c < data.len() && c < 10 && data[c] < 128 && forall|j: int| 0 <= j < c ==> data[j] >= 128;
    assert(0 <= c < data.len() && c < 10 && data[c] < 128 && forall|j: int| 0 <= j < c ==> data[j] >= 128);
    if c < i {
        assert(data[c] >= 128);
    }
    if i < c {
        assert(data[i] >= 128);
    }
}

/// Read the VarInt at the start of `data`: its value and how many bytes it took.
pub fn read_varint(data: &[u8]) -> (r: Option<(u64, usize)>)
    ensures
        match varint_len(data@) {
            None => r is None,
            Some(n) => r matches Some((v, k)) && k == n && v as nat == varint_value(data@, n),
        },
{
    let mut result: u64 = 0;
    let mut mult: u64 = 1;
    let mut i: usize = 0;
    while i < data.len() && i < 10
        invariant
            i <= data@.len(),
            i <= 10,
            result as nat == varint_value(data@, i as nat),
            i <= 9 ==> mult as nat == pow128(i as nat),
            i <= 9 ==> (result as nat) < pow128(i as nat),
            forall|j: int| 0 <= j < i ==> data@[j] >= 128,
        decreases 10 - i,
    {
        let b = data[i];
        proof {
            lemma_pow128_nine();
            if i < 9 {
                lemma_pow128_monotone((i + 1) as nat, 9);
                assert(pow128((i + 1) as nat) == 128 * pow128(i as nat));
            }
        }
        let digit: u64 = if i == 9 {
            let low: u64 = (b % 2) as u64;
            assert(low <= 1);
            assert(low * 0x8000_0000_0000_0000u64 <= 0x8000_0000_0000_0000u64) by (nonlinear_arith)
                requires
                    low <= 1,
            ;
            low * 0x8000_0000_0000_0000u64
        } else {
            let low: u64 = (b % 128) as u64;
            assert(low * mult <= 127 * mult) by (nonlinear_arith)
                requires
                    low <= 127,
            ;
            low * mult
        };
        assert(varint_value(data@, (i + 1) as nat) == varint_value(data@, i as nat) + digit);
        result = result + digit;
        if b < 128 {
            proof {
                lemma_first_terminator(data@, i as int);
            }
            return Some((result, i + 1));
        }
        if i < 9 {
            mult = mult * 128;
        }
        i += 1;
    }
    proof {
        if exists|k: int| 0 <= k < data@.len() && k < 10 && data@[k] < 128 {
            let k = choose|k: int| 0 <= k < data@.len() && k < 10 && data@[k] < 128;
            assert(data@[k] >= 128);
        }
    }
    None
}

proof fn lemma_pow128_nine()
    ensures
        pow128(9) == 0x8000_0000_0000_0000,
{
    reveal_with_fuel(pow128, 10);
}

proof fn lemma_pow128_monotone(a: nat, b: nat)
    requires
        a <= b,
    ensures
        pow128(a) <= pow128(b),
        pow128(a) >= 1,
    decreases b,
{
    if b == 0 {
    } else if a == b {
        lemma_pow128_monotone(0, (b - 1) as nat);
    } else {
        lemma_pow128_monotone(a, (b - 1) as nat);
    }
}

proof fn lemma_varint_value_cons(d: u8, t: Seq<u8>, k: nat)
    requires
        k + 1 <= 9,
        k <= t.len(),
    ensures
        varint_value(seq![d] + t, k + 1) == (d % 128) as nat + 128 * varint_value(t, k),
    decreases k,
{
    let s = seq![d] + t;
    if k == 0 {
        assert(s[0] == d);
        assert(varint_value(s, 0) == 0);
        assert(pow128(0) == 1);
    } else {
        lemma_varint_value_cons(d, t, (k - 1) as nat);
        assert(s[k as int] == t[k - 1]);
        assert(pow128(k) == 128 * pow128((k - 1) as nat));
        let a = varint_value(t, (k - 1) as nat);
        let b = (t[k - 1] % 128) as nat;
        let p = pow128((k - 1) as nat);
        assert(b * (128 * p) == 128 * (b * p)) by (nonlinear_arith);
        assert(varint_value(t, k) == a + b * p);
    }
}

proof fn lemma_varint_encoding(n: nat, rest: Seq<u8>)
    ensures
        varint_bytes(n).len() >= 1,
        forall|j: int| 0 <= j < varint_bytes(n).len() - 1 ==> varint_bytes(n)[j] >= 128,
        varint_bytes(n)[varint_bytes(n).len() - 1] < 128,
        varint_bytes(n).len() > 1 ==> pow128((varint_bytes(n).len() - 1) as nat) <= n,
        varint_bytes(n).len() <= 9 ==> varint_value(varint_bytes(n) + rest, varint_bytes(n).len()) == n,
    decreases n,
{
    let b = varint_bytes(n);
    if n < 128 {
        assert(b =~= seq![n as u8]);
        assert((b + rest)[0] == n as u8);
        assert(varint_value(b + rest, 1) == varint_value(b + rest, 0) + ((n as u8) % 128) as nat * pow128(0));
        assert(pow128(0) == 1);
        assert(varint_value(b + rest, 0) == 0);
        assert((n as u8) % 128 == n);
        let x = ((n as u8) % 128) as nat;
        let p0 = pow128(0);
        assert(p0 == 1);
        assert(x * p0 == x) by (nonlinear_arith)
            requires
                p0 == 1,
        ;
        assert(varint_value(b + rest, 1) == n);
        assert(b.len() == 1);
    } else {
        let m = n / 128;
        let d = (n % 128 + 128) as u8;
        lemma_varint_encoding(m, rest);
        let b1 = varint_bytes(m);
        assert(b =~= seq![d] + b1);
        assert forall|j: int| 0 <= j < b.len() - 1 implies b[j] >= 128 by {
            if j > 0 {
                assert(b[j] == b1[j - 1]);
            }
        }
        assert(b[b.len() - 1] == b1[b1.len() - 1]);
        if b1.len() > 1 {
            assert(pow128((b1.len() - 1) as nat) <= m);
            assert(pow128(b1.len() as nat) == 128 * pow128((b1.len() - 1) as nat));
        } else {
            assert(pow128(1) == 128 * pow128(0));
        }
        if b.len() <= 9 {
            assert(b + rest =~= seq![d] + (b1 + rest));
            lemma_varint_value_cons(d, b1 + rest, b1.len() as nat);
            assert(d as nat == n % 128 + 128);
            assert(d % 128 == n % 128);
            assert(varint_value(b1 + rest, b1.len()) == m);
            assert(n % 128 + 128 * m == n);
            assert(varint_value(b + rest, b.len()) == n);
        }
    }
}

/// A VarInt reads back as what was written, whatever follows it: `varint_bytes(n)` then
/// any bytes is a VarInt of `varint_bytes(n).len()` bytes with value `n`. Lengths of
/// in-memory payloads stay below `2^63`, where the law is stated.
pub proof fn law_varint_roundtrip(n: nat, rest: Seq<u8>)
    requires
        n < 0x8000_0000_0000_0000,
    ensures
        varint_len(varint_bytes(n) + rest) == Some(varint_bytes(n).len()),
        varint_value(varint_bytes(n) + rest, varint_bytes(n).len()) == n,
{
    lemma_varint_encoding(n, rest);
    let b = varint_bytes(n);
    let l = b.len();
    lemma_pow128_nine();
    if l > 9 {
        lemma_pow128_monotone(9, (l - 1) as nat);
    }
    let s = b + rest;
    assert forall|j: int| 0 <= j < l - 1 implies s[j] >= 128 by {
        assert(s[j] == b[j]);
    }
    assert(s[l - 1] == b[l - 1]);
    lemma_first_terminator(s, l - 1);
}

/// A SignalR binary frame: the payload's length as a VarInt, then the payload.
pub open spec fn frame_of(payload: Seq<u8>) -> Seq<u8> {
    varint_bytes(payload.len()) + payload
}

/// Frame a MessagePack payload for the hub.
pub fn signalr_frame(payload: &[u8]) -> (r: Vec<u8>)
    ensures
        r@ == frame_of(payload@),
{
    let mut size: usize = payload.len();
    let mut out: Vec<u8> = Vec::new();
    loop
        invariant_except_break
            out@ + varint_bytes(size as nat) == varint_bytes(payload@.len()),
        ensures
            out@ == varint_bytes(payload@.len()),
        decreases size,
    {
        if size < 128 {
            assert(varint_bytes(size as nat) =~= seq![size as u8]);
            out.push(size as u8);
            break;
        }
        let part = (size % 128 + 128) as u8;
        assert(varint_bytes(size as nat) =~= seq![part] + varint_bytes((size / 128) as nat));
        out.push(part);
        assert(out@ + varint_bytes((size / 128) as nat) =~= varint_bytes(payload@.len()));
        size = size / 128;
    }
    let ghost head = out@;
    let mut i: usize = 0;
    while i < payload.len()
        invariant
            head == varint_bytes(payload@.len()),
            i <= payload@.len(),
            out@ == head + payload@.take(i as int),
        decreases payload.len() - i,
    {
        out.push(payload[i]);
        assert(payload@.take(i + 1) =~= payload@.take(i as int).push(payload@[i as int]));
        i += 1;
    }
    assert(payload@.take(payload@.len() as int) =~= payload@);
    out
}

// ---------------------------------------------------------------------------
// MessagePack values and SignalR messages
// ---------------------------------------------------------------------------

/// The MessagePack value type of the decoder.
#[verifier::external_type_specification]
#[verifier::external_body]
pub struct ExMsgpackValue(Value);

/// A decoded MessagePack value, held as plain values. Floating-point numbers, which
/// nothing here reads, are kept only as being floats.
#[derive(Debug)]
pub enum MsgValue {
    Nil,
    Bool(bool),
    /// An integer, as `as_u64` and `as_i64` read it.
    Int(Option<u64>, Option<i64>),
    Float,
    /// A string object: its text, or `None` when its bytes are not valid UTF-8.
    Str(Option<String>),
    Bin(Vec<u8>),
    Array(Vec<MsgValue>),
    Pairs(Vec<(MsgValue, MsgValue)>),
    Ext(i8, Vec<u8>),
}

/// The value that `rmpv::decode::read_value` reads from the start of the bytes, as a
/// [`MsgValue`]; `None` where it fails.
pub uninterp spec fn spec_msgpack_read_value(bytes: Seq<u8>) -> Option<MsgValue>;

/// The bytes that `rmpv::encode::write_value` writes for an array of unsigned integers.
pub uninterp spec fn spec_msgpack_encode_uint_array(items: Seq<u64>) -> Seq<u8>;

/// Converts a decoded `rmpv::Value` into a [`MsgValue`], variant for variant.
#[verifier::external_body]
fn msg_value_of(v: &Value) -> MsgValue {
    match v {
        Value::Nil => MsgValue::Nil,
        Value::Boolean(b) => MsgValue::Bool(*b),
        Value::Integer(i) => MsgValue::Int(i.as_u64(), i.as_i64()),
        Value::String(s) => MsgValue::Str(s.as_str().map(String::from)),
        Value::Binary(b) => MsgValue::Bin(b.clone()),
        Value::Array(a) => MsgValue::Array(a.iter().map(msg_value_of).collect()),
        Value::Map(m) => MsgValue::Pairs(m.iter().map(|(k, x)| (msg_value_of(k), msg_value_of(x))).collect()),
        Value::Ext(t, d) => MsgValue::Ext(*t, d.clone()),
        _ => MsgValue::Float,
    }
}

/// Wraps `rmpv::decode::read_value`, reading one value from the start of the bytes.
/// Claims: the result is the named decoding of these bytes.
#[verifier::external_body]
fn msgpack_read_value(bytes: &[u8]) -> (r: Option<MsgValue>)
    ensures
        r == spec_msgpack_read_value(bytes@),
{
    let mut rd: &[u8] = bytes;
    match rmpv::decode::read_value(&mut rd) {
        Ok(v) => Some(msg_value_of(&v)),
        Err(_) => None,
    }
}

/// Wraps `rmpv::encode::write_value` on an array of unsigned integers. Claims: the bytes
/// are the named encoding; for fewer than 16 items each below 128 they are the fixarray
/// marker `0x90 + len` followed by each item as a positive fixint, as the MessagePack
/// format and rmp's `write_array_len` and `write_uint` give them.
#[verifier::external_body]
fn msgpack_encode_uint_array(items: &[u64]) -> (r: Vec<u8>)
    ensures
        r@ == spec_msgpack_encode_uint_array(items@),
        items@.len() < 16 && (forall|i: int| 0 <= i < items@.len() ==> items@[i] < 128) ==> r@
            == seq![(0x90 + items@.len()) as u8] + items@.map_values(|n: u64| n as u8),
{
    let value = Value::Array(items.iter().map(|n| Value::from(*n)).collect());
    let mut out = Vec::new();
    rmpv::encode::write_value(&mut out, &value).expect("writing to a Vec does not fail");
    out
}

/// `Value::as_u64`: the value of a non-negative integer.
pub open spec fn msg_as_u64(v: MsgValue) -> Option<u64> {
    match v {
        MsgValue::Int(u, _) => u,
        _ => None,
    }
}

/// Whether a map key is the string `Type` or `type`.
pub open spec fn is_type_key(k: MsgValue) -> bool {
    match k {
        MsgValue::Str(Some(s)) => s@ == "Type"@ || s@ == "type"@,
        _ => false,
    }
}

/// The update type of a notification argument: the value under the first key `Type` or
/// `type` of a map, if it is a non-negative integer.
pub open spec fn update_type_in(entries: Seq<(MsgValue, MsgValue)>) -> Option<u64>
    decreases entries.len(),
{
    if entries.len() == 0 {
        None
    } else if is_type_key(entries[0].0) {
        msg_as_u64(entries[0].1)
    } else {
        update_type_in(entries.drop_first())
    }
}

pub open spec fn update_type_of(v: MsgValue) -> Option<u64> {
    match v {
        MsgValue::Pairs(m) => update_type_in(m@),
        _ => None,
    }
}

/// The event an update type stands for: cipher and vault changes, or a logout.
pub open spec fn event_for_update_type(t: u64) -> Option<SyncEvent> {
    if t == 0 || t == 1 || t == 2 || t == 4 || t == 5 || t == 6 {
        Some(SyncEvent::CipherChanged)
    } else if t == 11 {
        Some(SyncEvent::LogOut)
    } else {
        None
    }
}

/// The event of a decoded SignalR message: an invocation `[1, headers, id, target,
/// [argument, ..]]` whose first argument is a map with a known update type.
pub open spec fn signalr_event_spec(v: MsgValue) -> Option<SyncEvent> {
    match v {
        MsgValue::Array(arr) => if arr@.len() >= 5 && msg_as_u64(arr@[0]) == Some(1u64) {
            match arr@[4] {
                MsgValue::Array(args) => if args@.len() >= 1 {
                    match update_type_of(args@[0]) {
                        Some(t) => event_for_update_type(t),
                        None => None,
                    }
                } else {
                    None
                },
                _ => None,
            }
        } else {
            None
        },
        _ => None,
    }
}

fn is_lit(s: &String, lit: &str) -> (b: bool)
    ensures
        b == (s@ == lit@),
{
    chars_equal(chars_of(s.as_str()).as_slice(), chars_of(lit).as_slice())
}

/// The update type carried by a notification argument (see [`update_type_of`]).
pub fn extract_update_type(value: &MsgValue) -> (r: Option<u64>)
    ensures
        r == update_type_of(*value),
{
    match value {
        MsgValue::Pairs(m) => {
            let mut i: usize = 0;
            assert(m@.skip(0) =~= m@);
            while i < m.len()
                invariant
                    i <= m@.len(),
                    update_type_of(*value) == update_type_in(m@),
                    update_type_in(m@) == update_type_in(m@.skip(i as int)),
                decreases m.len() - i,
            {
                assert(m@.skip(i as int).drop_first() =~= m@.skip(i + 1));
                assert(m@.skip(i as int)[0] == m@[i as int]);
                let is_key = match &m[i].0 {
                    MsgValue::Str(Some(s)) => is_lit(s, "Type") || is_lit(s, "type"),
                    _ => false,
                };
                if is_key {
                    assert(is_type_key(m@[i as int].0));
                    assert(update_type_in(m@.skip(i as int)) == msg_as_u64(m@[i as int].1));
                    let r = match &m[i].1 {
                        MsgValue::Int(u, _) => *u,
                        _ => None,
                    };
                    assert(r == msg_as_u64(m@[i as int].1));
                    return r;
                }
                i += 1;
            }
            assert(m@.skip(i as int) =~= Seq::<(MsgValue, MsgValue)>::empty());
            None
        },
        _ => None,
    }
}

/// The event a decoded SignalR message reports (see [`signalr_event_spec`]).
pub fn signalr_event(value: &MsgValue) -> (r: Option<SyncEvent>)
    ensures
        r == signalr_event_spec(*value),
{
    match value {
        MsgValue::Array(arr) => {
            if arr.len() < 5 {
                return None;
            }
            let is_invocation = match &arr[0] {
                MsgValue::Int(Some(n), _) => *n == 1,
                _ => false,
            };
            if !is_invocation {
                return None;
            }
            match &arr[4] {
                MsgValue::Array(args) => {
                    if args.len() < 1 {
                        return None;
                    }
                    match extract_update_type(&args[0]) {
                        Some(t) => if t == 0 || t == 1 || t == 2 || t == 4 || t == 5 || t == 6 {
                            Some(SyncEvent::CipherChanged)
                        } else if t == 11 {
                            Some(SyncEvent::LogOut)
                        } else {
                            None
                        },
                        None => None,
                    }
                },
                _ => None,
            }
        },
        _ => None,
    }
}

/// The MessagePack payload of a binary frame: the bytes after the length prefix, as many
/// as it says; `None` when the prefix is malformed or longer than what follows.
pub open spec fn frame_payload(data: Seq<u8>) -> Option<Seq<u8>> {
    match varint_len(data) {
        None => None,
        Some(h) => {
            let len = varint_value(data, h);
            if h + len <= data.len() {
                Some(data.subrange(h as int, (h + len) as int))
            } else {
                None
            }
        },
    }
}

/// The event of a binary SignalR frame: its payload decoded and read as a message.
pub open spec fn signalr_message_event(data: Seq<u8>) -> Option<SyncEvent> {
    match frame_payload(data) {
        None => None,
        Some(p) => match spec_msgpack_read_value(p) {
            None => None,
            Some(v) => signalr_event_spec(v),
        },
    }
}

/// Parse a binary SignalR frame and report the event it carries, if any.
pub fn parse_signalr_message(data: &[u8]) -> (r: Option<SyncEvent>)
    ensures
        r == signalr_message_event(data@),
{
    let (payload_len, header_size) = match read_varint(data) {
        Some(p) => p,
        None => return None,
    };
    if payload_len > (data.len() - header_size) as u64 {
        return None;
    }
    let end = header_size + payload_len as usize;
    let payload = vstd::slice::slice_subrange(data, header_size, end);
    assert(frame_payload(data@) == Some(payload@));
    match msgpack_read_value(payload) {
        Some(v) => signalr_event(&v),
        None => None,
    }
}

/// The SignalR ping: a frame holding the MessagePack array `[6]`.
pub fn create_signalr_ping() -> (r: Vec<u8>)
    ensures
        r@ == seq![2u8, 0x91u8, 6u8],
{
    let items: Vec<u64> = vec![6u64];
    let payload = msgpack_encode_uint_array(items.as_slice());
    assert(items@.map_values(|n: u64| n as u8) =~= seq![6u8]);
    assert(payload@ =~= seq![0x91u8, 6u8]);
    let frame = signalr_frame(payload.as_slice());
    assert(varint_bytes(2) =~= seq![2u8]);
    assert(frame@ =~= seq![2u8, 0x91u8, 6u8]);
    frame
}

// ---------------------------------------------------------------------------
// The connection loop's decisions
// ---------------------------------------------------------------------------

/// What the WebSocket delivered, as the connection loop sees it.
#[derive(Debug, Clone)]
pub enum HubMessage {
    Text(String),
    Binary(Vec<u8>),
    /// A WebSocket ping with its data.
    Ping(Vec<u8>),
    Pong,
    /// The server closed the connection.
    Close,
    /// Reading from the socket failed.
    Failed,
    /// The stream ended.
    Ended,
    /// A raw frame, which the loop ignores.
    Frame,
}

/// What the connection loop does about a message.
#[derive(Debug, Clone)]
pub enum HubReaction {
    /// Hand this event to the caller.
    Report(SyncEvent),
    /// Send this text frame back.
    SendText(String),
    /// Answer a ping with a pong carrying the same data.
    SendPong(Vec<u8>),
    /// Nothing to do.
    Ignore,
    /// Drop the connection and connect again.
    Reconnect,
}

/// The text that opens a session: the MessagePack protocol request and a record separator.
pub open spec fn handshake_request_text() -> Seq<char> {
    "{\"protocol\":\"messagepack\",\"version\":1}"@.push(0x1E as char)
}

/// The answer to a JSON ping: `{"type":6}` and a record separator.
pub open spec fn text_pong() -> Seq<char> {
    "{\"type\":6}"@.push(0x1E as char)
}

/// `str::trim_end_matches` with one character: every trailing copy goes.
pub open spec fn trim_end_char(s: Seq<char>, c: char) -> Seq<char>
    decreases s.len(),
{
    if s.len() > 0 && s.last() == c {
        trim_end_char(s.drop_last(), c)
    } else {
        s
    }
}

/// Whether a text frame is a JSON ping (`"type":6`, with or without a space).
pub open spec fn is_text_ping(text: Seq<char>) -> bool {
    let t = trim_end_char(text, 0x1E as char);
    contains_seq(t, "\"type\":6"@) || contains_seq(t, "\"type\": 6"@)
}

/// The handshake request text.
pub fn handshake_request() -> (r: String)
    ensures
        r@ == handshake_request_text(),
{
    let mut v = chars_of("{\"protocol\":\"messagepack\",\"version\":1}");
    v.push(0x1E as char);
    string_of(v.as_slice())
}

/// Whether a message is the hub's handshake answer: a text or binary `{}`.
pub open spec fn is_handshake_message(m: HubMessage) -> bool {
    match m {
        HubMessage::Text(t) => handshake_bytes(vstd::utf8::encode_utf8(t@)),
        HubMessage::Binary(b) => handshake_bytes(b@),
        _ => false,
    }
}

/// Whether a message answers the handshake.
pub fn is_handshake_response(message: &HubMessage) -> (b: bool)
    ensures
        b == is_handshake_message(*message),
{
    match message {
        HubMessage::Text(t) => is_handshake_bytes(t.as_str().as_bytes()),
        HubMessage::Binary(b) => is_handshake_bytes(b.as_slice()),
        _ => false,
    }
}

fn trim_end_char_exec(s: &[char], c: char) -> (r: Vec<char>)
    ensures
        r@ == trim_end_char(s@, c),
{
    let mut j: usize = s.len();
    assert(s@.take(j as int) =~= s@);
    while j > 0 && s[j - 1] == c
        invariant
            j <= s@.len(),
            trim_end_char(s@, c) == trim_end_char(s@.take(j as int), c),
        decreases j,
    {
        assert(s@.take(j as int).drop_last() =~= s@.take(j - 1));
        j -= 1;
    }
    vstd::slice::slice_to_vec(vstd::slice::slice_subrange(s, 0, j))
}

/// A [`HubReaction`] as plain values.
pub enum ReactionView {
    Report(SyncEvent),
    SendText(Seq<char>),
    SendPong(Seq<u8>),
    Ignore,
    Reconnect,
}

impl HubReaction {
    pub open spec fn view(self) -> ReactionView {
        match self {
            HubReaction::Report(e) => ReactionView::Report(e),
            HubReaction::SendText(t) => ReactionView::SendText(t@),
            HubReaction::SendPong(d) => ReactionView::SendPong(d@),
            HubReaction::Ignore => ReactionView::Ignore,
            HubReaction::Reconnect => ReactionView::Reconnect,
        }
    }
}

/// What the loop does about each message (see [`react_to_message`]).
pub open spec fn reaction_for(m: HubMessage) -> ReactionView {
    match m {
        HubMessage::Binary(b) => match signalr_message_event(b@) {
            Some(e) => ReactionView::Report(e),
            None => ReactionView::Ignore,
        },
        HubMessage::Text(t) => if is_text_ping(t@) {
            ReactionView::SendText(text_pong())
        } else {
            ReactionView::Ignore
        },
        HubMessage::Ping(d) => ReactionView::SendPong(d@),
        HubMessage::Pong => ReactionView::Ignore,
        HubMessage::Frame => ReactionView::Ignore,
        HubMessage::Close => ReactionView::Reconnect,
        HubMessage::Failed => ReactionView::Reconnect,
        HubMessage::Ended => ReactionView::Reconnect,
    }
}

/// Whether a message counts as a sign of life for the idle timeout.
pub open spec fn is_activity(m: HubMessage) -> bool {
    m is Binary || m is Text || m is Ping || m is Pong
}

/// Decide what to do about a received message, and whether it shows the connection alive.
/// Binary frames are parsed for events, JSON pings answered with a JSON pong, WebSocket
/// pings with a pong; a close, an error or the end of the stream means reconnecting.
pub fn react_to_message(message: &HubMessage) -> (r: (HubReaction, bool))
    ensures
        r.1 == is_activity(*message),
        r.0.view() == reaction_for(*message),
{
    match message {
        HubMessage::Binary(b) => match parse_signalr_message(b.as_slice()) {
            Some(e) => (HubReaction::Report(e), true),
            None => (HubReaction::Ignore, true),
        },
        HubMessage::Text(t) => {
            let trimmed = trim_end_char_exec(chars_of(t.as_str()).as_slice(), 0x1E as char);
            let ping = contains_exec(trimmed.as_slice(), chars_of("\"type\":6").as_slice())
                || contains_exec(trimmed.as_slice(), chars_of("\"type\": 6").as_slice());
            if ping {
                let mut v = chars_of("{\"type\":6}");
                v.push(0x1E as char);
                (HubReaction::SendText(string_of(v.as_slice())), true)
            } else {
                (HubReaction::Ignore, true)
            }
        },
        HubMessage::Ping(d) => (HubReaction::SendPong(d.clone()), true),
        HubMessage::Pong => (HubReaction::Ignore, true),
        HubMessage::Frame => (HubReaction::Ignore, false),
        HubMessage::Close => (HubReaction::Reconnect, false),
        HubMessage::Failed => (HubReaction::Reconnect, false),
        HubMessage::Ended => (HubReaction::Reconnect, false),
    }
}

/// Whether the connection has been silent for longer than the idle timeout (times in
/// milliseconds, the timeout in seconds).
pub open spec fn idle_expired_spec(last_seen_ms: u64, now_ms: u64, idle_timeout_secs: u64) -> bool {
    now_ms - last_seen_ms > idle_timeout_secs * 1000
}

/// Whether the idle timeout has passed since the last sign of life.
pub fn idle_expired(last_seen_ms: u64, now_ms: u64, idle_timeout_secs: u64) -> (b: bool)
    ensures
        b == idle_expired_spec(last_seen_ms, now_ms, idle_timeout_secs),
{
    if now_ms <= last_seen_ms {
        return false;
    }
    let elapsed = now_ms - last_seen_ms;
    if idle_timeout_secs > u64::MAX / 1000 {
        return false;
    }
    elapsed > idle_timeout_secs * 1000
}

/// The reconnect bookkeeping of the connection loop.
#[derive(Debug, Clone, Copy)]
pub struct ReconnectState {
    /// The delay before the next attempt, in seconds.
    pub backoff: u64,
    /// Failed connects and lost connections since the last successful connect.
    pub failed_attempts: usize,
    /// When the last fallback sync event went out (milliseconds), if one did.
    pub last_fallback_at: Option<u64>,
}

/// What to do after a failed connect or a lost connection.
#[derive(Debug, Clone, Copy)]
pub struct ReconnectStep {
    /// Report [`SyncEvent::FallbackSyncDue`] now.
    pub emit_fallback: bool,
    /// Wait this many seconds before connecting again.
    pub wait: u64,
}

/// Whether a fallback sync is due: fallback syncs are on, enough reconnects have failed,
/// and none went out within the fallback interval.
pub open spec fn fallback_due(failed: usize, last: Option<u64>, now_ms: u64, o: NotificationOptions) -> bool {
    &&& o.fallback_sync_interval != 0
    &&& failed >= o.reconnect_attempts_before_fallback
    &&& match last {
        None => true,
        Some(t) => now_ms - t >= o.fallback_sync_interval * 1000,
    }
}

/// The next delay: doubled, but not beyond the cap.
pub open spec fn next_backoff(b: u64, cap: u64) -> u64 {
    if 2 * b <= cap {
        (2 * b) as u64
    } else {
        cap
    }
}

impl ReconnectState {
    /// The state before any attempt: a one-second delay, no failures, no fallback yet.
    pub fn new() -> (s: ReconnectState)
        ensures
            s.backoff == 1,
            s.failed_attempts == 0,
            s.last_fallback_at is None,
    {
        ReconnectState { backoff: 1, failed_attempts: 0, last_fallback_at: None }
    }

    /// A reconnect succeeded: the failures and the delay start over.
    pub fn connected(&mut self)
        ensures
            final(self).backoff == 1,
            final(self).failed_attempts == 0,
            final(self).last_fallback_at == old(self).last_fallback_at,
    {
        self.failed_attempts = 0;
        self.backoff = 1;
    }

    /// A connect failed or a connection was lost at `now_ms`: count the failure, decide
    /// whether a fallback sync is due (and note when), wait the current delay, then double it.
    pub fn connection_lost(&mut self, now_ms: u64, options: &NotificationOptions) -> (step: ReconnectStep)
        ensures
            final(self).failed_attempts == if old(self).failed_attempts == usize::MAX {
                usize::MAX
            } else {
                (old(self).failed_attempts + 1) as usize
            },
            step.emit_fallback == fallback_due(
                final(self).failed_attempts,
                old(self).last_fallback_at,
                now_ms,
                *options,
            ),
            final(self).last_fallback_at == if step.emit_fallback {
                Some(now_ms)
            } else {
                old(self).last_fallback_at
            },
            step.wait == old(self).backoff,
            final(self).backoff == next_backoff(old(self).backoff, options.reconnect_max_backoff),
    {
        self.failed_attempts = self.failed_attempts.saturating_add(1);
        let due = if options.fallback_sync_interval == 0
            || self.failed_attempts < options.reconnect_attempts_before_fallback {
            false
        } else {
            match self.last_fallback_at {
                None => true,
                Some(t) => {
                    if now_ms < t {
                        false
                    } else if options.fallback_sync_interval > u64::MAX / 1000 {
                        false
                    } else {
                        now_ms - t >= options.fallback_sync_interval * 1000
                    }
                },
            }
        };
        if due {
            self.last_fallback_at = Some(now_ms);
        }
        let wait = self.backoff;
        let cap = options.reconnect_max_backoff;
        self.backoff = if self.backoff <= cap / 2 {
            self.backoff * 2
        } else {
            cap
        };
        ReconnectStep { emit_fallback: due, wait }
    }
}

/// After a failure the reconnect delay never exceeds the cap: it doubles while it fits.
pub proof fn law_backoff_capped(b: u64, cap: u64)
    ensures
        next_backoff(b, cap) <= cap,
        2 * b <= cap ==> next_backoff(b, cap) == 2 * b,
{
}

/// Fallback sync events are spaced: within the fallback interval after one went out, no
/// other is due.
pub proof fn law_fallback_spacing(failed: usize, sent_at: u64, now_ms: u64, o: NotificationOptions)
    requires
        sent_at <= now_ms,
        now_ms < sent_at + o.fallback_sync_interval * 1000,
    ensures
        !fallback_due(failed, Some(sent_at), now_ms, o),
{
}

/// Law: every cipher or vault update a notification can report (update types 0, 1, 2,
/// 4, 5 and 6: cipher update, create, delete, vault sync, ciphers, organization keys)
/// makes a SignalR invocation report a cipher change, and a logout (type 11) reports
/// a logout, whatever else the message holds.
pub proof fn law_update_types_reported(v: MsgValue, args: Vec<MsgValue>, t: u64)
    requires
        v matches MsgValue::Array(arr) && arr@.len() >= 5 && msg_as_u64(arr@[0]) == Some(1u64) && arr@[4]
            == MsgValue::Array(args),
        args@.len() >= 1,
        update_type_of(args@[0]) == Some(t),
    ensures
        (t == 0 || t == 1 || t == 2 || t == 4 || t == 5 || t == 6) ==> signalr_event_spec(v) == Some(
            SyncEvent::CipherChanged,
        ),
        t == 11 ==> signalr_event_spec(v) == Some(SyncEvent::LogOut),
        !(t == 0 || t == 1 || t == 2 || t == 4 || t == 5 || t == 6 || t == 11) ==> signalr_event_spec(v) is None,
{
}

} // verus!
