//! The SSH keys as the user sees them on disk: their selector files, the managed
//! ssh_config snippet that points at them, and how a key is found by name or id.
use vstd::prelude::*;

use crate::bindings::{BindingView, HostBindingsFile};
use crate::client::DecryptedSshKey;
use crate::config::{
    Platform,
    config_dir, in_home_ssh, join_in, join_result, legacy_home_managed_ssh_config_path,
    lowercase_all, lowercase_chars, shared_dir_spec, string_result, trim_dashes, trim_dashes_exec,
    ConfigError, StorageEnv,
};
use crate::crypto::{as_text, decrypt_enc, decrypt_enc_string_to_string, CryptoError, SymmetricKey};
use crate::paths::{path_join, spec_path_join};
use crate::ssh_config::{path_arg, ssh_arg};
use crate::storage::{KeyIdentity, LocalKeyCacheFile};
use crate::text::{
    chars_eq_ignore_ascii_case, chars_equal, chars_of, eq_ignore_ascii_case, is_alnum,
    is_ascii_alnum, is_whitespace, is_ws, join_strings, join_with, push_all, push_str, string_of,
    trim, trim_str, views,
};

verus! {

// ---------------------------------------------------------------------------
// Selector file names
// ---------------------------------------------------------------------------

/// The characters a slug keeps as they are.
pub open spec fn is_slug_char(c: char) -> bool {
    is_ascii_alnum(c) || c == '_' || c == '-'
}

/// Scanning for a slug: the text so far, and whether the last character written was a
/// `-` standing for a run of other characters.
pub open spec fn slug_scan(cs: Seq<char>) -> (Seq<char>, bool)
    decreases cs.len(),
{
    if cs.len() == 0 {
        (Seq::empty(), false)
    } else {
        let (prev, last_dash) = slug_scan(cs.drop_last());
        let c = cs.last();
        if is_slug_char(c) {
            (prev.push(c), false)
        } else if !last_dash {
            (prev.push('-'), true)
        } else {
            (prev, true)
        }
    }
}

/// A key name as a file-name slug: lowercased, ASCII letters, digits, `_` and `-` kept,
/// each run of other characters one `-`, no `-` at either end; `ssh-key` when nothing
/// is left.
pub open spec fn slug_of(name: Seq<char>) -> Seq<char> {
    let s = trim_dashes(slug_scan(lowercase_chars(name)).0);
    if s.len() == 0 {
        "ssh-key"@
    } else {
        s
    }
}

/// Make a key name safe for a file name (see [`slug_of`]).
pub fn slugify_key_name(name: &str) -> (r: String)
    ensures
        r@ == slug_of(name@),
{
    let lower = lowercase_all(chars_of(name).as_slice());
    let mut out: Vec<char> = Vec::new();
    let mut last_dash = false;
    let mut i: usize = 0;
    while i < lower.len()
        invariant
            i <= lower@.len(),
            (out@, last_dash) == slug_scan(lower@.take(i as int)),
        decreases lower.len() - i,
    {
        let c = lower[i];
        assert(lower@.take(i + 1).drop_last() =~= lower@.take(i as int));
        assert(lower@.take(i + 1).last() == c);
        if is_alnum(c) || c == '_' || c == '-' {
            out.push(c);
            last_dash = false;
        } else if !last_dash {
            out.push('-');
            last_dash = true;
        }
        i += 1;
    }
    assert(lower@.take(lower@.len() as int) =~= lower@);
    let t = trim_dashes_exec(out.as_slice());
    if t.len() == 0 {
        string_of(chars_of("ssh-key").as_slice())
    } else {
        string_of(t.as_slice())
    }
}

/// The ASCII letters and digits of a text, in order.
pub open spec fn alnum_only(cs: Seq<char>) -> Seq<char>
    decreases cs.len(),
{
    if cs.len() == 0 {
        cs
    } else if is_ascii_alnum(cs.last()) {
        alnum_only(cs.drop_last()).push(cs.last())
    } else {
        alnum_only(cs.drop_last())
    }
}

/// At most the first `n` elements.
pub open spec fn first_n(s: Seq<char>, n: nat) -> Seq<char> {
    if s.len() <= n {
        s
    } else {
        s.take(n as int)
    }
}

/// The short form of a vault item id: its first eight ASCII letters and digits.
pub open spec fn id_prefix(id: Seq<char>) -> Seq<char> {
    first_n(alnum_only(id), 8)
}

/// The first eight ASCII letters and digits of a vault item id.
pub fn vault_item_id_prefix(cipher_id: &str) -> (r: String)
    ensures
        r@ == id_prefix(cipher_id@),
{
    let cs = chars_of(cipher_id);
    let mut out: Vec<char> = Vec::new();
    let mut i: usize = 0;
    while i < cs.len()
        invariant
            i <= cs@.len(),
            out@ == first_n(alnum_only(cs@.take(i as int)), 8),
        decreases cs.len() - i,
    {
        let c = cs[i];
        assert(cs@.take(i + 1).drop_last() =~= cs@.take(i as int));
        assert(cs@.take(i + 1).last() == c);
        let ghost a = alnum_only(cs@.take(i as int));
        if is_alnum(c) {
            assert(alnum_only(cs@.take(i + 1)) == a.push(c));
            if out.len() < 8 {
                out.push(c);
                assert(a.len() < 8);
                assert(out@ =~= first_n(a.push(c), 8));
            } else {
                assert(a.push(c).take(8) =~= a.take(8));
            }
        }
        i += 1;
    }
    assert(cs@.take(cs@.len() as int) =~= cs@);
    string_of(out.as_slice())
}

/// The selector file of a key: `{slug}--{id prefix}.pub`, or `{slug}.pub` when the id
/// has no letters or digits.
pub open spec fn selector_name(name: Seq<char>, id: Seq<char>) -> Seq<char> {
    let p = id_prefix(id);
    if p.len() == 0 {
        slug_of(name) + ".pub"@
    } else {
        slug_of(name) + "--"@ + p + ".pub"@
    }
}

/// The selector file name of a key.
pub fn selector_file_name(key_name: &str, cipher_id: &str) -> (r: String)
    ensures
        r@ == selector_name(key_name@, cipher_id@),
{
    let prefix = vault_item_id_prefix(cipher_id);
    let slug = slugify_key_name(key_name);
    let mut v = chars_of(slug.as_str());
    if prefix.as_str().is_empty() {
        push_str(&mut v, ".pub");
    } else {
        push_str(&mut v, "--");
        push_str(&mut v, prefix.as_str());
        push_str(&mut v, ".pub");
    }
    string_of(v.as_slice())
}

/// The directory of the selector files: `keys` in the shared data directory.
pub fn key_selector_dir(env: &StorageEnv) -> (r: Result<String, ConfigError>)
    ensures
        string_result(r) == join_in(shared_dir_spec(*env), "keys"@),
{
    join_result(config_dir(env), "keys")
}

/// The selector file of a key.
pub fn selector_path_for_key(env: &StorageEnv, key_name: &str, cipher_id: &str) -> (r: Result<
    String,
    ConfigError,
>)
    ensures
        string_result(r) == join_in(
            join_in(shared_dir_spec(*env), "keys"@),
            selector_name(key_name@, cipher_id@),
        ),
{
    let name = selector_file_name(key_name, cipher_id);
    join_result(key_selector_dir(env), name.as_str())
}

// ---------------------------------------------------------------------------
// Snippets
// ---------------------------------------------------------------------------

/// A key by name and vault item id, without its private key.
#[derive(Debug, Clone)]
pub struct ManagedKey {
    pub name: String,
    pub cipher_id: String,
}

impl ManagedKey {
    pub open spec fn view(&self) -> (Seq<char>, Seq<char>) {
        (self.name@, self.cipher_id@)
    }

    /// The names and ids of decrypted keys.
    pub fn from_decrypted(keys: &[DecryptedSshKey]) -> (r: Vec<ManagedKey>)
        ensures
            r@.len() == keys@.len(),
            forall|i: int| 0 <= i < keys@.len() ==> #[trigger] r@[i].view() == (keys@[i].name@, keys@[i].cipher_id@),
    {
        let mut out: Vec<ManagedKey> = Vec::new();
        let mut i: usize = 0;
        while i < keys.len()
            invariant
                i <= keys@.len(),
                out@.len() == i,
                forall|j: int| 0 <= j < i ==> #[trigger] out@[j].view() == (keys@[j].name@, keys@[j].cipher_id@),
            decreases keys.len() - i,
        {
            out.push(ManagedKey { name: keys[i].name.clone(), cipher_id: keys[i].cipher_id.clone() });
            i += 1;
        }
        out
    }

    /// The names and ids of the keys in a cache header.
    pub fn from_cache_header(keys: &[KeyIdentity]) -> (r: Vec<ManagedKey>)
        ensures
            r@.len() == keys@.len(),
            forall|i: int| 0 <= i < keys@.len() ==> #[trigger] r@[i].view() == (keys@[i].name@, keys@[i].vault_item_id@),
    {
        let mut out: Vec<ManagedKey> = Vec::new();
        let mut i: usize = 0;
        while i < keys.len()
            invariant
                i <= keys@.len(),
                out@.len() == i,
                forall|j: int| 0 <= j < i ==> #[trigger] out@[j].view() == (keys@[j].name@, keys@[j].vault_item_id@),
            decreases keys.len() - i,
        {
            out.push(ManagedKey { name: keys[i].name.clone(), cipher_id: keys[i].vault_item_id.clone() });
            i += 1;
        }
        out
    }
}

pub open spec fn managed_view(keys: Seq<ManagedKey>) -> Seq<(Seq<char>, Seq<char>)> {
    keys.map_values(|k: ManagedKey| k.view())
}

/// `# {name} ({id})`.
pub open spec fn key_comment(name: Seq<char>, id: Seq<char>) -> Seq<char> {
    "# "@ + name + " ("@ + id + ")"@
}

/// The `IdentityFile` argument of a key: its selector file in `dir`, quoted.
pub open spec fn identity_arg(dir: Seq<char>, name: Seq<char>, id: Seq<char>, platform: Platform) -> Seq<char> {
    ssh_arg(spec_path_join(dir, selector_name(name, id)), platform)
}

/// A template `Host` block for a key.
pub open spec fn template_block(dir: Seq<char>, k: (Seq<char>, Seq<char>), platform: Platform) -> Seq<Seq<char>> {
    seq![
        key_comment(k.0, k.1),
        "Host <host>"@,
        "    IdentityFile "@ + identity_arg(dir, k.0, k.1, platform),
        "    IdentitiesOnly yes"@,
        Seq::<char>::empty(),
    ]
}

pub open spec fn template_blocks(dir: Seq<char>, keys: Seq<(Seq<char>, Seq<char>)>, platform: Platform) -> Seq<Seq<char>>
    decreases keys.len(),
{
    if keys.len() == 0 {
        Seq::empty()
    } else {
        template_blocks(dir, keys.drop_last(), platform) + template_block(dir, keys.last(), platform)
    }
}

/// The selector snippet: a header, then one template block per key, lines joined by
/// newlines.
pub open spec fn selector_snippet(dir: Seq<char>, keys: Seq<(Seq<char>, Seq<char>)>, platform: Platform) -> Seq<char> {
    join_with(
        seq![
            "# SSHWarden key selector snippets"@,
            "# Copy a Host block and replace <host> with the destination host."@,
            Seq::<char>::empty(),
        ] + template_blocks(dir, keys, platform),
        "\n"@,
    )
}

proof fn lemma_empty_line()
    ensures
        ""@ == Seq::<char>::empty(),
{
    reveal_strlit("");
    assert(""@ =~= Seq::<char>::empty());
}

fn push_line(lines: &mut Vec<String>, s: &str)
    ensures
        views(final(lines)@) == views(old(lines)@).push(s@),
{
    let ghost before = views(lines@);
    lines.push(string_of(chars_of(s).as_slice()));
    assert(views(lines@) =~= before.push(s@));
}

fn push_line_chars(lines: &mut Vec<String>, s: &[char])
    ensures
        views(final(lines)@) == views(old(lines)@).push(s@),
{
    let ghost before = views(lines@);
    lines.push(string_of(s));
    assert(views(lines@) =~= before.push(s@));
}

fn comment_line(name: &str, id: &str) -> (r: Vec<char>)
    ensures
        r@ == key_comment(name@, id@),
{
    let mut v = chars_of("# ");
    push_str(&mut v, name);
    push_str(&mut v, " (");
    push_str(&mut v, id);
    push_str(&mut v, ")");
    v
}

fn identity_line(prefix: &str, dir: &str, name: &str, id: &str, platform: Platform) -> (r: Vec<char>)
    ensures
        r@ == prefix@ + identity_arg(dir@, name@, id@, platform),
{
    let file = selector_file_name(name, id);
    let path = path_join(dir, file.as_str());
    let arg = path_arg(path.as_str(), platform);
    let mut v = chars_of(prefix);
    push_str(&mut v, arg.as_str());
    v
}

/// The selector snippet for the given keys (see [`selector_snippet`]); it fails when a
/// key's selector directory cannot be resolved.
pub fn ssh_config_snippet_for_keys(env: &StorageEnv, keys: &[DecryptedSshKey]) -> (r: Result<
    String,
    ConfigError,
>)
    ensures
        match join_in(shared_dir_spec(*env), "keys"@) {
            Ok(dir) => r matches Ok(s) && s@ == selector_snippet(
                dir,
                keys@.map_values(|k: DecryptedSshKey| (k.name@, k.cipher_id@)), env.platform
            ),
            Err(e) => if keys@.len() == 0 {
                r matches Ok(s) && s@ == selector_snippet(Seq::empty(), Seq::empty(), env.platform)
            } else {
                r == Err::<String, ConfigError>(e)
            },
        },
{
    let platform = env.platform;
    proof {
        reveal_strlit("");
        assert(""@ =~= Seq::<char>::empty());
    }
    let mut lines: Vec<String> = Vec::new();
    assert(views(lines@) =~= Seq::<Seq<char>>::empty());
    push_line(&mut lines, "# SSHWarden key selector snippets");
    push_line(&mut lines, "# Copy a Host block and replace <host> with the destination host.");
    push_line(&mut lines, "");
    let ghost header = views(lines@);
    assert(header =~= seq![
        "# SSHWarden key selector snippets"@,
        "# Copy a Host block and replace <host> with the destination host."@,
        Seq::<char>::empty(),
    ]);
    let dir_r = key_selector_dir(env);
    let ghost kv = keys@.map_values(|k: DecryptedSshKey| (k.name@, k.cipher_id@));
    if keys.len() == 0 {
        assert(kv =~= Seq::<(Seq<char>, Seq<char>)>::empty());
        assert(forall|d: Seq<char>| #[trigger] template_blocks(d, kv, platform) =~= Seq::<Seq<char>>::empty());
        assert(forall|d: Seq<char>| header + #[trigger] template_blocks(d, kv, platform) =~= header);
        return Ok(join_strings(&lines, "\n"));
    }
    let dir = match dir_r {
        Ok(d) => d,
        Err(e) => return Err(e),
    };
    let mut i: usize = 0;
    while i < keys.len()
        invariant
            i <= keys@.len(),
            kv == keys@.map_values(|k: DecryptedSshKey| (k.name@, k.cipher_id@)),
            views(lines@) == header + template_blocks(dir@, kv.take(i as int), platform),
        decreases keys.len() - i,
    {
        proof {
            lemma_empty_line();
        }
        let k = &keys[i];
        assert(kv.take(i + 1).drop_last() =~= kv.take(i as int));
        assert(kv.take(i + 1).last() == (k.name@, k.cipher_id@));
        let ghost before = views(lines@);
        let c = comment_line(k.name.as_str(), k.cipher_id.as_str());
        push_line_chars(&mut lines, c.as_slice());
        push_line(&mut lines, "Host <host>");
        let idl = identity_line("    IdentityFile ", dir.as_str(), k.name.as_str(), k.cipher_id.as_str(), platform);
        push_line_chars(&mut lines, idl.as_slice());
        push_line(&mut lines, "    IdentitiesOnly yes");
        push_line(&mut lines, "");
        assert(views(lines@) =~= before + template_block(dir@, (k.name@, k.cipher_id@), platform));
        i += 1;
    }
    assert(kv.take(keys@.len() as int) =~= kv);
    Ok(join_strings(&lines, "\n"))
}

/// Whether a key has at least one bound host pattern.
pub open spec fn is_bound(m: Map<Seq<char>, BindingView>, id: Seq<char>) -> bool {
    m.contains_key(id) && m[id].0.len() > 0
}

/// The keys with bound patterns, in order.
pub open spec fn bound_keys(m: Map<Seq<char>, BindingView>, keys: Seq<(Seq<char>, Seq<char>)>) -> Seq<(Seq<char>, Seq<char>)>
    decreases keys.len(),
{
    if keys.len() == 0 {
        keys
    } else if is_bound(m, keys.last().1) {
        bound_keys(m, keys.drop_last()).push(keys.last())
    } else {
        bound_keys(m, keys.drop_last())
    }
}

/// The keys without bound patterns, in order.
pub open spec fn unbound_keys(m: Map<Seq<char>, BindingView>, keys: Seq<(Seq<char>, Seq<char>)>) -> Seq<(Seq<char>, Seq<char>)>
    decreases keys.len(),
{
    if keys.len() == 0 {
        keys
    } else if !is_bound(m, keys.last().1) {
        unbound_keys(m, keys.drop_last()).push(keys.last())
    } else {
        unbound_keys(m, keys.drop_last())
    }
}

/// A real `Host` block for a bound key: its patterns joined by spaces.
pub open spec fn bound_block(dir: Seq<char>, m: Map<Seq<char>, BindingView>, k: (Seq<char>, Seq<char>), platform: Platform) -> Seq<Seq<char>> {
    seq![
        key_comment(k.0, k.1),
        "Host "@ + join_with(m[k.1].0, " "@),
        "    IdentityFile "@ + identity_arg(dir, k.0, k.1, platform),
        "    IdentitiesOnly yes"@,
        Seq::<char>::empty(),
    ]
}

pub open spec fn bound_blocks(dir: Seq<char>, m: Map<Seq<char>, BindingView>, keys: Seq<(Seq<char>, Seq<char>)>, platform: Platform) -> Seq<Seq<char>>
    decreases keys.len(),
{
    if keys.len() == 0 {
        Seq::empty()
    } else {
        bound_blocks(dir, m, keys.drop_last(), platform) + bound_block(dir, m, keys.last(), platform)
    }
}

/// A commented-out template block for an unbound key.
pub open spec fn unbound_block(dir: Seq<char>, k: (Seq<char>, Seq<char>), platform: Platform) -> Seq<Seq<char>> {
    seq![
        key_comment(k.0, k.1),
        "# Host <host>"@,
        "#     IdentityFile "@ + identity_arg(dir, k.0, k.1, platform),
        "#     IdentitiesOnly yes"@,
        Seq::<char>::empty(),
    ]
}

pub open spec fn unbound_blocks(dir: Seq<char>, keys: Seq<(Seq<char>, Seq<char>)>, platform: Platform) -> Seq<Seq<char>>
    decreases keys.len(),
{
    if keys.len() == 0 {
        Seq::empty()
    } else {
        unbound_blocks(dir, keys.drop_last(), platform) + unbound_block(dir, keys.last(), platform)
    }
}

/// The header of the managed snippet.
pub open spec fn managed_header() -> Seq<Seq<char>> {
    seq![
        "# SSHWarden managed SSH config \u{2014} DO NOT EDIT"@,
        "# This file is regenerated on every vault sync."@,
        "# Manage bindings via `sshwarden bindings ...`."@,
        Seq::<char>::empty(),
    ]
}

/// The managed snippet: a header, a `Host` block per bound key, then, if any key is
/// unbound, a section of commented-out templates; lines joined by newlines.
pub open spec fn managed_snippet(dir: Seq<char>, m: Map<Seq<char>, BindingView>, keys: Seq<(Seq<char>, Seq<char>)>, platform: Platform) -> Seq<char> {
    let u = unbound_keys(m, keys);
    let tail = if u.len() > 0 {
        seq!["# --- Unbound keys (uncomment + edit to use) ---"@, Seq::<char>::empty()]
            + unbound_blocks(dir, u, platform)
    } else {
        Seq::empty()
    };
    join_with(managed_header() + bound_blocks(dir, m, bound_keys(m, keys), platform) + tail, "\n"@)
}

/// The managed ssh_config snippet for the keys and their bindings (see
/// [`managed_snippet`]); it fails when there is a key and the selector directory
/// cannot be resolved.
pub fn ssh_config_snippet_with_bindings(env: &StorageEnv, keys: &[ManagedKey], bindings: &HostBindingsFile) -> (r: Result<
    String,
    ConfigError,
>)
    requires
        bindings.bindings.wf(),
    ensures
        match join_in(shared_dir_spec(*env), "keys"@) {
            Ok(dir) => r matches Ok(s) && s@ == managed_snippet(dir, bindings.bindings@, managed_view(keys@), env.platform),
            Err(e) => if keys@.len() == 0 {
                r matches Ok(s) && s@ == managed_snippet(Seq::empty(), bindings.bindings@, Seq::empty(), env.platform)
            } else {
                r == Err::<String, ConfigError>(e)
            },
        },
{
    let platform = env.platform;
    proof {
        reveal_strlit("");
        assert(""@ =~= Seq::<char>::empty());
    }
    let ghost m = bindings.bindings@;
    let ghost kv = managed_view(keys@);
    let mut lines: Vec<String> = Vec::new();
    assert(views(lines@) =~= Seq::<Seq<char>>::empty());
    push_line(&mut lines, "# SSHWarden managed SSH config \u{2014} DO NOT EDIT");
    push_line(&mut lines, "# This file is regenerated on every vault sync.");
    push_line(&mut lines, "# Manage bindings via `sshwarden bindings ...`.");
    push_line(&mut lines, "");
    assert(views(lines@) =~= managed_header());
    let dir_r = key_selector_dir(env);
    if keys.len() == 0 {
        assert(kv =~= Seq::<(Seq<char>, Seq<char>)>::empty());
        assert(bound_blocks(Seq::empty(), m, bound_keys(m, kv), platform) =~= Seq::<Seq<char>>::empty());
        assert(managed_header() + bound_blocks(Seq::empty(), m, bound_keys(m, kv), platform) + Seq::<Seq<char>>::empty()
            =~= views(lines@));
        proof {
            if let Ok(d) = join_in(shared_dir_spec(*env), "keys"@) {
                assert(bound_blocks(d, m, bound_keys(m, kv), platform) =~= Seq::<Seq<char>>::empty());
                assert(managed_header() + bound_blocks(d, m, bound_keys(m, kv), platform) + Seq::<Seq<char>>::empty()
                    =~= views(lines@));
            }
        }
        return Ok(join_strings(&lines, "\n"));
    }
    let dir = match dir_r {
        Ok(d) => d,
        Err(e) => return Err(e),
    };
    let ghost header = views(lines@);
    // The bound keys, in order.
    let mut i: usize = 0;
    while i < keys.len()
        invariant
            i <= keys@.len(),
            bindings.bindings.wf(),
            m == bindings.bindings@,
            kv == managed_view(keys@),
            views(lines@) == header + bound_blocks(dir@, m, bound_keys(m, kv.take(i as int)), platform),
        decreases keys.len() - i,
    {
        proof {
            lemma_empty_line();
        }
        let k = &keys[i];
        assert(kv.take(i + 1).drop_last() =~= kv.take(i as int));
        assert(kv.take(i + 1).last() == k.view());
        let ghost before = views(lines@);
        let ghost prevk = bound_keys(m, kv.take(i as int));
        assert(kv.take(i + 1).drop_last() =~= kv.take(i as int));
        match bindings.bindings.get(k.cipher_id.as_str()) {
            Some(b) => {
                assert(m[k.cipher_id@].0 == crate::bindings::strings_view(b.hosts@));
                assert(views(b.hosts@) =~= crate::bindings::strings_view(b.hosts@));
                if b.hosts.len() > 0 {
                    assert(bound_keys(m, kv.take(i + 1)) == prevk.push(k.view()));
                    assert(prevk.push(k.view()).drop_last() =~= prevk);
                    let c = comment_line(k.name.as_str(), k.cipher_id.as_str());
                    push_line_chars(&mut lines, c.as_slice());
                    let hosts = join_strings(&b.hosts, " ");
                    let mut hl = chars_of("Host ");
                    push_str(&mut hl, hosts.as_str());
                    push_line_chars(&mut lines, hl.as_slice());
                    let idl = identity_line("    IdentityFile ", dir.as_str(), k.name.as_str(), k.cipher_id.as_str(), platform);
                    push_line_chars(&mut lines, idl.as_slice());
                    push_line(&mut lines, "    IdentitiesOnly yes");
                    push_line(&mut lines, "");
                    assert(views(lines@) =~= before + bound_block(dir@, m, k.view(), platform));
                } else {
                    assert(bound_keys(m, kv.take(i + 1)) == prevk);
                }
            },
            None => {
                assert(bound_keys(m, kv.take(i + 1)) == prevk);
            },
        }
        i += 1;
    }
    assert(kv.take(keys@.len() as int) =~= kv);
    let ghost mid = views(lines@);
    // The unbound keys, in order.
    let mut any_unbound = false;
    let mut j: usize = 0;
    let ghost mut tail: Seq<Seq<char>> = Seq::empty();
    while j < keys.len()
        invariant
            j <= keys@.len(),
            bindings.bindings.wf(),
            m == bindings.bindings@,
            kv == managed_view(keys@),
            any_unbound == (unbound_keys(m, kv.take(j as int)).len() > 0),
            views(lines@) == mid + (if any_unbound {
                seq!["# --- Unbound keys (uncomment + edit to use) ---"@, Seq::<char>::empty()]
                    + unbound_blocks(dir@, unbound_keys(m, kv.take(j as int)), platform)
            } else {
                Seq::<Seq<char>>::empty()
            }),
        decreases keys.len() - j,
    {
        proof {
            lemma_empty_line();
        }
        let k = &keys[j];
        assert(kv.take(j + 1).drop_last() =~= kv.take(j as int));
        assert(kv.take(j + 1).last() == k.view());
        let bound = match bindings.bindings.get(k.cipher_id.as_str()) {
            Some(b) => b.hosts.len() > 0,
            None => false,
        };
        if !bound {
            let ghost before = views(lines@);
            if !any_unbound {
                push_line(&mut lines, "# --- Unbound keys (uncomment + edit to use) ---");
                push_line(&mut lines, "");
                any_unbound = true;
                assert(unbound_blocks(dir@, Seq::<(Seq<char>, Seq<char>)>::empty(), platform) =~= Seq::<Seq<char>>::empty());
            }
            let ghost before2 = views(lines@);
            let c = comment_line(k.name.as_str(), k.cipher_id.as_str());
            push_line_chars(&mut lines, c.as_slice());
            push_line(&mut lines, "# Host <host>");
            let idl = identity_line("#     IdentityFile ", dir.as_str(), k.name.as_str(), k.cipher_id.as_str(), platform);
            push_line_chars(&mut lines, idl.as_slice());
            push_line(&mut lines, "#     IdentitiesOnly yes");
            push_line(&mut lines, "");
            assert(views(lines@) =~= before2 + unbound_block(dir@, k.view(), platform));
            assert(unbound_keys(m, kv.take(j + 1)) == unbound_keys(m, kv.take(j as int)).push(k.view()));
            assert(unbound_keys(m, kv.take(j as int)).push(k.view()).drop_last() =~= unbound_keys(m, kv.take(j as int)));
            assert(unbound_blocks(dir@, unbound_keys(m, kv.take(j + 1)), platform) =~= unbound_blocks(
                dir@,
                unbound_keys(m, kv.take(j as int)), platform
            ) + unbound_block(dir@, k.view(), platform));
        }
        j += 1;
    }
    assert(views(lines@) =~= managed_header() + bound_blocks(dir@, m, bound_keys(m, kv), platform) + (if any_unbound {
        seq!["# --- Unbound keys (uncomment + edit to use) ---"@, Seq::<char>::empty()]
            + unbound_blocks(dir@, unbound_keys(m, kv), platform)
    } else {
        Seq::<Seq<char>>::empty()
    }));
    Ok(join_strings(&lines, "\n"))
}

// ---------------------------------------------------------------------------
// Finding keys
// ---------------------------------------------------------------------------

/// Why a key argument names no single key.
#[derive(Debug, Clone, Copy, PartialEq, Eq, Structural)]
pub enum ResolveError {
    /// No key has this id or name.
    NoMatch,
    /// This many keys have this name (ignoring ASCII case).
    Ambiguous(usize),
}

/// The keys whose name equals the query, ignoring ASCII case.
pub open spec fn name_matches(keys: Seq<(Seq<char>, Seq<char>)>, q: Seq<char>) -> Seq<(Seq<char>, Seq<char>)>
    decreases keys.len(),
{
    if keys.len() == 0 {
        keys
    } else if eq_ignore_ascii_case(keys.last().0, q) {
        name_matches(keys.drop_last(), q).push(keys.last())
    } else {
        name_matches(keys.drop_last(), q)
    }
}

pub open spec fn identities_view(keys: Seq<KeyIdentity>) -> Seq<(Seq<char>, Seq<char>)> {
    keys.map_values(|k: KeyIdentity| (k.name@, k.vault_item_id@))
}

/// The vault item id a key argument names: the argument itself without a local cache
/// or when it is a cached id, else the one key whose name matches it ignoring ASCII case.
pub open spec fn resolved_id(keys: Option<Seq<(Seq<char>, Seq<char>)>>, q: Seq<char>) -> Result<Seq<char>, ResolveError> {
    match keys {
        None => Ok(q),
        Some(ks) => if exists|i: int| 0 <= i < ks.len() && #[trigger] ks[i].1 == q {
            Ok(q)
        } else {
            let n = name_matches(ks, q);
            if n.len() == 0 {
                Err(ResolveError::NoMatch)
            } else if n.len() == 1 {
                Ok(n[0].1)
            } else {
                Err(ResolveError::Ambiguous(n.len() as usize))
            }
        },
    }
}

/// Resolve a key argument to a vault item id (see [`resolved_id`]).
pub fn resolve_cipher_id(query: &str, cache: Option<&LocalKeyCacheFile>) -> (r: Result<String, ResolveError>)
    ensures
        match r {
            Ok(s) => resolved_id(
                match cache {
                    Some(c) => Some(identities_view(c.header.keys@)),
                    None => None,
                },
                query@,
            ) == Ok::<Seq<char>, ResolveError>(s@),
            Err(e) => resolved_id(
                match cache {
                    Some(c) => Some(identities_view(c.header.keys@)),
                    None => None,
                },
                query@,
            ) == Err::<Seq<char>, ResolveError>(e),
        },
{
    let c = match cache {
        None => return Ok(string_of(chars_of(query).as_slice())),
        Some(c) => c,
    };
    let keys = &c.header.keys;
    let ghost ks = identities_view(keys@);
    let q = chars_of(query);
    let mut i: usize = 0;
    while i < keys.len()
        invariant
            i <= keys@.len(),
            ks == identities_view(keys@),
            q@ == query@,
            cache == Some(c),
            keys@ == c.header.keys@,
            forall|j: int| 0 <= j < i ==> #[trigger] ks[j].1 != query@,
        decreases keys.len() - i,
    {
        if chars_equal(chars_of(keys[i].vault_item_id.as_str()).as_slice(), q.as_slice()) {
            assert(ks[i as int].1 == query@);
            assert(resolved_id(Some(ks), query@) == Ok::<Seq<char>, ResolveError>(query@));
            return Ok(string_of(q.as_slice()));
        }
        i += 1;
    }
    let mut matches: Vec<usize> = Vec::new();
    let mut j: usize = 0;
    let ghost mut found: Seq<(Seq<char>, Seq<char>)> = Seq::empty();
    while j < keys.len()
        invariant
            j <= keys@.len(),
            ks == identities_view(keys@),
            q@ == query@,
            cache == Some(c),
            keys@ == c.header.keys@,
            forall|j: int| 0 <= j < keys@.len() ==> #[trigger] ks[j].1 != query@,
            name_matches(ks.take(j as int), query@).len() == matches@.len(),
            matches@.len() > 0 ==> (matches@[0] < keys@.len() && name_matches(ks.take(j as int), query@)[0] == ks[matches@[0] as int]),
        decreases keys.len() - j,
    {
        assert(ks.take(j + 1).drop_last() =~= ks.take(j as int));
        assert(ks.take(j + 1).last() == ks[j as int]);
        if chars_eq_ignore_ascii_case(chars_of(keys[j].name.as_str()).as_slice(), q.as_slice()) {
            matches.push(j);
        }
        j += 1;
    }
    assert(ks.take(keys@.len() as int) =~= ks);
    if matches.len() == 0 {
        Err(ResolveError::NoMatch)
    } else if matches.len() == 1 {
        Ok(keys[matches[0]].vault_item_id.clone())
    } else {
        Err(ResolveError::Ambiguous(matches.len()))
    }
}

/// The identities of the keys in a cache header, as (public key, name, vault item id).
pub fn key_tuples_from_cache_header(cache: &LocalKeyCacheFile) -> (r: Vec<(String, String, String)>)
    ensures
        r@.len() == cache.header.keys@.len(),
        forall|i: int| 0 <= i < r@.len() ==> {
            let k = #[trigger] cache.header.keys@[i];
            (r@[i].0@, r@[i].1@, r@[i].2@) == (k.public_key_openssh@, k.name@, k.vault_item_id@)
        },
{
    let keys = &cache.header.keys;
    let mut out: Vec<(String, String, String)> = Vec::new();
    let mut i: usize = 0;
    while i < keys.len()
        invariant
            i <= keys@.len(),
            out@.len() == i,
            forall|j: int| 0 <= j < i ==> {
                let k = #[trigger] keys@[j];
                (out@[j].0@, out@[j].1@, out@[j].2@) == (k.public_key_openssh@, k.name@, k.vault_item_id@)
            },
        decreases keys.len() - i,
    {
        let k = &keys[i];
        out.push((k.public_key_openssh.clone(), k.name.clone(), k.vault_item_id.clone()));
        i += 1;
    }
    out
}

/// Whether a host pattern matches every host: `*` or `!*`, ignoring surrounding blanks.
pub fn is_catch_all_host_pattern(host: &str) -> (b: bool)
    ensures
        b == (trim(host@) == "*"@ || trim(host@) == "!*"@),
{
    let t = trim_str(host);
    chars_equal(t.as_slice(), chars_of("*").as_slice()) || chars_equal(t.as_slice(), chars_of("!*").as_slice())
}

// ---------------------------------------------------------------------------
// Quoting for shells and service files
// ---------------------------------------------------------------------------

/// Every `from` character replaced by the text `to`.
pub open spec fn replace_char(s: Seq<char>, from: char, to: Seq<char>) -> Seq<char>
    decreases s.len(),
{
    if s.len() == 0 {
        s
    } else if s.last() == from {
        replace_char(s.drop_last(), from, to) + to
    } else {
        replace_char(s.drop_last(), from, to).push(s.last())
    }
}

fn replace_char_exec(s: &[char], from: char, to: &str) -> (r: Vec<char>)
    ensures
        r@ == replace_char(s@, from, to@),
{
    let tc = chars_of(to);
    let mut out: Vec<char> = Vec::new();
    let mut i: usize = 0;
    while i < s.len()
        invariant
            i <= s@.len(),
            tc@ == to@,
            out@ == replace_char(s@.take(i as int), from, to@),
        decreases s.len() - i,
    {
        assert(s@.take(i + 1).drop_last() =~= s@.take(i as int));
        assert(s@.take(i + 1).last() == s@[i as int]);
        if s[i] == from {
            push_all(&mut out, tc.as_slice());
        } else {
            out.push(s[i]);
        }
        i += 1;
    }
    assert(s@.take(s@.len() as int) =~= s@);
    out
}

/// The body of a POSIX shell single-quoted string: each `'` becomes `'\''`.
pub fn shell_single_quote(value: &str) -> (r: String)
    ensures
        r@ == replace_char(value@, '\'', "'\\''"@),
{
    string_of(replace_char_exec(chars_of(value).as_slice(), '\'', "'\\''").as_slice())
}

/// The body of a PowerShell single-quoted string: each `'` becomes `''`.
pub fn powershell_single_quote(value: &str) -> (r: String)
    ensures
        r@ == replace_char(value@, '\'', "''"@),
{
    string_of(replace_char_exec(chars_of(value).as_slice(), '\'', "''").as_slice())
}

/// A value for a desktop entry's `Exec` line: quoted with `\` and `"` escaped when it
/// holds whitespace, else as it is.
pub open spec fn desktop_exec_text(v: Seq<char>) -> Seq<char> {
    if exists|i: int| 0 <= i < v.len() && is_ws(#[trigger] v[i]) {
        "\""@ + replace_char(replace_char(v, '\\', "\\\\"@), '"', "\\\""@) + "\""@
    } else {
        v
    }
}

/// Escape a value for a desktop entry's `Exec` line.
pub fn desktop_exec_escape(value: &str) -> (r: String)
    ensures
        r@ == desktop_exec_text(value@),
{
    let cs = chars_of(value);
    let mut has_ws = false;
    let mut i: usize = 0;
    while i < cs.len()
        invariant
            i <= cs@.len(),
            has_ws == exists|j: int| 0 <= j < i && is_ws(#[trigger] cs@[j]),
        decreases cs.len() - i,
    {
        if is_whitespace(cs[i]) {
            has_ws = true;
        }
        i += 1;
    }
    if !has_ws {
        return string_of(cs.as_slice());
    }
    let a = replace_char_exec(cs.as_slice(), '\\', "\\\\");
    let b = replace_char_exec(a.as_slice(), '"', "\\\"");
    let mut out = chars_of("\"");
    push_all(&mut out, b.as_slice());
    push_str(&mut out, "\"");
    string_of(out.as_slice())
}

/// A value escaped for XML text: `&`, `<`, `>`, `"` and `'` as entities.
pub open spec fn xml_text(v: Seq<char>) -> Seq<char> {
    replace_char(
        replace_char(
            replace_char(replace_char(replace_char(v, '&', "&amp;"@), '<', "&lt;"@), '>', "&gt;"@),
            '"',
            "&quot;"@,
        ),
        '\'',
        "&apos;"@,
    )
}

/// Escape a value for XML text.
pub fn xml_escape(value: &str) -> (r: String)
    ensures
        r@ == xml_text(value@),
{
    let a = replace_char_exec(chars_of(value).as_slice(), '&', "&amp;");
    let b = replace_char_exec(a.as_slice(), '<', "&lt;");
    let c = replace_char_exec(b.as_slice(), '>', "&gt;");
    let d = replace_char_exec(c.as_slice(), '"', "&quot;");
    let e = replace_char_exec(d.as_slice(), '\'', "&apos;");
    string_of(e.as_slice())
}

// ---------------------------------------------------------------------------
// Key identities and the managed snippet's upkeep
// ---------------------------------------------------------------------------

/// The OpenSSH public key line of an OpenSSH private key, as `ssh_key` parses the key and
/// writes its public half; `None` when either step fails.
pub uninterp spec fn spec_public_key_openssh(pem: Seq<char>) -> Option<Seq<char>>;

/// Wraps `ssh_key::PrivateKey::from_openssh` followed by `public_key().to_openssh()`.
/// Claims: the result is the named public key line of this private key.
#[verifier::external_body]
fn public_key_openssh_from_pem(pem: &str) -> (r: Option<String>)
    ensures
        crate::text::opt_view(r) == spec_public_key_openssh(pem@),
{
    match ssh_key::PrivateKey::from_openssh(pem) {
        Ok(k) => k.public_key().to_openssh().ok(),
        Err(_) => None,
    }
}

/// The public identity of a key tuple (private key, name, id): its public key line, or
/// an empty one when the private key does not parse.
pub open spec fn identity_of(t: (Seq<char>, Seq<char>, Seq<char>)) -> (Seq<char>, Seq<char>, Seq<char>) {
    (
        t.1,
        t.2,
        match spec_public_key_openssh(t.0) {
            Some(p) => p,
            None => Seq::empty(),
        },
    )
}

/// The public identities of key tuples (private key, name, id), in order.
pub fn key_identities_from_tuples(keys: &[(String, String, String)]) -> (r: Vec<KeyIdentity>)
    ensures
        r@.len() == keys@.len(),
        forall|i: int| 0 <= i < keys@.len() ==> {
            let k = #[trigger] keys@[i];
            (r@[i].name@, r@[i].vault_item_id@, r@[i].public_key_openssh@) == identity_of((k.0@, k.1@, k.2@))
        },
{
    let mut out: Vec<KeyIdentity> = Vec::new();
    let mut i: usize = 0;
    while i < keys.len()
        invariant
            i <= keys@.len(),
            out@.len() == i,
            forall|j: int| 0 <= j < i ==> {
                let k = #[trigger] keys@[j];
                (out@[j].name@, out@[j].vault_item_id@, out@[j].public_key_openssh@) == identity_of((k.0@, k.1@, k.2@))
            },
        decreases keys.len() - i,
    {
        let k = &keys[i];
        let public = match public_key_openssh_from_pem(k.0.as_str()) {
            Some(p) => p,
            None => String::new(),
        };
        out.push(KeyIdentity { name: k.1.clone(), vault_item_id: k.2.clone(), public_key_openssh: public });
        i += 1;
    }
    out
}

/// Decrypt a local key cache's payload with its cache key: the key tuples as JSON text,
/// handed back with the key.
pub fn decrypt_envelope_payload(cache: &LocalKeyCacheFile, local_cache_key: SymmetricKey) -> (r: Result<
    (String, SymmetricKey),
    CryptoError,
>)
    ensures
        match r {
            Ok((json, k)) => as_text(
                decrypt_enc(cache.encrypted_payload@, local_cache_key.enc(), local_cache_key.mac()),
            ) == Ok::<Seq<char>, CryptoError>(json@) && k == local_cache_key,
            Err(e) => as_text(
                decrypt_enc(cache.encrypted_payload@, local_cache_key.enc(), local_cache_key.mac()),
            ) == Err::<Seq<char>, CryptoError>(e),
        },
{
    match decrypt_enc_string_to_string(cache.encrypted_payload.as_str(), &local_cache_key) {
        Ok(json) => Ok((json, local_cache_key)),
        Err(e) => Err(e),
    }
}

/// Where the managed snippet lives: `~/.ssh/sshwarden_config`.
pub fn managed_sshwarden_include_path(env: &StorageEnv) -> (r: Result<String, ConfigError>)
    ensures
        string_result(r) == in_home_ssh(*env, "sshwarden_config"@),
{
    legacy_home_managed_ssh_config_path(env)
}

/// The ids of managed keys.
pub open spec fn managed_ids(keys: Seq<ManagedKey>) -> Seq<Seq<char>> {
    keys.map_values(|k: ManagedKey| k.cipher_id@)
}

/// Bring the managed snippet up to date: drop the bindings of keys no longer known, then
/// produce the snippet to write, unless nothing asks for one (no bindings, no snippet on
/// disk, and no explicit request). Returns how many bindings were dropped and the
/// snippet, if one is to be written.
pub fn managed_config_update(
    env: &StorageEnv,
    keys: &[ManagedKey],
    bindings: &mut HostBindingsFile,
    force_write: bool,
    snippet_exists: bool,
) -> (r: Result<(usize, Option<String>), ConfigError>)
    requires
        old(bindings).bindings.wf(),
    ensures
        final(bindings).bindings.wf(),
        final(bindings).version == old(bindings).version,
        final(bindings).bindings@ == old(bindings).bindings@.restrict(
            old(bindings).bindings@.dom().filter(|k: Seq<char>| crate::bindings::contains_id(managed_ids(keys@), k)),
        ),
        match r {
            Ok((pruned, snippet)) => {
                &&& pruned == old(bindings).bindings@.dom().len() - final(bindings).bindings@.dom().len()
                &&& (snippet is None <==> (!force_write && final(bindings).bindings@ == Map::<Seq<char>, BindingView>::empty() && !snippet_exists))
                &&& (snippet matches Some(t) ==> match join_in(shared_dir_spec(*env), "keys"@) {
                    Ok(dir) => t@ == managed_snippet(dir, final(bindings).bindings@, managed_view(keys@), env.platform),
                    Err(_) => keys@.len() == 0 && t@ == managed_snippet(Seq::empty(), final(bindings).bindings@, Seq::empty(), env.platform),
                })
            },
            Err(e) => keys@.len() > 0 && join_in(shared_dir_spec(*env), "keys"@) == Err::<Seq<char>, ConfigError>(e),
        },
{
    let platform = env.platform;
    let mut ids: Vec<&str> = Vec::new();
    let mut i: usize = 0;
    while i < keys.len()
        invariant
            i <= keys@.len(),
            ids@.len() == i,
            forall|j: int| 0 <= j < i ==> #[trigger] ids@[j]@ == keys@[j].cipher_id@,
        decreases keys.len() - i,
    {
        ids.push(keys[i].cipher_id.as_str());
        i += 1;
    }
    assert(ids@.map_values(|s: &str| s@) =~= managed_ids(keys@));
    let pruned = bindings.prune_orphans(ids.as_slice());
    let has_bindings = !bindings.bindings.is_empty();
    if !force_write && !has_bindings && !snippet_exists {
        return Ok((pruned, None));
    }
    match ssh_config_snippet_with_bindings(env, keys, bindings) {
        Ok(t) => Ok((pruned, Some(t))),
        Err(e) => Err(e),
    }
}

// ---------------------------------------------------------------------------
// Laws of the selector names
// ---------------------------------------------------------------------------

proof fn lemma_slug_scan_chars(cs: Seq<char>)
    ensures
        forall|i: int| 0 <= i < slug_scan(cs).0.len() ==> is_slug_char(#[trigger] slug_scan(cs).0[i]),
    decreases cs.len(),
{
    if cs.len() > 0 {
        lemma_slug_scan_chars(cs.drop_last());
        let prev = slug_scan(cs.drop_last()).0;
        let cur = slug_scan(cs).0;
        assert forall|i: int| 0 <= i < cur.len() implies is_slug_char(#[trigger] cur[i]) by {
            if i < prev.len() {
                assert(cur[i] == prev[i]);
            }
        }
    }
}

proof fn lemma_trim_dashes(s: Seq<char>)
    ensures
        forall|i: int| 0 <= i < trim_dashes(s).len() ==> exists|j: int| 0 <= j < s.len() && s[j] == #[trigger] trim_dashes(s)[i],
        trim_dashes(s).len() > 0 ==> trim_dashes(s)[0] != '-' && trim_dashes(s).last() != '-',
    decreases s.len(),
{
    if s.len() > 0 && s[0] == '-' {
        lemma_trim_dashes(s.drop_first());
        let t = trim_dashes(s.drop_first());
        assert forall|i: int| 0 <= i < t.len() implies exists|j: int| 0 <= j < s.len() && s[j] == #[trigger] t[i] by {
            let j = choose|j: int| 0 <= j < s.drop_first().len() && s.drop_first()[j] == t[i];
            assert(s[j + 1] == t[i]);
        }
    } else if s.len() > 0 && s.last() == '-' {
        lemma_trim_dashes(s.drop_last());
        let t = trim_dashes(s.drop_last());
        assert forall|i: int| 0 <= i < t.len() implies exists|j: int| 0 <= j < s.len() && s[j] == #[trigger] t[i] by {
            let j = choose|j: int| 0 <= j < s.drop_last().len() && s.drop_last()[j] == t[i];
            assert(s[j] == t[i]);
        }
    } else {
        assert forall|i: int| 0 <= i < s.len() implies exists|j: int| 0 <= j < s.len() && s[j] == #[trigger] s[i] by {
            assert(s[i] == s[i]);
        }
    }
}

/// A key's slug is always a safe, non-empty file-name part: only ASCII letters, digits,
/// `_` and `-`, and no `-` at either end.
pub proof fn law_slug_is_safe(name: Seq<char>)
    ensures
        slug_of(name).len() > 0,
        forall|i: int| 0 <= i < slug_of(name).len() ==> is_slug_char(#[trigger] slug_of(name)[i]),
        slug_of(name)[0] != '-',
        slug_of(name).last() != '-',
{
    let raw = slug_scan(lowercase_chars(name)).0;
    lemma_slug_scan_chars(lowercase_chars(name));
    lemma_trim_dashes(raw);
    let t = trim_dashes(raw);
    if t.len() == 0 {
        reveal_strlit("ssh-key");
        assert(slug_of(name) == "ssh-key"@);
        assert forall|i: int| 0 <= i < slug_of(name).len() implies is_slug_char(#[trigger] slug_of(name)[i]) by {
            assert("ssh-key"@ =~= seq!['s', 's', 'h', '-', 'k', 'e', 'y']);
        }
    } else {
        assert forall|i: int| 0 <= i < t.len() implies is_slug_char(#[trigger] t[i]) by {
            let j = choose|j: int| 0 <= j < raw.len() && raw[j] == t[i];
            assert(is_slug_char(raw[j]));
        }
    }
}

proof fn lemma_alnum_only(cs: Seq<char>)
    ensures
        forall|i: int| 0 <= i < alnum_only(cs).len() ==> is_ascii_alnum(#[trigger] alnum_only(cs)[i]),
    decreases cs.len(),
{
    if cs.len() > 0 {
        lemma_alnum_only(cs.drop_last());
        let prev = alnum_only(cs.drop_last());
        let cur = alnum_only(cs);
        assert forall|i: int| 0 <= i < cur.len() implies is_ascii_alnum(#[trigger] cur[i]) by {
            if i < prev.len() {
                assert(cur[i] == prev[i]);
            }
        }
    }
}

/// A vault item id's short form has at most eight characters, each an ASCII letter or
/// digit.
pub proof fn law_id_prefix_is_short_alnum(id: Seq<char>)
    ensures
        id_prefix(id).len() <= 8,
        forall|i: int| 0 <= i < id_prefix(id).len() ==> is_ascii_alnum(#[trigger] id_prefix(id)[i]),
{
    lemma_alnum_only(id);
    let a = alnum_only(id);
    if a.len() > 8 {
        assert forall|i: int| 0 <= i < id_prefix(id).len() implies is_ascii_alnum(#[trigger] id_prefix(id)[i]) by {
            assert(id_prefix(id)[i] == a[i]);
        }
    }
}

// ---------------------------------------------------------------------------
// Selector files
// ---------------------------------------------------------------------------

/// What a selector file holds: the key's public key, trimmed, and a line break.
pub fn selector_file_content(public_key_openssh: &str) -> (r: String)
    ensures
        r@ == trim(public_key_openssh@).push('\n'),
{
    let mut v = trim_str(public_key_openssh);
    v.push('\n');
    string_of(v.as_slice())
}

/// Whether a selector file name is an alias of a key: it ends with `--`, the key's id
/// prefix and `.pub` (a file kept for a key that was renamed).
pub open spec fn is_alias_of(file_name: Seq<char>, id: KeyIdentity) -> bool {
    let p = id_prefix(id.vault_item_id@);
    p.len() > 0 && crate::text::ends_with(file_name, "--"@ + p + ".pub"@)
}

/// For a `.pub` file in the selector directory that no key's own path names: the first
/// key it is an alias of (it is rewritten with that key), or none (it is stale and goes).
pub fn selector_alias_of(file_name: &str, identities: &[KeyIdentity]) -> (r: Option<usize>)
    ensures
        match r {
            Some(i) => i < identities@.len() && is_alias_of(file_name@, identities@[i as int]) && forall|j: int|
                0 <= j < i ==> !is_alias_of(file_name@, #[trigger] identities@[j]),
            None => forall|j: int| 0 <= j < identities@.len() ==> !is_alias_of(file_name@, #[trigger] identities@[j]),
        },
{
    let name = chars_of(file_name);
    let mut i: usize = 0;
    while i < identities.len()
        invariant
            i <= identities@.len(),
            name@ == file_name@,
            forall|j: int| 0 <= j < i ==> !is_alias_of(file_name@, #[trigger] identities@[j]),
        decreases identities.len() - i,
    {
        let prefix = vault_item_id_prefix(identities[i].vault_item_id.as_str());
        let pc = chars_of(prefix.as_str());
        if pc.len() > 0 {
            let mut suffix = chars_of("--");
            push_all(&mut suffix, pc.as_slice());
            push_str(&mut suffix, ".pub");
            proof {
                reveal_strlit("--");
                reveal_strlit(".pub");
            }
            assert(suffix@ =~= "--"@ + prefix@ + ".pub"@);
            if crate::text::ends_with_exec(name.as_slice(), suffix.as_slice()) {
                return Some(i);
            }
        }
        i += 1;
    }
    None
}

// ---------------------------------------------------------------------------
// Listing keys and bindings, and the shell environment
// ---------------------------------------------------------------------------

/// The key type a listing shows for a private key: ED25519, RSA, else SSH.
pub open spec fn key_type_label_spec(pem: Seq<char>) -> Seq<char> {
    if crate::text::contains_seq(pem, "ed25519"@) {
        "ED25519"@
    } else if crate::text::contains_seq(pem, "BEGIN RSA"@) {
        "RSA"@
    } else {
        "SSH"@
    }
}

/// The key type a listing shows for a private key.
pub fn key_type_label(pem: &str) -> (r: &'static str)
    ensures
        r@ == key_type_label_spec(pem@),
{
    let p = chars_of(pem);
    if crate::text::contains_exec(p.as_slice(), chars_of("ed25519").as_slice()) {
        "ED25519"
    } else if crate::text::contains_exec(p.as_slice(), chars_of("BEGIN RSA").as_slice()) {
        "RSA"
    } else {
        "SSH"
    }
}

/// How a binding is labelled in a listing: the name of the first cached key with its id
/// and the id in brackets, else the id alone.
pub fn binding_label(cipher_id: &str, keys: &[KeyIdentity]) -> (r: String)
    ensures
        (exists|i: int|
            0 <= i < keys@.len() && #[trigger] keys@[i].vault_item_id@ == cipher_id@ && (forall|j: int|
                0 <= j < i ==> keys@[j].vault_item_id@ != cipher_id@) && r@ == keys@[i].name@ + " ("@
                + cipher_id@ + ")"@) || ((forall|j: int|
            0 <= j < keys@.len() ==> #[trigger] keys@[j].vault_item_id@ != cipher_id@) && r@ == cipher_id@),
{
    let id = chars_of(cipher_id);
    let mut i: usize = 0;
    while i < keys.len()
        invariant
            i <= keys@.len(),
            id@ == cipher_id@,
            forall|j: int| 0 <= j < i ==> #[trigger] keys@[j].vault_item_id@ != cipher_id@,
        decreases keys.len() - i,
    {
        if chars_equal(chars_of(keys[i].vault_item_id.as_str()).as_slice(), id.as_slice()) {
            let mut v = chars_of(keys[i].name.as_str());
            push_str(&mut v, " (");
            push_all(&mut v, id.as_slice());
            push_str(&mut v, ")");
            let r = string_of(v.as_slice());
            assert(keys@[i as int].vault_item_id@ == cipher_id@);
            return r;
        }
        i += 1;
    }
    cipher_id.to_string()
}

/// The lines that point a shell at the agent endpoint: `SSH_AUTH_SOCK` and
/// `SSHWARDEN_SSH_AUTH_SOCK`, in the shell's syntax, quoted as it quotes; none for a
/// syntax other than sh (bash, zsh, posix), fish, PowerShell (pwsh, ps) or cmd.
pub open spec fn export_lines_spec(shell: Seq<char>, endpoint: Seq<char>) -> Option<Seq<Seq<char>>> {
    let sq = replace_char(endpoint, '\'', "'\\''"@);
    let pq = replace_char(endpoint, '\'', "''"@);
    if shell == "sh"@ || shell == "bash"@ || shell == "zsh"@ || shell == "posix"@ {
        Some(seq!["export SSH_AUTH_SOCK='"@ + sq + "'"@, "export SSHWARDEN_SSH_AUTH_SOCK='"@ + sq + "'"@])
    } else if shell == "fish"@ {
        Some(seq!["set -gx SSH_AUTH_SOCK '"@ + sq + "';"@, "set -gx SSHWARDEN_SSH_AUTH_SOCK '"@ + sq + "';"@])
    } else if shell == "powershell"@ || shell == "pwsh"@ || shell == "ps"@ {
        Some(seq!["$env:SSH_AUTH_SOCK = '"@ + pq + "'"@, "$env:SSHWARDEN_SSH_AUTH_SOCK = '"@ + pq + "'"@])
    } else if shell == "cmd"@ {
        Some(seq!["set SSH_AUTH_SOCK="@ + endpoint, "set SSHWARDEN_SSH_AUTH_SOCK="@ + endpoint])
    } else {
        None
    }
}

fn text_is(a: &str, b: &str) -> (r: bool)
    ensures
        r == (a@ == b@),
{
    chars_equal(chars_of(a).as_slice(), chars_of(b).as_slice())
}

fn wrapped(prefix: &str, body: &str, suffix: &str) -> (r: String)
    ensures
        r@ == prefix@ + body@ + suffix@,
{
    crate::text::concat(crate::text::concat(prefix, body).as_str(), suffix)
}

/// The lines that point a shell at the agent endpoint (see [`export_lines_spec`]).
pub fn shell_export_lines(shell: &str, endpoint: &str) -> (r: Option<Vec<String>>)
    ensures
        match r {
            Some(v) => export_lines_spec(shell@, endpoint@) == Some(views(v@)),
            None => export_lines_spec(shell@, endpoint@) is None,
        },
{
    let (a, b) = if text_is(shell, "sh") || text_is(shell, "bash") || text_is(shell, "zsh") || text_is(shell, "posix") {
        let q = shell_single_quote(endpoint);
        (wrapped("export SSH_AUTH_SOCK='", q.as_str(), "'"), wrapped("export SSHWARDEN_SSH_AUTH_SOCK='", q.as_str(), "'"))
    } else if text_is(shell, "fish") {
        let q = shell_single_quote(endpoint);
        (wrapped("set -gx SSH_AUTH_SOCK '", q.as_str(), "';"), wrapped("set -gx SSHWARDEN_SSH_AUTH_SOCK '", q.as_str(), "';"))
    } else if text_is(shell, "powershell") || text_is(shell, "pwsh") || text_is(shell, "ps") {
        let q = powershell_single_quote(endpoint);
        (wrapped("$env:SSH_AUTH_SOCK = '", q.as_str(), "'"), wrapped("$env:SSHWARDEN_SSH_AUTH_SOCK = '", q.as_str(), "'"))
    } else if text_is(shell, "cmd") {
        (crate::text::concat("set SSH_AUTH_SOCK=", endpoint), crate::text::concat("set SSHWARDEN_SSH_AUTH_SOCK=", endpoint))
    } else {
        return None;
    };
    let mut v: Vec<String> = Vec::new();
    v.push(a);
    v.push(b);
    proof {
        assert(views(v@) =~= seq![a@, b@]);
    }
    Some(v)
}

} // verus!
