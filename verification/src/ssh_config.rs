//! Writing SSHWarden's paths into OpenSSH configuration, and managing the
//! `Include` line that pulls the managed snippet into `~/.ssh/config`.
use vstd::prelude::*;

use crate::config::{Platform, SshConfigPathStyle};
use crate::paths::{
    path_components, path_join, path_strip_prefix, spec_path_components, spec_path_join, spec_path_strip_prefix,
};
use crate::primitives::{spec_str_to_lowercase, str_to_lowercase};
use crate::text::{
    chars_equal, chars_of, concat, is_ws, push_all, push_str, split_char, split_exec, string_of, trim,
    trim_chars, trim_end, trim_start,
};

verus! {

/// The comment written above SSHWarden's `Include` line.
pub const SSHWARDEN_INCLUDE_MARKER: &'static str = "# SSHWarden managed key selector snippets";

/// `"` and `\` escaped with a backslash.
pub open spec fn escape_quoted(s: Seq<char>) -> Seq<char>
    decreases s.len(),
{
    if s.len() == 0 {
        Seq::empty()
    } else {
        let prev = escape_quoted(s.drop_last());
        let c = s.last();
        if c == '"' {
            prev + seq!['\\', '"']
        } else if c == '\\' {
            prev + seq!['\\', '\\']
        } else {
            prev.push(c)
        }
    }
}

/// A value as one double-quoted ssh_config argument.
pub open spec fn quoted_arg(s: Seq<char>) -> Seq<char> {
    seq!['"'] + escape_quoted(s) + seq!['"']
}

/// The path text OpenSSH is given: on Windows every `\` becomes `/` (OpenSSH for
/// Windows reads both as separators, and `/` cannot start an escape); elsewhere the
/// text is kept.
pub open spec fn ssh_path_text(s: Seq<char>, platform: Platform) -> Seq<char> {
    if platform == Platform::Windows {
        s.map_values(|c: char| if c == '\\' { '/' } else { c })
    } else {
        s
    }
}

/// A value as one ssh_config argument on the given platform.
pub open spec fn ssh_arg(s: Seq<char>, platform: Platform) -> Seq<char> {
    quoted_arg(ssh_path_text(s, platform))
}

/// Format a value as one double-quoted ssh_config argument: on Windows backslashes are
/// first turned into `/`; then `"` and `\` are escaped.
pub fn quote_ssh_config_arg(value: &str, platform: Platform) -> (r: String)
    ensures
        r@ == ssh_arg(value@, platform),
{
    let v = chars_of(value);
    let ghost n = ssh_path_text(v@, platform);
    let windows = platform == Platform::Windows;
    let mut out: Vec<char> = Vec::new();
    out.push('"');
    let mut i: usize = 0;
    assert(n.take(0) =~= Seq::<char>::empty());
    while i < v.len()
        invariant
            i <= v@.len(),
            n == ssh_path_text(v@, platform),
            n.len() == v@.len(),
            windows == (platform == Platform::Windows),
            out@ == seq!['"'] + escape_quoted(n.take(i as int)),
        decreases v.len() - i,
    {
        let mut c = v[i];
        if windows && c == '\\' {
            c = '/';
        }
        assert(n[i as int] == c);
        assert(n.take(i + 1).drop_last() =~= n.take(i as int));
        assert(n.take(i + 1).last() == c);
        let ghost before = out@;
        if c == '"' {
            out.push('\\');
            out.push('"');
            assert(out@ =~= before + seq!['\\', '"']);
        } else if c == '\\' {
            out.push('\\');
            out.push('\\');
            assert(out@ =~= before + seq!['\\', '\\']);
        } else {
            out.push(c);
        }
        i += 1;
    }
    assert(n.take(n.len() as int) =~= n);
    out.push('"');
    string_of(out.as_slice())
}

/// A path as one ssh_config argument.
pub fn path_arg(path: &str, platform: Platform) -> (r: String)
    ensures
        r@ == ssh_arg(path@, platform),
{
    quote_ssh_config_arg(path, platform)
}

/// `~` joined with a path relative to the home directory (`~` alone for the home itself).
pub open spec fn tilde_join_spec(rel: Seq<char>) -> Seq<char> {
    if rel.len() == 0 {
        seq!['~']
    } else {
        spec_path_join(seq!['~'], rel)
    }
}

/// `~` joined with a path relative to the home directory.
pub fn tilde_join(relative: &str) -> (r: String)
    ensures
        r@ == tilde_join_spec(relative@),
{
    let mut v: Vec<char> = Vec::new();
    v.push('~');
    assert(v@ =~= seq!['~']);
    let t = string_of(v.as_slice());
    if relative.is_empty() {
        t
    } else {
        path_join(t.as_str(), relative)
    }
}

/// Whether the first components of `pc` are those of `hc`, compared lowercased.
pub open spec fn ci_component_prefix(pc: Seq<Seq<char>>, hc: Seq<Seq<char>>) -> bool {
    &&& hc.len() <= pc.len()
    &&& forall|i: int| 0 <= i < hc.len() ==> spec_str_to_lowercase(#[trigger] pc[i]) == spec_str_to_lowercase(hc[i])
}

/// `base` with each of `comps` joined on in order.
pub open spec fn join_components(base: Seq<char>, comps: Seq<Seq<char>>) -> Seq<char>
    decreases comps.len(),
{
    if comps.len() == 0 {
        base
    } else {
        spec_path_join(join_components(base, comps.drop_last()), comps.last())
    }
}

/// `path` under `home` compared component by component ignoring case, rewritten as `~`
/// joined with the components after the home's.
pub open spec fn home_relative_ci(path: Seq<char>, home: Seq<char>) -> Option<Seq<char>> {
    let pc = spec_path_components(path);
    let hc = spec_path_components(home);
    if ci_component_prefix(pc, hc) {
        Some(join_components(seq!['~'], pc.skip(hc.len() as int)))
    } else {
        None
    }
}

/// A path under `home` rewritten as `~/...`; on Windows, whose file system ignores case,
/// a home that matches only up to case also counts.
pub open spec fn home_relative(path: Seq<char>, home: Seq<char>, platform: Platform) -> Option<Seq<char>> {
    match spec_path_strip_prefix(path, home) {
        Some(rel) => Some(tilde_join_spec(rel)),
        None => if platform == Platform::Windows {
            home_relative_ci(path, home)
        } else {
            None
        },
    }
}

fn home_relative_ci_exec(path: &str, home: &str) -> (r: Option<String>)
    ensures
        crate::text::opt_view(r) == home_relative_ci(path@, home@),
{
    let pc = path_components(path);
    let hc = path_components(home);
    let ghost pv = spec_path_components(path@);
    let ghost hv = spec_path_components(home@);
    assert(pv.len() == pc@.len() && hv.len() == hc@.len());
    if hc.len() > pc.len() {
        return None;
    }
    let mut i: usize = 0;
    while i < hc.len()
        invariant
            i <= hc@.len(),
            hc@.len() <= pc@.len(),
            pv == spec_path_components(path@),
            hv == spec_path_components(home@),
            crate::text::views(pc@) == pv,
            crate::text::views(hc@) == hv,
            forall|k: int| 0 <= k < i ==> spec_str_to_lowercase(#[trigger] pv[k]) == spec_str_to_lowercase(hv[k]),
        decreases hc.len() - i,
    {
        let a = str_to_lowercase(pc[i].as_str());
        let b = str_to_lowercase(hc[i].as_str());
        assert(pv[i as int] == pc@[i as int]@ && hv[i as int] == hc@[i as int]@);
        let av = chars_of(a.as_str());
        let bv = chars_of(b.as_str());
        if !chars_equal(av.as_slice(), bv.as_slice()) {
            assert(spec_str_to_lowercase(pv[i as int]) != spec_str_to_lowercase(hv[i as int]));
            assert(!ci_component_prefix(pv, hv));
            return None;
        }
        i += 1;
    }
    assert(ci_component_prefix(pv, hv));
    let h = hc.len();
    let mut tv: Vec<char> = Vec::new();
    tv.push('~');
    assert(tv@ =~= seq!['~']);
    let mut out = string_of(tv.as_slice());
    let mut j: usize = h;
    assert(pv.subrange(h as int, h as int) =~= Seq::<Seq<char>>::empty());
    while j < pc.len()
        invariant
            h <= j <= pc@.len(),
            crate::text::views(pc@) == pv,
            out@ == join_components(seq!['~'], pv.subrange(h as int, j as int)),
        decreases pc.len() - j,
    {
        let ghost before = out@;
        out = path_join(out.as_str(), pc[j].as_str());
        assert(pv.subrange(h as int, j + 1).drop_last() =~= pv.subrange(h as int, j as int));
        assert(pv.subrange(h as int, j + 1).last() == pc@[j as int]@);
        j += 1;
    }
    assert(pv.subrange(h as int, pv.len() as int) =~= pv.skip(h as int));
    Some(out)
}

/// Rewrite `path` as `~/...` when it lies under `home` (component-wise); on Windows a
/// home that matches only up to case also counts.
pub fn home_relative_path_with_home(path: &str, home: &str, platform: Platform) -> (r: Option<String>)
    ensures
        crate::text::opt_view(r) == home_relative(path@, home@, platform),
{
    match path_strip_prefix(path, home) {
        Some(rel) => Some(tilde_join(rel.as_str())),
        None => if platform == Platform::Windows {
            home_relative_ci_exec(path, home)
        } else {
            None
        },
    }
}

/// The text a path is written as in the given style; `home` is the user's home
/// directory, when known.
pub open spec fn styled_path(path: Seq<char>, style: SshConfigPathStyle, home: Option<Seq<char>>, platform: Platform) -> Seq<char> {
    match style {
        SshConfigPathStyle::Absolute => path,
        SshConfigPathStyle::HomeRelative => match home {
            Some(h) => match home_relative(path, h, platform) {
                Some(r) => r,
                None => path,
            },
            None => path,
        },
    }
}

/// A path as one ssh_config argument in the given style: home-relative paths fall back
/// to the absolute path when the path is not under the home directory.
pub fn path_arg_with_style(path: &str, style: SshConfigPathStyle, home: Option<&str>, platform: Platform) -> (r: String)
    ensures
        r@ == ssh_arg(styled_path(path@, style, match home {
            Some(h) => Some(h@),
            None => None,
        }, platform), platform),
{
    match style {
        SshConfigPathStyle::Absolute => quote_ssh_config_arg(path, platform),
        SshConfigPathStyle::HomeRelative => match home {
            Some(h) => match home_relative_path_with_home(path, h, platform) {
                Some(rel) => quote_ssh_config_arg(rel.as_str(), platform),
                None => quote_ssh_config_arg(path, platform),
            },
            None => quote_ssh_config_arg(path, platform),
        },
    }
}

/// `Include ` followed by the quoted path.
pub open spec fn include_text(arg: Seq<char>) -> Seq<char> {
    "Include "@ + arg
}

/// The `Include` line for the managed snippet.
pub fn include_line(include_path: &str, platform: Platform) -> (r: String)
    ensures
        r@ == include_text(ssh_arg(include_path@, platform)),
{
    let a = path_arg(include_path, platform);
    concat("Include ", a.as_str())
}

/// The `Include` line for the managed snippet, in the given path style.
pub fn include_line_with_style(include_path: &str, style: SshConfigPathStyle, home: Option<&str>, platform: Platform) -> (r: String)
    ensures
        r@ == include_text(ssh_arg(styled_path(include_path@, style, match home {
            Some(h) => Some(h@),
            None => None,
        }, platform), platform)),
{
    let a = path_arg_with_style(include_path, style, home, platform);
    concat("Include ", a.as_str())
}

/// The unquoted `Include` line written by earlier builds.
pub fn legacy_unquoted_include_line(include_path: &str) -> (r: String)
    ensures
        r@ == include_text(include_path@),
{
    concat("Include ", include_path)
}

/// Whether a config line is SSHWarden's `Include` line, quoted (absolute or
/// home-relative) or in the legacy unquoted form.
pub open spec fn is_include_line(line: Seq<char>, include_path: Seq<char>, home: Option<Seq<char>>, platform: Platform) -> bool {
    let t = trim(line);
    ||| t == include_text(ssh_arg(include_path, platform))
    ||| t == include_text(ssh_arg(styled_path(include_path, SshConfigPathStyle::HomeRelative, home, platform), platform))
    ||| t == include_text(include_path)
}

pub open spec fn home_view(home: Option<&str>) -> Option<Seq<char>> {
    match home {
        Some(h) => Some(h@),
        None => None,
    }
}

/// Whether `line` is SSHWarden's `Include` line for `include_path`.
pub fn line_matches_sshwarden_include(line: &str, include_path: &str, home: Option<&str>, platform: Platform) -> (b: bool)
    ensures
        b == is_include_line(line@, include_path@, home_view(home), platform),
{
    let t = crate::text::trim_str(line);
    let a = chars_of(include_line(include_path, platform).as_str());
    let b = chars_of(include_line_with_style(include_path, SshConfigPathStyle::HomeRelative, home, platform).as_str());
    let c = chars_of(legacy_unquoted_include_line(include_path).as_str());
    chars_equal(t.as_slice(), a.as_slice()) || chars_equal(t.as_slice(), b.as_slice())
        || chars_equal(t.as_slice(), c.as_slice())
}

/// Whether some line of `text` is SSHWarden's `Include` line.
pub open spec fn has_include_line(text: Seq<char>, include_path: Seq<char>, home: Option<Seq<char>>, platform: Platform) -> bool {
    let parts = split_char(text, '\n');
    exists|i: int| 0 <= i < parts.len() && is_include_line(#[trigger] parts[i], include_path, home, platform)
}

/// `text` with SSHWarden's `Include` block appended: a newline if the text does not end
/// in one, a blank line, the marker comment and the `Include` line.
pub open spec fn appended_include(text: Seq<char>, include_path: Seq<char>, platform: Platform) -> Seq<char> {
    let base = if text.len() > 0 && text.last() != '\n' {
        text.push('\n')
    } else {
        text
    };
    base + seq!['\n'] + SSHWARDEN_INCLUDE_MARKER@ + seq!['\n'] + include_text(ssh_arg(include_path, platform))
        + seq!['\n']
}

/// The new `~/.ssh/config` text with SSHWarden's `Include` line added, or `None` when
/// a line already includes the managed snippet (in any of its forms).
pub open spec fn with_include_spec(text: Seq<char>, include_path: Seq<char>, home: Option<Seq<char>>, platform: Platform) -> Option<Seq<char>> {
    if has_include_line(text, include_path, home, platform) {
        None
    } else {
        Some(appended_include(text, include_path, platform))
    }
}

/// Add SSHWarden's `Include` line to the text of `~/.ssh/config`; `None` when it is
/// already there.
pub fn config_with_include_line(existing: &str, include_path: &str, home: Option<&str>, platform: Platform) -> (r: Option<String>)
    ensures
        crate::text::opt_view(r) == with_include_spec(existing@, include_path@, home_view(home), platform),
{
    let text = chars_of(existing);
    let parts = split_exec(text.as_slice(), '\n');
    let mut i: usize = 0;
    while i < parts.len()
        invariant
            i <= parts@.len(),
            parts@.len() == split_char(existing@, '\n').len(),
            forall|k: int| 0 <= k < parts@.len() ==> #[trigger] parts@[k]@ == split_char(existing@, '\n')[k],
            forall|k: int| 0 <= k < i ==> !is_include_line(#[trigger] split_char(existing@, '\n')[k], include_path@, home_view(home), platform),
        decreases parts.len() - i,
    {
        let line = string_of(parts[i].as_slice());
        if line_matches_sshwarden_include(line.as_str(), include_path, home, platform) {
            assert(is_include_line(split_char(existing@, '\n')[i as int], include_path@, home_view(home), platform));
            return None;
        }
        i += 1;
    }
    let mut out = text;
    if out.len() > 0 && out[out.len() - 1] != '\n' {
        out.push('\n');
    }
    out.push('\n');
    push_str(&mut out, SSHWARDEN_INCLUDE_MARKER);
    out.push('\n');
    let inc = include_line(include_path, platform);
    push_str(&mut out, inc.as_str());
    out.push('\n');
    assert(out@ =~= appended_include(existing@, include_path@, platform));
    Some(string_of(out.as_slice()))
}

/// Splitting around one separator splits each side.
pub proof fn lemma_split_concat(x: Seq<char>, y: Seq<char>, c: char)
    ensures
        split_char(x + seq![c] + y, c) =~= split_char(x, c) + split_char(y, c),
    decreases x.len(),
{
    let s = x + seq![c] + y;
    crate::text::lemma_find_char_some(x, c);
    match crate::text::find_char(x, c) {
        None => {
            assert(s[x.len() as int] == c);
            assert forall|j: int| 0 <= j < x.len() implies s[j] != c by {
                assert(s[j] == x[j]);
            }
            crate::text::lemma_find_char_at(s, c, x.len() as int);
            assert(s.take(x.len() as int) =~= x);
            assert(s.skip(x.len() + 1 as int) =~= y);
        },
        Some(i) => {
            assert(s[i] == x[i]);
            assert forall|j: int| 0 <= j < i implies s[j] != c by {
                assert(s[j] == x[j]);
            }
            crate::text::lemma_find_char_at(s, c, i);
            assert(s.take(i) =~= x.take(i));
            assert(s.skip(i + 1) =~= x.skip(i + 1) + seq![c] + y);
            lemma_split_concat(x.skip(i + 1), y, c);
        },
    }
}

proof fn lemma_split_no_sep(x: Seq<char>, c: char)
    requires
        forall|j: int| 0 <= j < x.len() ==> x[j] != c,
    ensures
        split_char(x, c) == seq![x],
{
    crate::text::lemma_find_char_none(x, c);
}

proof fn lemma_trim_fixed(x: Seq<char>)
    requires
        x.len() > 0,
        !crate::text::is_ws(x[0]),
        !crate::text::is_ws(x.last()),
    ensures
        trim(x) == x,
{
}

/// Law: adding the `Include` line is idempotent: once added, it is found and not added
/// again (for paths without a line break, which cannot be written on one line).
pub proof fn law_include_line_idempotent(text: Seq<char>, include_path: Seq<char>, home: Option<Seq<char>>, platform: Platform)
    requires
        forall|j: int| 0 <= j < include_path.len() ==> include_path[j] != '\n',
        !has_include_line(text, include_path, home, platform),
    ensures
        with_include_spec(appended_include(text, include_path, platform), include_path, home, platform) is None,
{
    reveal_strlit("# SSHWarden managed key selector snippets");
    reveal_strlit("Include ");
    let base = if text.len() > 0 && text.last() != '\n' {
        text.push('\n')
    } else {
        text
    };
    let m = SSHWARDEN_INCLUDE_MARKER@;
    let inc = include_text(ssh_arg(include_path, platform));
    let q = ssh_arg(include_path, platform);
    assert(q[0] == '"');
    assert(q.last() == '"');
    let np = ssh_path_text(include_path, platform);
    lemma_path_text_no_newline(include_path, platform);
    assert forall|j: int| 0 <= j < escape_quoted(np).len() implies escape_quoted(np)[j] != '\n' by {
        lemma_escape_no_newline(np);
    }
    assert forall|j: int| 0 <= j < inc.len() implies inc[j] != '\n' by {
        if j >= 8 {
            assert(inc[j] == q[j - 8]);
            if j - 8 >= 1 && j - 8 < q.len() - 1 {
                assert(q[j - 8] == escape_quoted(np)[j - 9]);
            }
        }
    }
    assert forall|j: int| 0 <= j < m.len() implies m[j] != '\n' by {}
    let full = appended_include(text, include_path, platform);
    assert(full =~= base + seq!['\n'] + (m + seq!['\n'] + (inc + seq!['\n'] + Seq::<char>::empty())));
    lemma_split_concat(base, m + seq!['\n'] + (inc + seq!['\n'] + Seq::<char>::empty()), '\n');
    lemma_split_concat(m, inc + seq!['\n'] + Seq::<char>::empty(), '\n');
    lemma_split_concat(inc, Seq::<char>::empty(), '\n');
    lemma_split_no_sep(m, '\n');
    lemma_split_no_sep(inc, '\n');
    let parts = split_char(full, '\n');
    let k = split_char(base, '\n').len() + 1 as int;
    assert(parts[k] == inc);
    assert(inc[0] == 'I');
    lemma_trim_fixed(inc);
    assert(is_include_line(parts[k], include_path, home, platform));
}

proof fn lemma_path_text_no_newline(s: Seq<char>, platform: Platform)
    requires
        forall|j: int| 0 <= j < s.len() ==> s[j] != '\n',
    ensures
        ssh_path_text(s, platform).len() == s.len(),
        forall|j: int| 0 <= j < s.len() ==> ssh_path_text(s, platform)[j] != '\n',
{
}

proof fn lemma_escape_no_newline(s: Seq<char>)
    requires
        forall|j: int| 0 <= j < s.len() ==> s[j] != '\n',
    ensures
        forall|j: int| 0 <= j < escape_quoted(s).len() ==> escape_quoted(s)[j] != '\n',
    decreases s.len(),
{
    if s.len() > 0 {
        assert forall|j: int| 0 <= j < s.drop_last().len() implies s.drop_last()[j] != '\n' by {
            assert(s.drop_last()[j] == s[j]);
        }
        lemma_escape_no_newline(s.drop_last());
        let prev = escape_quoted(s.drop_last());
        let e = escape_quoted(s);
        assert(s.last() != '\n');
        assert forall|j: int| 0 <= j < e.len() implies e[j] != '\n' by {
            if j < prev.len() {
                assert(e[j] == prev[j]);
            }
        }
    }
}

/// A line without the `\r` of a `\r\n` ending.
pub open spec fn strip_cr(l: Seq<char>) -> Seq<char> {
    if l.len() > 0 && l.last() == '\r' {
        l.drop_last()
    } else {
        l
    }
}

/// `str::lines`: the text split at `\n` (a `\r` before it dropped); a final empty piece
/// after a trailing `\n` is not a line.
pub open spec fn text_lines(text: Seq<char>) -> Seq<Seq<char>> {
    let parts = split_char(text, '\n');
    let ended = parts.drop_last().map_values(|l: Seq<char>| strip_cr(l));
    if parts.last().len() > 0 {
        ended.push(parts.last())
    } else {
        ended
    }
}

/// Drop trailing blank lines and then a trailing marker line, if there is one
/// (the blank lines go either way).
pub open spec fn pop_marker(kept: Seq<Seq<char>>) -> Seq<Seq<char>>
    decreases kept.len(),
{
    if kept.len() == 0 {
        kept
    } else if trim(kept.last()).len() == 0 {
        pop_marker(kept.drop_last())
    } else if trim(kept.last()) == SSHWARDEN_INCLUDE_MARKER@ {
        kept.drop_last()
    } else {
        kept
    }
}

/// The removal state: the kept lines, whether an `Include` line was removed, and whether
/// a marker was seen with no non-blank line since.
pub type RemovalState = (Seq<Seq<char>>, bool, bool);

/// One line of the removal scan.
pub open spec fn removal_step(st: RemovalState, line: Seq<char>, include_path: Seq<char>, home: Option<Seq<char>>, platform: Platform) -> RemovalState {
    let t = trim(line);
    if t == SSHWARDEN_INCLUDE_MARKER@ {
        (st.0.push(line), st.1, true)
    } else if is_include_line(t, include_path, home, platform) {
        (if st.2 { pop_marker(st.0) } else { st.0 }, true, false)
    } else {
        (st.0.push(line), st.1, if t.len() > 0 { false } else { st.2 })
    }
}

/// The removal scan over the lines in order.
pub open spec fn removal_scan(lines: Seq<Seq<char>>, include_path: Seq<char>, home: Option<Seq<char>>, platform: Platform) -> RemovalState
    decreases lines.len(),
{
    if lines.len() == 0 {
        (Seq::empty(), false, false)
    } else {
        removal_step(removal_scan(lines.drop_last(), include_path, home, platform), lines.last(), include_path, home, platform)
    }
}

/// Lines joined with `\n`.
pub open spec fn join_lines(lines: Seq<Seq<char>>) -> Seq<char>
    decreases lines.len(),
{
    if lines.len() == 0 {
        Seq::empty()
    } else if lines.len() == 1 {
        lines[0]
    } else {
        join_lines(lines.drop_last()) + seq!['\n'] + lines.last()
    }
}

/// The text of `~/.ssh/config` without SSHWarden's `Include` lines (and the marker comment
/// with the blank lines right before each), ending in a newline unless empty; `None`
/// when there is no `Include` line to remove.
pub open spec fn without_include_spec(text: Seq<char>, include_path: Seq<char>, home: Option<Seq<char>>, platform: Platform) -> Option<Seq<char>> {
    let st = removal_scan(text_lines(text), include_path, home, platform);
    if !st.1 {
        None
    } else {
        let j = join_lines(st.0);
        Some(if j.len() > 0 && j.last() != '\n' { j.push('\n') } else { j })
    }
}

fn pop_marker_exec(kept: &mut Vec<Vec<char>>, marker: &[char])
    requires
        marker@ == SSHWARDEN_INCLUDE_MARKER@,
    ensures
        final(kept)@.map_values(|l: Vec<char>| l@) == pop_marker(old(kept)@.map_values(|l: Vec<char>| l@)),
{
    loop
        invariant_except_break
            pop_marker(old(kept)@.map_values(|l: Vec<char>| l@)) == pop_marker(kept@.map_values(|l: Vec<char>| l@)),
        invariant
            marker@ == SSHWARDEN_INCLUDE_MARKER@,
        ensures
            kept@.map_values(|l: Vec<char>| l@) == pop_marker(old(kept)@.map_values(|l: Vec<char>| l@)),
        decreases kept@.len(),
    {
        let ghost kv = kept@.map_values(|l: Vec<char>| l@);
        if kept.len() == 0 {
            break;
        }
        let n = kept.len();
        let t = trim_chars(kept[n - 1].as_slice());
        assert(kv.last() == kept@[n - 1]@);
        if t.len() == 0 {
            kept.pop();
            assert(kept@.map_values(|l: Vec<char>| l@) =~= kv.drop_last());
        } else if chars_equal(t.as_slice(), marker) {
            kept.pop();
            assert(kept@.map_values(|l: Vec<char>| l@) =~= kv.drop_last());
            break;
        } else {
            break;
        }
    }
}

/// Remove SSHWarden's `Include` line (and the marker comment before it) from the text of
/// `~/.ssh/config`; `None` when there is none.
pub fn config_without_include_line(existing: &str, include_path: &str, home: Option<&str>, platform: Platform) -> (r: Option<String>)
    ensures
        crate::text::opt_view(r) == without_include_spec(existing@, include_path@, home_view(home), platform),
{
    let text = chars_of(existing);
    let parts = split_exec(text.as_slice(), '\n');
    let ghost pv = split_char(existing@, '\n');
    let n = parts.len();
    let mut lines: Vec<Vec<char>> = Vec::new();
    let mut i: usize = 0;
    while i + 1 < n
        invariant
            n == parts@.len(),
            n == pv.len(),
            n >= 1,
            i + 1 <= n,
            forall|k: int| 0 <= k < n ==> #[trigger] parts@[k]@ == pv[k],
            lines@.map_values(|l: Vec<char>| l@) =~= pv.take(i as int).map_values(|l: Seq<char>| strip_cr(l)),
        decreases n - i,
    {
        let p = &parts[i];
        let l = if p.len() > 0 && p[p.len() - 1] == '\r' {
            vstd::slice::slice_to_vec(vstd::slice::slice_subrange(p.as_slice(), 0, p.len() - 1))
        } else {
            vstd::slice::slice_to_vec(p.as_slice())
        };
        assert(l@ =~= strip_cr(pv[i as int]));
        lines.push(l);
        assert(pv.take(i + 1) =~= pv.take(i as int).push(pv[i as int]));
        assert(pv.take(i + 1).map_values(|l: Seq<char>| strip_cr(l)) =~= pv.take(i as int).map_values(
            |l: Seq<char>| strip_cr(l),
        ).push(strip_cr(pv[i as int])));
        i += 1;
    }
    assert(pv.take(n - 1) =~= pv.drop_last());
    if parts[n - 1].len() > 0 {
        lines.push(vstd::slice::slice_to_vec(parts[n - 1].as_slice()));
    }
    let ghost lv = lines@.map_values(|l: Vec<char>| l@);
    assert(lv =~= text_lines(existing@));
    let marker = chars_of(SSHWARDEN_INCLUDE_MARKER);
    let mut kept: Vec<Vec<char>> = Vec::new();
    let mut removed = false;
    let mut skip = false;
    let mut k: usize = 0;
    assert(lv.take(0) =~= Seq::<Seq<char>>::empty());
    while k < lines.len()
        invariant
            k <= lines@.len(),
            lv == lines@.map_values(|l: Vec<char>| l@),
            marker@ == SSHWARDEN_INCLUDE_MARKER@,
            removal_scan(lv.take(k as int), include_path@, home_view(home), platform) == (kept@.map_values(|l: Vec<char>| l@), removed, skip),
        decreases lines.len() - k,
    {
        let line = &lines[k];
        assert(lv.take(k + 1).drop_last() =~= lv.take(k as int));
        assert(lv.take(k + 1).last() == line@);
        let t = trim_chars(line.as_slice());
        let ghost before = kept@.map_values(|l: Vec<char>| l@);
        if chars_equal(t.as_slice(), marker.as_slice()) {
            kept.push(vstd::slice::slice_to_vec(line.as_slice()));
            assert(kept@.map_values(|l: Vec<char>| l@) =~= before.push(line@));
            skip = true;
        } else {
            let ts = string_of(t.as_slice());
            if line_matches_sshwarden_include(ts.as_str(), include_path, home, platform) {
                if skip {
                    pop_marker_exec(&mut kept, marker.as_slice());
                }
                skip = false;
                removed = true;
            } else {
                kept.push(vstd::slice::slice_to_vec(line.as_slice()));
                assert(kept@.map_values(|l: Vec<char>| l@) =~= before.push(line@));
                if t.len() > 0 {
                    skip = false;
                }
            }
        }
        k += 1;
    }
    assert(lv.take(lines.len() as int) =~= lv);
    if !removed {
        return None;
    }
    let ghost kv = kept@.map_values(|l: Vec<char>| l@);
    let mut out: Vec<char> = Vec::new();
    let mut m: usize = 0;
    assert(kv.take(0) =~= Seq::<Seq<char>>::empty());
    while m < kept.len()
        invariant
            m <= kept@.len(),
            kv == kept@.map_values(|l: Vec<char>| l@),
            out@ == join_lines(kv.take(m as int)),
        decreases kept.len() - m,
    {
        assert(kv.take(m + 1).drop_last() =~= kv.take(m as int));
        assert(kv.take(m + 1).last() == kept@[m as int]@);
        if m > 0 {
            out.push('\n');
        }
        push_all(&mut out, kept[m].as_slice());
        m += 1;
    }
    assert(kv.take(kept.len() as int) =~= kv);
    if out.len() > 0 && out[out.len() - 1] != '\n' {
        out.push('\n');
    }
    Some(string_of(out.as_slice()))
}


// ---------------------------------------------------------------------------
// Removing the Include line leaves none behind
// ---------------------------------------------------------------------------

proof fn lemma_trim_start_front(s: Seq<char>)
    ensures
        trim_start(s).len() == 0 || !is_ws(trim_start(s)[0]),
    decreases s.len(),
{
    if s.len() > 0 && is_ws(s[0]) {
        lemma_trim_start_front(s.drop_first());
    }
}

proof fn lemma_trim_end_idem(s: Seq<char>)
    ensures
        trim_end(trim_end(s)) == trim_end(s),
    decreases s.len(),
{
    if s.len() > 0 && is_ws(s.last()) {
        lemma_trim_end_idem(s.drop_last());
    }
}

proof fn lemma_trim_end_keeps_front(s: Seq<char>)
    requires
        s.len() > 0,
        !is_ws(s[0]),
    ensures
        trim_end(s).len() > 0,
        trim_end(s)[0] == s[0],
    decreases s.len(),
{
    if is_ws(s.last()) {
        assert(s.len() > 1);
        assert(s.drop_last()[0] == s[0]);
        lemma_trim_end_keeps_front(s.drop_last());
    }
}

/// Trimming twice is trimming once.
proof fn lemma_trim_idem(s: Seq<char>)
    ensures
        trim(trim(s)) == trim(s),
{
    let a = trim_start(s);
    lemma_trim_start_front(s);
    lemma_trim_end_idem(a);
    if a.len() > 0 {
        lemma_trim_end_keeps_front(a);
    }
}

/// Trailing whitespace does not change the trimmed text.
proof fn lemma_trim_drop_ws_last(s: Seq<char>)
    requires
        s.len() > 0,
        is_ws(s.last()),
    ensures
        trim(s) == trim(s.drop_last()),
    decreases s.len(),
{
    if is_ws(s[0]) {
        if s.len() == 1 {
            assert(s.drop_first() =~= Seq::<char>::empty());
            assert(s.drop_last() =~= Seq::<char>::empty());
        } else {
            lemma_trim_drop_ws_last(s.drop_first());
            assert(s.drop_last().drop_first() =~= s.drop_first().drop_last());
        }
    } else {
        assert(s.drop_last()[0] == s[0]);
    }
}

/// A line and the same line without its `\r` trim alike.
proof fn lemma_trim_strip_cr(l: Seq<char>)
    ensures
        trim(strip_cr(l)) == trim(l),
{
    if l.len() > 0 && l.last() == '\r' {
        lemma_trim_drop_ws_last(l);
    }
}

/// A line without a line break that is not SSHWarden's `Include` line.
pub open spec fn clean_line(l: Seq<char>, include_path: Seq<char>, home: Option<Seq<char>>, platform: Platform) -> bool {
    &&& forall|j: int| 0 <= j < l.len() ==> l[j] != '\n'
    &&& !is_include_line(l, include_path, home, platform)
}

/// The pieces of a split hold no separator.
proof fn lemma_split_pieces_clean(s: Seq<char>, c: char)
    ensures
        forall|k: int, j: int|
            0 <= k < split_char(s, c).len() && 0 <= j < split_char(s, c)[k].len() ==> split_char(s, c)[k][j] != c,
    decreases s.len(),
{
    crate::text::lemma_find_char_some(s, c);
    match crate::text::find_char(s, c) {
        None => {},
        Some(i) => {
            lemma_split_pieces_clean(s.skip(i + 1), c);
            let rest = split_char(s.skip(i + 1), c);
            assert(split_char(s, c) == seq![s.take(i)] + rest);
            assert forall|k: int, j: int|
                0 <= k < split_char(s, c).len() && 0 <= j < split_char(s, c)[k].len() implies split_char(s, c)[k][j] != c by {
                if k > 0 {
                    assert(split_char(s, c)[k] == rest[k - 1]);
                } else {
                    assert(split_char(s, c)[k][j] == s[j]);
                }
            }
        },
    }
}

/// Dropping blank lines and a marker keeps a prefix of the lines.
proof fn lemma_pop_marker_prefix(kept: Seq<Seq<char>>)
    ensures
        pop_marker(kept).len() <= kept.len(),
        forall|k: int| 0 <= k < pop_marker(kept).len() ==> pop_marker(kept)[k] == kept[k],
    decreases kept.len(),
{
    if kept.len() > 0 && trim(kept.last()).len() == 0 {
        lemma_pop_marker_prefix(kept.drop_last());
        assert forall|k: int| 0 <= k < pop_marker(kept).len() implies pop_marker(kept)[k] == kept[k] by {
            assert(kept.drop_last()[k] == kept[k]);
        }
    } else if kept.len() > 0 && trim(kept.last()) == SSHWARDEN_INCLUDE_MARKER@ {
        assert forall|k: int| 0 <= k < pop_marker(kept).len() implies pop_marker(kept)[k] == kept[k] by {
            assert(kept.drop_last()[k] == kept[k]);
        }
    }
}

/// The marker comment is not an `Include` line.
proof fn lemma_marker_not_include(line: Seq<char>, include_path: Seq<char>, home: Option<Seq<char>>, platform: Platform)
    requires
        trim(line) == SSHWARDEN_INCLUDE_MARKER@,
    ensures
        !is_include_line(line, include_path, home, platform),
{
    reveal_strlit("# SSHWarden managed key selector snippets");
    reveal_strlit("Include ");
    assert(SSHWARDEN_INCLUDE_MARKER@[0] == '#');
    assert(forall|a: Seq<char>| #[trigger] include_text(a)[0] == 'I');
}

/// Every line the removal scan keeps is clean.
proof fn lemma_removal_scan_clean(lines: Seq<Seq<char>>, include_path: Seq<char>, home: Option<Seq<char>>, platform: Platform)
    requires
        forall|k: int, j: int| 0 <= k < lines.len() && 0 <= j < lines[k].len() ==> lines[k][j] != '\n',
    ensures
        forall|k: int|
            0 <= k < removal_scan(lines, include_path, home, platform).0.len() ==> clean_line(
                #[trigger] removal_scan(lines, include_path, home, platform).0[k],
                include_path,
                home, platform
            ),
    decreases lines.len(),
{
    if lines.len() > 0 {
        let prev = removal_scan(lines.drop_last(), include_path, home, platform);
        assert forall|k: int, j: int| 0 <= k < lines.drop_last().len() && 0 <= j < lines.drop_last()[k].len() implies lines.drop_last()[k][j] != '\n' by {
            assert(lines.drop_last()[k] == lines[k]);
        }
        lemma_removal_scan_clean(lines.drop_last(), include_path, home, platform);
        let line = lines.last();
        let t = trim(line);
        let st = removal_scan(lines, include_path, home, platform);
        assert(lines.last() == lines[lines.len() - 1]);
        if t == SSHWARDEN_INCLUDE_MARKER@ {
            lemma_marker_not_include(line, include_path, home, platform);
            assert forall|k: int| 0 <= k < st.0.len() implies clean_line(#[trigger] st.0[k], include_path, home, platform) by {
                if k < prev.0.len() {
                    assert(st.0[k] == prev.0[k]);
                }
            }
        } else if is_include_line(t, include_path, home, platform) {
            lemma_pop_marker_prefix(prev.0);
            assert forall|k: int| 0 <= k < st.0.len() implies clean_line(#[trigger] st.0[k], include_path, home, platform) by {
                assert(st.0[k] == prev.0[k]);
            }
        } else {
            lemma_trim_idem(line);
            assert forall|k: int| 0 <= k < st.0.len() implies clean_line(#[trigger] st.0[k], include_path, home, platform) by {
                if k < prev.0.len() {
                    assert(st.0[k] == prev.0[k]);
                }
            }
        }
    }
}

/// Splitting joined lines gives them back.
proof fn lemma_split_join(kept: Seq<Seq<char>>)
    requires
        kept.len() > 0,
        forall|k: int, j: int| 0 <= k < kept.len() && 0 <= j < kept[k].len() ==> kept[k][j] != '\n',
    ensures
        split_char(join_lines(kept), '\n') == kept,
    decreases kept.len(),
{
    if kept.len() == 1 {
        lemma_split_no_sep(kept[0], '\n');
        assert(seq![kept[0]] =~= kept);
    } else {
        let init = kept.drop_last();
        assert forall|k: int, j: int| 0 <= k < init.len() && 0 <= j < init[k].len() implies init[k][j] != '\n' by {
            assert(init[k] == kept[k]);
        }
        lemma_split_join(init);
        lemma_split_concat(join_lines(init), kept.last(), '\n');
        assert(kept.last() == kept[kept.len() - 1]);
        lemma_split_no_sep(kept.last(), '\n');
        assert(init + seq![kept.last()] =~= kept);
    }
}

/// Whether no line of `text` is SSHWarden's `Include` line.
pub open spec fn no_include_line(text: Seq<char>, include_path: Seq<char>, home: Option<Seq<char>>, platform: Platform) -> bool {
    forall|k: int| 0 <= k < text_lines(text).len() ==> !is_include_line(#[trigger] text_lines(text)[k], include_path, home, platform)
}

/// The text of clean lines, joined and ended, has only clean lines.
proof fn lemma_join_clean(kept: Seq<Seq<char>>, include_path: Seq<char>, home: Option<Seq<char>>, platform: Platform)
    requires
        forall|k: int| 0 <= k < kept.len() ==> clean_line(#[trigger] kept[k], include_path, home, platform),
    ensures
        ({
            let j = join_lines(kept);
            no_include_line(if j.len() > 0 && j.last() != '\n' { j.push('\n') } else { j }, include_path, home, platform)
        }),
{
    let j = join_lines(kept);
    let out = if j.len() > 0 && j.last() != '\n' { j.push('\n') } else { j };
    if kept.len() == 0 {
        lemma_split_no_sep(out, '\n');
        assert(text_lines(out).len() == 0);
    } else {
        assert forall|k: int, i: int| 0 <= k < kept.len() && 0 <= i < kept[k].len() implies kept[k][i] != '\n' by {
            assert(clean_line(kept[k], include_path, home, platform));
        }
        lemma_split_join(kept);
        let parts = split_char(out, '\n');
        if out == j {
            assert(parts == kept);
        } else {
            assert(out =~= j + seq!['\n'] + Seq::<char>::empty());
            lemma_split_concat(j, Seq::<char>::empty(), '\n');
            lemma_split_no_sep(Seq::<char>::empty(), '\n');
            assert(parts.drop_last() =~= kept);
        }
        assert forall|k: int| 0 <= k < text_lines(out).len() implies !is_include_line(#[trigger] text_lines(out)[k], include_path, home, platform) by {
            assert(clean_line(kept[k], include_path, home, platform));
            lemma_trim_strip_cr(kept[k]);
        }
    }
}

/// Law: removing SSHWarden's `Include` line leaves none behind: no line of the new text
/// of `~/.ssh/config` is that line.
pub proof fn law_removed_include_is_gone(text: Seq<char>, include_path: Seq<char>, home: Option<Seq<char>>, platform: Platform)
    ensures
        without_include_spec(text, include_path, home, platform) matches Some(out) ==> no_include_line(out, include_path, home, platform),
{
    let parts = split_char(text, '\n');
    let lines = text_lines(text);
    lemma_split_pieces_clean(text, '\n');
    assert forall|k: int, j: int| 0 <= k < lines.len() && 0 <= j < lines[k].len() implies lines[k][j] != '\n' by {
        if k < parts.len() - 1 {
            assert(lines[k] == strip_cr(parts[k]));
            assert(lines[k][j] == parts[k][j]);
        } else {
            assert(lines[k] == parts.last());
            assert(parts.last() == parts[parts.len() - 1]);
        }
    }
    lemma_removal_scan_clean(lines, include_path, home, platform);
    lemma_join_clean(removal_scan(lines, include_path, home, platform).0, include_path, home, platform);
}

proof fn lemma_join_prepend(a: Seq<char>, rest: Seq<Seq<char>>)
    requires
        rest.len() > 0,
    ensures
        join_lines(seq![a] + rest) == a + seq!['\n'] + join_lines(rest),
    decreases rest.len(),
{
    let all = seq![a] + rest;
    assert(join_lines(seq![a]) == a);
    if rest.len() == 1 {
        assert(all.drop_last() =~= seq![a]);
        assert(all.last() == rest[0]);
        assert(join_lines(rest) == rest[0]);
        assert(join_lines(all) == join_lines(all.drop_last()) + seq!['\n'] + all.last());
    } else {
        lemma_join_prepend(a, rest.drop_last());
        assert(all.drop_last() =~= seq![a] + rest.drop_last());
        assert(all.last() == rest.last());
        assert(join_lines(all) == join_lines(all.drop_last()) + seq!['\n'] + all.last());
        assert(join_lines(rest) == join_lines(rest.drop_last()) + seq!['\n'] + rest.last());
        assert(a + seq!['\n'] + join_lines(rest.drop_last()) + seq!['\n'] + rest.last() =~= a + seq!['\n'] + (
        join_lines(rest.drop_last()) + seq!['\n'] + rest.last()));
    }
}

/// A split of a text without `d` has no `d` in its pieces.
proof fn lemma_split_pieces_lack(s: Seq<char>, c: char, d: char)
    requires
        forall|j: int| 0 <= j < s.len() ==> s[j] != d,
    ensures
        forall|k: int, j: int|
            0 <= k < split_char(s, c).len() && 0 <= j < split_char(s, c)[k].len() ==> split_char(s, c)[k][j] != d,
    decreases s.len(),
{
    crate::text::lemma_find_char_some(s, c);
    match crate::text::find_char(s, c) {
        None => {},
        Some(i) => {
            assert forall|j: int| 0 <= j < s.skip(i + 1).len() implies #[trigger] s.skip(i + 1)[j] != d by {
                assert(s.skip(i + 1)[j] == s[i + 1 + j]);
            }
            lemma_split_pieces_lack(s.skip(i + 1), c, d);
            let rest = split_char(s.skip(i + 1), c);
            assert(split_char(s, c) == seq![s.take(i)] + rest);
            assert forall|k: int, j: int|
                0 <= k < split_char(s, c).len() && 0 <= j < split_char(s, c)[k].len() implies split_char(s, c)[k][j] != d by {
                if k > 0 {
                    assert(split_char(s, c)[k] == rest[k - 1]);
                } else {
                    assert(split_char(s, c)[k][j] == s[j]);
                }
            }
        },
    }
}

/// Joining the pieces of a split at line breaks gives the text back.
proof fn lemma_join_split(s: Seq<char>)
    ensures
        join_lines(split_char(s, '\n')) == s,
    decreases s.len(),
{
    crate::text::lemma_find_char_some(s, '\n');
    match crate::text::find_char(s, '\n') {
        None => {},
        Some(i) => {
            let rest = split_char(s.skip(i + 1), '\n');
            lemma_join_split(s.skip(i + 1));
            crate::text::lemma_find_char_some(s.skip(i + 1), '\n');
            assert(rest.len() > 0);
            lemma_join_prepend(s.take(i), rest);
            assert(s.take(i) + seq!['\n'] + s.skip(i + 1) =~= s);
        },
    }
}

/// With no `Include` line among the lines, the removal scan keeps them all.
proof fn lemma_removal_scan_keeps(lines: Seq<Seq<char>>, include_path: Seq<char>, home: Option<Seq<char>>, platform: Platform)
    requires
        forall|k: int| 0 <= k < lines.len() ==> !is_include_line(#[trigger] lines[k], include_path, home, platform),
    ensures
        removal_scan(lines, include_path, home, platform).0 == lines,
        !removal_scan(lines, include_path, home, platform).1,
    decreases lines.len(),
{
    if lines.len() > 0 {
        assert forall|k: int| 0 <= k < lines.drop_last().len() implies !is_include_line(#[trigger] lines.drop_last()[k], include_path, home, platform) by {
            assert(lines.drop_last()[k] == lines[k]);
        }
        lemma_removal_scan_keeps(lines.drop_last(), include_path, home, platform);
        let line = lines.last();
        assert(line == lines[lines.len() - 1]);
        lemma_trim_idem(line);
        assert(lines.drop_last().push(line) =~= lines);
    }
}

/// Law: taking SSHWarden's `Include` line out again restores `~/.ssh/config` as it was
/// before it was added, for a text that ends with a line break (or is empty), has no
/// `\r`, and has no `Include` line of its own; the path holds no line break.
pub proof fn law_include_install_uninstall_roundtrip(text: Seq<char>, include_path: Seq<char>, home: Option<Seq<char>>, platform: Platform)
    requires
        forall|j: int| 0 <= j < include_path.len() ==> include_path[j] != '\n',
        forall|j: int| 0 <= j < text.len() ==> text[j] != '\r',
        text.len() == 0 || text.last() == '\n',
        !has_include_line(text, include_path, home, platform),
    ensures
        with_include_spec(text, include_path, home, platform) matches Some(added) && without_include_spec(
            added,
            include_path,
            home, platform
        ) == Some(text),
{
    reveal_strlit("# SSHWarden managed key selector snippets");
    reveal_strlit("Include ");
    let m = SSHWARDEN_INCLUDE_MARKER@;
    let q = ssh_arg(include_path, platform);
    let inc = include_text(q);
    let full = appended_include(text, include_path, platform);
    assert(q[0] == '"');
    assert(q.last() == '"');
    let np = ssh_path_text(include_path, platform);
    lemma_path_text_no_newline(include_path, platform);
    assert forall|j: int| 0 <= j < escape_quoted(np).len() implies escape_quoted(np)[j] != '\n' by {
        lemma_escape_no_newline(np);
    }
    assert forall|j: int| 0 <= j < inc.len() implies inc[j] != '\n' by {
        if j >= 8 {
            assert(inc[j] == q[j - 8]);
            if j - 8 >= 1 && j - 8 < q.len() - 1 {
                assert(q[j - 8] == escape_quoted(np)[j - 9]);
            }
        }
    }
    assert forall|j: int| 0 <= j < m.len() implies m[j] != '\n' by {}
    lemma_split_no_sep(m, '\n');
    lemma_split_no_sep(inc, '\n');
    lemma_split_no_sep(Seq::<char>::empty(), '\n');
    let tail = m + seq!['\n'] + (inc + seq!['\n'] + Seq::<char>::empty());
    lemma_split_concat(m, inc + seq!['\n'] + Seq::<char>::empty(), '\n');
    lemma_split_concat(inc, Seq::<char>::empty(), '\n');
    let parts_text = split_char(text, '\n');
    assert(split_char(tail, '\n') =~= seq![m, inc, Seq::<char>::empty()]);
    if text.len() == 0 {
        assert(text =~= Seq::<char>::empty());
        assert(full =~= Seq::<char>::empty() + seq!['\n'] + tail);
        lemma_split_concat(Seq::<char>::empty(), tail, '\n');
        assert(split_char(full, '\n') =~= parts_text + seq![m, inc, Seq::<char>::empty()]);
    } else {
        let t0 = text.drop_last();
        assert(text =~= t0 + seq!['\n'] + Seq::<char>::empty());
        lemma_split_concat(t0, Seq::<char>::empty(), '\n');
        assert(full =~= t0 + seq!['\n'] + (Seq::<char>::empty() + seq!['\n'] + tail));
        lemma_split_concat(t0, Seq::<char>::empty() + seq!['\n'] + tail, '\n');
        lemma_split_concat(Seq::<char>::empty(), tail, '\n');
        assert(split_char(full, '\n') =~= parts_text + seq![m, inc, Seq::<char>::empty()]);
    }
    let parts = split_char(full, '\n');
    assert(parts =~= parts_text + seq![m, inc, Seq::<char>::empty()]);
    // No piece of the input text has a `\r` to strip.
    lemma_split_pieces_lack(text, '\n', '\r');
    assert forall|k: int| 0 <= k < parts_text.len() implies strip_cr(#[trigger] parts_text[k]) == parts_text[k] by {
        if parts_text[k].len() > 0 {
            assert(parts_text[k].last() == parts_text[k][parts_text[k].len() - 1]);
        }
    }
    let lines = text_lines(full);
    assert(m.last() == 's');
    assert(lines =~= parts_text + seq![m, inc]);
    assert forall|k: int| 0 <= k < parts_text.len() implies !is_include_line(#[trigger] parts_text[k], include_path, home, platform) by {}
    lemma_removal_scan_keeps(parts_text, include_path, home, platform);
    lemma_trim_fixed(m);
    lemma_trim_fixed(inc);
    let with_m = parts_text.push(m);
    assert(lines.drop_last() =~= with_m);
    assert(with_m.drop_last() =~= parts_text);
    assert(lines.last() == inc);
    assert(with_m.last() == m);
    lemma_marker_not_include(m, include_path, home, platform);
    assert(removal_scan(with_m, include_path, home, platform) == (with_m, false, true));
    assert(pop_marker(with_m) == parts_text);
    lemma_join_split(text);
}

} // verus!
