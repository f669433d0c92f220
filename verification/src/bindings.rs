//! Host bindings: which SSH host patterns each vault key is offered for.
//!
//! Keys are vault item ids (stable across renames). The bindings are a map
//! from item id to a list of host patterns, each pattern valid for an OpenSSH
//! `Host` line, without two patterns that differ only in ASCII case.
use vstd::prelude::*;

use crate::config::{config_dir, join_in, join_result, shared_dir_spec, string_result, ConfigError, StorageEnv};

use crate::text::{
    ascii_lower, chars_eq_ignore_ascii_case, chars_equal, chars_of, eq_ignore_ascii_case, is_ctrl,
    is_control, is_whitespace, is_ws, string_of, trim, trim_chars,
};

verus! {

/// The host patterns bound to one key, and when they last changed (Unix seconds).
#[derive(Debug, Clone, Default)]
pub struct KeyBinding {
    pub hosts: Vec<String>,
    pub updated_at: i64,
}

/// The mathematical value of a binding: its patterns and its timestamp.
pub type BindingView = (Seq<Seq<char>>, i64);

pub open spec fn strings_view(v: Seq<String>) -> Seq<Seq<char>> {
    v.map_values(|s: String| s@)
}

impl KeyBinding {
    pub open spec fn view(&self) -> BindingView {
        (strings_view(self.hosts@), self.updated_at)
    }
}

/// The entries of a binding map, as values.
pub open spec fn entries_view(e: Seq<(String, KeyBinding)>) -> Seq<(Seq<char>, BindingView)> {
    e.map_values(|p: (String, KeyBinding)| (p.0@, p.1.view()))
}

pub open spec fn entry_keys(e: Seq<(Seq<char>, BindingView)>) -> Seq<Seq<char>> {
    e.map_values(|p: (Seq<char>, BindingView)| p.0)
}

pub open spec fn has_key_at(e: Seq<(Seq<char>, BindingView)>, k: Seq<char>) -> bool {
    exists|i: int| 0 <= i < e.len() && #[trigger] e[i].0 == k
}

/// An association list read as a map.
pub open spec fn assoc_map(e: Seq<(Seq<char>, BindingView)>) -> Map<Seq<char>, BindingView> {
    Map::new(
        |k: Seq<char>| has_key_at(e, k),
        |k: Seq<char>| e[choose|i: int| 0 <= i < e.len() && #[trigger] e[i].0 == k].1,
    )
}

pub open spec fn distinct_keys(e: Seq<(Seq<char>, BindingView)>) -> bool {
    forall|i: int, j: int| 0 <= i < j < e.len() ==> #[trigger] e[i].0 != #[trigger] e[j].0
}

/// `a` sorts before `b`: compared character by character by code point, a proper prefix
/// first (the order of `String`'s `Ord`, which compares the UTF-8 bytes).
pub open spec fn str_lt(a: Seq<char>, b: Seq<char>) -> bool
    decreases a.len(),
{
    if a.len() == 0 {
        b.len() > 0
    } else if b.len() == 0 {
        false
    } else if a[0] != b[0] {
        a[0] < b[0]
    } else {
        str_lt(a.drop_first(), b.drop_first())
    }
}

proof fn lemma_str_lt_total(a: Seq<char>, b: Seq<char>)
    requires
        a != b,
    ensures
        str_lt(a, b) || str_lt(b, a),
    decreases a.len(),
{
    if a.len() > 0 && b.len() > 0 && a[0] == b[0] {
        if a.drop_first() == b.drop_first() {
            assert(a =~= seq![a[0]] + a.drop_first());
            assert(b =~= seq![b[0]] + b.drop_first());
        }
        lemma_str_lt_total(a.drop_first(), b.drop_first());
    } else if a.len() == 0 && b.len() == 0 {
        assert(a =~= b);
    }
}

proof fn lemma_str_lt_trans(a: Seq<char>, b: Seq<char>, c: Seq<char>)
    requires
        str_lt(a, b),
        str_lt(b, c),
    ensures
        str_lt(a, c),
    decreases a.len(),
{
    if a.len() > 0 && b.len() > 0 && c.len() > 0 && a[0] == b[0] && b[0] == c[0] {
        lemma_str_lt_trans(a.drop_first(), b.drop_first(), c.drop_first());
    }
}

proof fn lemma_str_lt_irrefl(a: Seq<char>)
    ensures
        !str_lt(a, a),
    decreases a.len(),
{
    if a.len() > 0 {
        lemma_str_lt_irrefl(a.drop_first());
    }
}

/// Whether `a` sorts before `b` (see [`str_lt`]).
pub fn chars_lt(a: &[char], b: &[char]) -> (r: bool)
    ensures
        r == str_lt(a@, b@),
    decreases a.len(),
{
    if a.len() == 0 {
        return b.len() > 0;
    }
    if b.len() == 0 {
        return false;
    }
    if a[0] != b[0] {
        return a[0] < b[0];
    }
    let a2 = vstd::slice::slice_subrange(a, 1, a.len());
    let b2 = vstd::slice::slice_subrange(b, 1, b.len());
    assert(a2@ =~= a@.drop_first());
    assert(b2@ =~= b@.drop_first());
    chars_lt(a2, b2)
}

/// Strictly increasing in [`str_lt`].
pub open spec fn strictly_sorted(s: Seq<Seq<char>>) -> bool {
    forall|i: int, j: int| 0 <= i < j < s.len() ==> str_lt(#[trigger] s[i], #[trigger] s[j])
}

proof fn lemma_next_key_is_new(ks: Seq<Seq<char>>, i: int, e: Seq<(Seq<char>, BindingView)>)
    requires
        ks == entry_keys(e),
        distinct_keys(e),
        0 <= i < e.len(),
    ensures
        !ks.take(i).to_set().contains(ks[i]),
{
    if ks.take(i).to_set().contains(ks[i]) {
        let j = choose|j: int| 0 <= j < ks.take(i).len() && #[trigger] ks.take(i)[j] == ks[i];
        assert(e[j].0 == e[i].0);
    }
}

proof fn lemma_take_push_set(ks: Seq<Seq<char>>, i: int)
    requires
        0 <= i < ks.len(),
    ensures
        ks.take(i + 1).to_set() == ks.take(i).to_set().insert(ks[i]),
{
    assert(ks.take(i + 1) =~= ks.take(i).push(ks[i]));
    assert forall|x: Seq<char>| ks.take(i + 1).to_set().contains(x) <==> ks.take(i).to_set().insert(ks[i]).contains(x) by {
        if ks.take(i + 1).to_set().contains(x) {
            let j = choose|j: int| 0 <= j < ks.take(i + 1).len() && #[trigger] ks.take(i + 1)[j] == x;
            if j < i {
                assert(ks.take(i)[j] == x);
            }
        }
        if ks.take(i).to_set().contains(x) {
            let j = choose|j: int| 0 <= j < ks.take(i).len() && #[trigger] ks.take(i)[j] == x;
            assert(ks.take(i + 1)[j] == x);
        }
        if x == ks[i] {
            assert(ks.take(i + 1)[i] == x);
        }
    }
    assert(ks.take(i + 1).to_set() =~= ks.take(i).to_set().insert(ks[i]));
}

proof fn lemma_insert_sorted(s: Seq<Seq<char>>, p: int, k: Seq<char>)
    requires
        0 <= p <= s.len(),
        strictly_sorted(s),
        forall|m: int| 0 <= m < p ==> str_lt(#[trigger] s[m], k),
        p < s.len() ==> str_lt(k, s[p]),
    ensures
        strictly_sorted(s.insert(p, k)),
        s.insert(p, k).to_set() == s.to_set().insert(k),
{
    let ns = s.insert(p, k);
    assert forall|m: int| p <= m < s.len() implies str_lt(k, #[trigger] s[m]) by {
        if m > p {
            lemma_str_lt_trans(k, s[p], s[m]);
        }
    }
    assert forall|a: int, b: int| 0 <= a < b < ns.len() implies str_lt(#[trigger] ns[a], #[trigger] ns[b]) by {
        if b < p {
            assert(ns[a] == s[a] && ns[b] == s[b]);
        } else if b == p {
            assert(ns[a] == s[a]);
        } else if a < p {
            assert(ns[a] == s[a] && ns[b] == s[b - 1]);
            lemma_str_lt_trans(s[a], k, s[b - 1]);
        } else if a == p {
            assert(ns[b] == s[b - 1]);
        } else {
            assert(ns[a] == s[a - 1] && ns[b] == s[b - 1]);
        }
    }
    assert forall|x: Seq<char>| ns.to_set().contains(x) <==> s.to_set().insert(k).contains(x) by {
        if ns.to_set().contains(x) {
            let j = choose|j: int| 0 <= j < ns.len() && #[trigger] ns[j] == x;
            if j < p {
                assert(s[j] == x);
            } else if j > p {
                assert(s[j - 1] == x);
            }
        }
        if s.to_set().contains(x) {
            let j = choose|j: int| 0 <= j < s.len() && #[trigger] s[j] == x;
            if j < p {
                assert(ns[j] == x);
            } else {
                assert(ns[j + 1] == x);
            }
        }
        if x == k {
            assert(ns[p] == x);
        }
    }
    assert(ns.to_set() =~= s.to_set().insert(k));
}

/// Bindings keyed by vault item id, with no id twice.
#[derive(Debug, Clone)]
pub struct BindingMap {
    entries: Vec<(String, KeyBinding)>,
}

proof fn lemma_assoc_at(e: Seq<(Seq<char>, BindingView)>, i: int)
    requires
        distinct_keys(e),
        0 <= i < e.len(),
    ensures
        assoc_map(e).contains_key(e[i].0),
        assoc_map(e)[e[i].0] == e[i].1,
{
    let k = e[i].0;
    assert(has_key_at(e, k));
    let j = choose|j: int| 0 <= j < e.len() && #[trigger] e[j].0 == k;
    if j != i {
        if j < i {
            assert(e[j].0 != e[i].0);
        } else {
            assert(e[i].0 != e[j].0);
        }
    }
}

proof fn lemma_assoc_push(e: Seq<(Seq<char>, BindingView)>, k: Seq<char>, v: BindingView)
    requires
        distinct_keys(e),
        !has_key_at(e, k),
    ensures
        distinct_keys(e.push((k, v))),
        assoc_map(e.push((k, v))) =~= assoc_map(e).insert(k, v),
{
    let f = e.push((k, v));
    assert forall|i: int, j: int| 0 <= i < j < f.len() implies #[trigger] f[i].0 != #[trigger] f[j].0 by {
        if j == e.len() {
            if f[i].0 == k {
                assert(e[i].0 == k);
            }
        } else {
            assert(f[i] == e[i] && f[j] == e[j]);
        }
    }
    assert forall|x: Seq<char>| #[trigger] assoc_map(f).contains_key(x) <==> assoc_map(
        e,
    ).insert(k, v).contains_key(x) by {
        if has_key_at(f, x) {
            let i = choose|i: int| 0 <= i < f.len() && #[trigger] f[i].0 == x;
            if i < e.len() {
                assert(e[i].0 == x);
            }
        }
        if has_key_at(e, x) {
            let i = choose|i: int| 0 <= i < e.len() && #[trigger] e[i].0 == x;
            assert(f[i].0 == x);
        }
        if x == k {
            assert(f[e.len() as int].0 == x);
        }
    }
    assert forall|x: Seq<char>| #[trigger] assoc_map(f).contains_key(x) implies assoc_map(f)[x]
        == assoc_map(e).insert(k, v)[x] by {
        let i = choose|i: int| 0 <= i < f.len() && #[trigger] f[i].0 == x;
        lemma_assoc_at(f, i);
        if i < e.len() {
            assert(f[i] == e[i]);
            lemma_assoc_at(e, i);
        }
    }
}

proof fn lemma_assoc_update(e: Seq<(Seq<char>, BindingView)>, i: int, v: BindingView)
    requires
        distinct_keys(e),
        0 <= i < e.len(),
    ensures
        distinct_keys(e.update(i, (e[i].0, v))),
        assoc_map(e.update(i, (e[i].0, v))) =~= assoc_map(e).insert(e[i].0, v),
{
    let k = e[i].0;
    let f = e.update(i, (k, v));
    assert forall|a: int, b: int| 0 <= a < b < f.len() implies #[trigger] f[a].0 != #[trigger] f[b].0 by {
        assert(f[a].0 == e[a].0 && f[b].0 == e[b].0);
    }
    assert forall|x: Seq<char>| #[trigger] assoc_map(f).contains_key(x) <==> assoc_map(
        e,
    ).insert(k, v).contains_key(x) by {
        if has_key_at(f, x) {
            let j = choose|j: int| 0 <= j < f.len() && #[trigger] f[j].0 == x;
            assert(e[j].0 == x);
        }
        if has_key_at(e, x) {
            let j = choose|j: int| 0 <= j < e.len() && #[trigger] e[j].0 == x;
            assert(f[j].0 == x);
        }
        if x == k {
            assert(f[i].0 == x);
        }
    }
    assert forall|x: Seq<char>| #[trigger] assoc_map(f).contains_key(x) implies assoc_map(f)[x]
        == assoc_map(e).insert(k, v)[x] by {
        let j = choose|j: int| 0 <= j < f.len() && #[trigger] f[j].0 == x;
        lemma_assoc_at(f, j);
        if j != i {
            lemma_assoc_at(e, j);
        }
    }
}

proof fn lemma_assoc_remove(e: Seq<(Seq<char>, BindingView)>, i: int)
    requires
        distinct_keys(e),
        0 <= i < e.len(),
    ensures
        distinct_keys(e.remove(i)),
        assoc_map(e.remove(i)) =~= assoc_map(e).remove(e[i].0),
{
    let k = e[i].0;
    let f = e.remove(i);
    assert forall|a: int, b: int| 0 <= a < b < f.len() implies #[trigger] f[a].0 != #[trigger] f[b].0 by {
        let a2 = if a < i {
            a
        } else {
            a + 1
        };
        let b2 = if b < i {
            b
        } else {
            b + 1
        };
        assert(f[a] == e[a2] && f[b] == e[b2]);
    }
    assert forall|x: Seq<char>| #[trigger] assoc_map(f).contains_key(x) <==> assoc_map(
        e,
    ).remove(k).contains_key(x) by {
        if has_key_at(f, x) {
            let j = choose|j: int| 0 <= j < f.len() && #[trigger] f[j].0 == x;
            let j2 = if j < i {
                j
            } else {
                j + 1
            };
            assert(f[j] == e[j2]);
            if x == k {
                if j2 < i {
                    assert(e[j2].0 != e[i].0);
                } else {
                    assert(e[i].0 != e[j2].0);
                }
            }
        }
        if has_key_at(e, x) && x != k {
            let j = choose|j: int| 0 <= j < e.len() && #[trigger] e[j].0 == x;
            if j < i {
                assert(f[j] == e[j]);
            } else {
                assert(j != i);
                assert(f[j - 1] == e[j]);
            }
        }
    }
    assert forall|x: Seq<char>| #[trigger] assoc_map(f).contains_key(x) implies assoc_map(f)[x]
        == assoc_map(e).remove(k)[x] by {
        let j = choose|j: int| 0 <= j < f.len() && #[trigger] f[j].0 == x;
        lemma_assoc_at(f, j);
        let j2 = if j < i {
            j
        } else {
            j + 1
        };
        assert(f[j] == e[j2]);
        lemma_assoc_at(e, j2);
    }
}

proof fn lemma_assoc_len(e: Seq<(Seq<char>, BindingView)>)
    requires
        distinct_keys(e),
    ensures
        assoc_map(e).dom().finite(),
        assoc_map(e).dom().len() == e.len(),
{
    let ks = entry_keys(e);
    assert(ks.no_duplicates()) by {
        assert forall|i: int, j: int| 0 <= i < ks.len() && 0 <= j < ks.len() && i != j implies ks[i]
            != ks[j] by {
            if i < j {
                assert(e[i].0 != e[j].0);
            } else {
                assert(e[j].0 != e[i].0);
            }
        }
    }
    ks.unique_seq_to_set();
    assert forall|x: Seq<char>| #[trigger] assoc_map(e).dom().contains(x) <==> ks.to_set().contains(
        x,
    ) by {
        if has_key_at(e, x) {
            let i = choose|i: int| 0 <= i < e.len() && #[trigger] e[i].0 == x;
            assert(ks[i] == x);
        }
        if ks.contains(x) {
            let i = choose|i: int| 0 <= i < ks.len() && ks[i] == x;
            assert(e[i].0 == x);
        }
    }
    assert(assoc_map(e).dom() =~= ks.to_set());
}

impl BindingMap {
    /// No vault item id occurs twice.
    pub closed spec fn wf(&self) -> bool {
        distinct_keys(entries_view(self.entries@))
    }

    /// The bindings as a map from vault item id.
    pub closed spec fn view(&self) -> Map<Seq<char>, BindingView> {
        assoc_map(entries_view(self.entries@))
    }

    /// An empty map.
    pub fn new() -> (m: BindingMap)
        ensures
            m.wf(),
            m@ == Map::<Seq<char>, BindingView>::empty(),
    {
        let m = BindingMap { entries: Vec::new() };
        assert(m@ =~= Map::<Seq<char>, BindingView>::empty());
        m
    }

    /// The position of `key`, if bound.
    fn index_of(&self, key: &[char]) -> (r: Option<usize>)
        requires
            self.wf(),
        ensures
            match r {
                Some(i) => i < self.entries@.len() && self.entries@[i as int].0@ == key@,
                None => !self@.contains_key(key@),
            },
    {
        let mut i: usize = 0;
        while i < self.entries.len()
            invariant
                i <= self.entries@.len(),
                forall|j: int| 0 <= j < i ==> #[trigger] self.entries@[j].0@ != key@,
            decreases self.entries.len() - i,
        {
            let k = chars_of(self.entries[i].0.as_str());
            if chars_equal(k.as_slice(), key) {
                return Some(i);
            }
            i += 1;
        }
        proof {
            let e = entries_view(self.entries@);
            assert forall|j: int| 0 <= j < e.len() implies e[j].0 != key@ by {
                assert(e[j].0 == self.entries@[j].0@);
            }
        }
        None
    }

    /// The number of bound ids.
    pub fn len(&self) -> (n: usize)
        requires
            self.wf(),
        ensures
            self@.dom().finite(),
            n == self@.dom().len(),
    {
        proof {
            lemma_assoc_len(entries_view(self.entries@));
        }
        self.entries.len()
    }

    /// Whether no id is bound.
    pub fn is_empty(&self) -> (b: bool)
        requires
            self.wf(),
        ensures
            b == (self@ == Map::<Seq<char>, BindingView>::empty()),
    {
        proof {
            lemma_assoc_len(entries_view(self.entries@));
            if self.entries@.len() > 0 {
                lemma_assoc_at(entries_view(self.entries@), 0);
            } else {
                assert(self@ =~= Map::<Seq<char>, BindingView>::empty());
            }
        }
        self.entries.len() == 0
    }

    /// Whether `key` is bound.
    pub fn contains_key(&self, key: &str) -> (b: bool)
        requires
            self.wf(),
        ensures
            b == self@.contains_key(key@),
    {
        let k = chars_of(key);
        match self.index_of(k.as_slice()) {
            Some(i) => {
                proof {
                    lemma_assoc_at(entries_view(self.entries@), i as int);
                }
                true
            },
            None => false,
        }
    }

    /// The binding of `key`.
    pub fn get(&self, key: &str) -> (r: Option<&KeyBinding>)
        requires
            self.wf(),
        ensures
            match r {
                Some(b) => self@.contains_key(key@) && self@[key@] == b.view(),
                None => !self@.contains_key(key@),
            },
    {
        let k = chars_of(key);
        match self.index_of(k.as_slice()) {
            Some(i) => {
                proof {
                    lemma_assoc_at(entries_view(self.entries@), i as int);
                }
                Some(&self.entries[i].1)
            },
            None => None,
        }
    }

    /// The entries in storage order.
    pub fn entries(&self) -> (e: &[(String, KeyBinding)])
        requires
            self.wf(),
        ensures
            distinct_keys(entries_view(e@)),
            assoc_map(entries_view(e@)) == self@,
    {
        self.entries.as_slice()
    }

    /// The bound ids in sorted order (the order a `BTreeMap` keyed by id walks them).
    pub fn sorted_ids(&self) -> (r: Vec<String>)
        requires
            self.wf(),
        ensures
            r@.len() == self@.dom().len(),
            crate::text::views(r@).to_set() == self@.dom(),
            strictly_sorted(crate::text::views(r@)),
    {
        let ghost e = entries_view(self.entries@);
        let ghost ks = entry_keys(e);
        proof {
            lemma_assoc_len(e);
        }
        let mut out: Vec<String> = Vec::new();
        let mut i: usize = 0;
        proof {
            assert(crate::text::views(out@).to_set() =~= ks.take(0).to_set());
        }
        while i < self.entries.len()
            invariant
                e == entries_view(self.entries@),
                ks == entry_keys(e),
                distinct_keys(e),
                i <= e.len(),
                out@.len() == i,
                strictly_sorted(crate::text::views(out@)),
                crate::text::views(out@).to_set() == ks.take(i as int).to_set(),
            decreases self.entries.len() - i,
        {
            let k = chars_of(self.entries[i].0.as_str());
            assert(k@ == ks[i as int]);
            let ghost s = crate::text::views(out@);
            proof {
                lemma_next_key_is_new(ks, i as int, e);
                assert(!s.to_set().contains(k@));
                assert forall|m: int| 0 <= m < s.len() implies s[m] != k@ by {
                    assert(s.to_set().contains(s[m]));
                }
            }
            let mut p: usize = 0;
            while p < out.len() && !chars_lt(k.as_slice(), chars_of(out[p].as_str()).as_slice())
                invariant
                    p <= out@.len(),
                    s == crate::text::views(out@),
                    forall|m: int| 0 <= m < s.len() ==> s[m] != k@,
                    forall|m: int| 0 <= m < p ==> str_lt(#[trigger] s[m], k@),
                decreases out.len() - p,
            {
                assert(s[p as int] == out@[p as int]@);
                proof {
                    lemma_str_lt_total(s[p as int], k@);
                }
                p += 1;
            }
            proof {
                if p < out@.len() {
                    assert(s[p as int] == out@[p as int]@);
                }
                lemma_insert_sorted(s, p as int, k@);
            }
            out.insert(p, string_of(k.as_slice()));
            proof {
                assert(crate::text::views(out@) =~= s.insert(p as int, k@));
                lemma_take_push_set(ks, i as int);
            }
            i += 1;
        }
        proof {
            assert(ks.take(e.len() as int) =~= ks);
            assert(ks.to_set() =~= self@.dom()) by {
                assert forall|k: Seq<char>| ks.to_set().contains(k) implies self@.dom().contains(k) by {
                    let j = choose|j: int| 0 <= j < ks.len() && #[trigger] ks[j] == k;
                    assert(e[j].0 == k);
                }
                assert forall|k: Seq<char>| self@.dom().contains(k) implies ks.to_set().contains(k) by {
                    let j = choose|j: int| 0 <= j < e.len() && #[trigger] e[j].0 == k;
                    assert(ks[j] == k);
                }
            }
        }
        out
    }

    /// Bind `key` to `value`, replacing an earlier binding.
    pub fn insert(&mut self, key: String, value: KeyBinding)
        requires
            old(self).wf(),
        ensures
            final(self).wf(),
            final(self)@ == old(self)@.insert(key@, value.view()),
    {
        let k = chars_of(key.as_str());
        let ghost e = entries_view(self.entries@);
        match self.index_of(k.as_slice()) {
            Some(i) => {
                let ghost v = value.view();
                self.entries.set(i, (key, value));
                proof {
                    assert(entries_view(self.entries@) =~= e.update(i as int, (e[i as int].0, v)));
                    lemma_assoc_update(e, i as int, v);
                }
            },
            None => {
                let ghost kv = key@;
                let ghost v = value.view();
                self.entries.push((key, value));
                proof {
                    assert(entries_view(self.entries@) =~= e.push((kv, v)));
                    assert(!has_key_at(e, kv));
                    lemma_assoc_push(e, kv, v);
                }
            },
        }
    }

    /// Remove the binding of `key`, returning it.
    pub fn remove(&mut self, key: &str) -> (r: Option<KeyBinding>)
        requires
            old(self).wf(),
        ensures
            final(self).wf(),
            final(self)@ == old(self)@.remove(key@),
            match r {
                Some(b) => old(self)@.contains_key(key@) && old(self)@[key@] == b.view(),
                None => !old(self)@.contains_key(key@),
            },
    {
        let k = chars_of(key);
        let ghost e = entries_view(self.entries@);
        match self.index_of(k.as_slice()) {
            Some(i) => {
                proof {
                    lemma_assoc_at(e, i as int);
                    lemma_assoc_remove(e, i as int);
                }
                let (_, b) = self.entries.remove(i);
                proof {
                    assert(entries_view(self.entries@) =~= e.remove(i as int));
                }
                Some(b)
            },
            None => {
                assert(old(self)@.remove(key@) =~= old(self)@);
                None
            },
        }
    }
}

/// Why a host pattern is refused.
#[derive(Debug, Clone, Copy, PartialEq, Eq, Structural)]
pub enum HostPatternError {
    /// Empty or only whitespace.
    Empty,
    /// Contains whitespace, which would split the `Host` directive.
    Whitespace,
    /// Contains a control character.
    ControlChar,
    /// Contains `"`, `'`, `\` or `#`.
    UnsafeChar,
}

impl HostPatternError {
    /// The error's text, as the command line reports it.
    pub fn message(&self) -> (s: &'static str)
        ensures
            s@ == match *self {
                HostPatternError::Empty => "Host pattern is empty"@,
                HostPatternError::Whitespace => "Host pattern must not contain whitespace"@,
                HostPatternError::ControlChar => "Host pattern must not contain control characters"@,
                HostPatternError::UnsafeChar => "Host pattern contains a character that is unsafe in ssh_config"@,
            },
    {
        match self {
            HostPatternError::Empty => "Host pattern is empty",
            HostPatternError::Whitespace => "Host pattern must not contain whitespace",
            HostPatternError::ControlChar => "Host pattern must not contain control characters",
            HostPatternError::UnsafeChar => "Host pattern contains a character that is unsafe in ssh_config",
        }
    }
}

/// The characters that would break a quoted or commented `ssh_config` line.
pub open spec fn is_unsafe_host_char(c: char) -> bool {
    c == '"' || c == '\'' || c == '\\' || c == '#'
}

/// Why a pattern is refused, if it is: the trimmed pattern must be non-empty and free
/// of whitespace, control characters and `"` `'` `\` `#` (checked in that order).
pub open spec fn host_pattern_error(p: Seq<char>) -> Option<HostPatternError> {
    let t = trim(p);
    if t.len() == 0 {
        Some(HostPatternError::Empty)
    } else if exists|i: int| 0 <= i < t.len() && is_ws(#[trigger] t[i]) {
        Some(HostPatternError::Whitespace)
    } else if exists|i: int| 0 <= i < t.len() && is_ctrl(#[trigger] t[i]) {
        Some(HostPatternError::ControlChar)
    } else if exists|i: int| 0 <= i < t.len() && is_unsafe_host_char(#[trigger] t[i]) {
        Some(HostPatternError::UnsafeChar)
    } else {
        None
    }
}

pub open spec fn unit_result(r: Result<(), HostPatternError>) -> Option<HostPatternError> {
    match r {
        Ok(_) => None,
        Err(e) => Some(e),
    }
}

/// The short message the host-binding dialog shows for a refused pattern.
pub open spec fn quick_message(e: HostPatternError) -> Seq<char> {
    match e {
        HostPatternError::Empty => "Host pattern is empty"@,
        HostPatternError::Whitespace => "Host pattern must not contain whitespace"@,
        HostPatternError::ControlChar => "Host pattern must not contain control characters"@,
        HostPatternError::UnsafeChar => "Host pattern contains a character unsafe in ssh_config"@,
    }
}

/// The dialog's check of a pattern as it is typed: the same rules as
/// [`validate_host_pattern`], with the dialog's short messages.
pub fn quick_validate_host_pattern(pattern: &str) -> (r: Result<(), &'static str>)
    ensures
        match host_pattern_error(pattern@) {
            None => r is Ok,
            Some(e) => r matches Err(m) && m@ == quick_message(e),
        },
{
    match validate_host_pattern(pattern) {
        Ok(()) => Ok(()),
        Err(HostPatternError::Empty) => Err("Host pattern is empty"),
        Err(HostPatternError::Whitespace) => Err("Host pattern must not contain whitespace"),
        Err(HostPatternError::ControlChar) => Err("Host pattern must not contain control characters"),
        Err(HostPatternError::UnsafeChar) => Err("Host pattern contains a character unsafe in ssh_config"),
    }
}

/// Check a host pattern for an OpenSSH `Host` directive: hostnames, IP literals and
/// globs (`*`, `?`, a leading `!`) are accepted.
pub fn validate_host_pattern(pattern: &str) -> (r: Result<(), HostPatternError>)
    ensures
        unit_result(r) == host_pattern_error(pattern@),
{
    let t = trim_chars(chars_of(pattern).as_slice());
    if t.len() == 0 {
        return Err(HostPatternError::Empty);
    }
    let mut i: usize = 0;
    while i < t.len()
        invariant
            t@ == trim(pattern@),
            i <= t.len(),
            forall|j: int| 0 <= j < i ==> !is_ws(#[trigger] t@[j]),
        decreases t.len() - i,
    {
        if is_whitespace(t[i]) {
            assert(is_ws(t@[i as int]));
            return Err(HostPatternError::Whitespace);
        }
        i += 1;
    }
    i = 0;
    while i < t.len()
        invariant
            t@ == trim(pattern@),
            t@.len() > 0,
            i <= t.len(),
            forall|j: int| 0 <= j < t.len() ==> !is_ws(#[trigger] t@[j]),
            forall|j: int| 0 <= j < i ==> !is_ctrl(#[trigger] t@[j]),
        decreases t.len() - i,
    {
        if is_control(t[i]) {
            assert(is_ctrl(t@[i as int]));
            return Err(HostPatternError::ControlChar);
        }
        i += 1;
    }
    i = 0;
    while i < t.len()
        invariant
            t@ == trim(pattern@),
            t@.len() > 0,
            i <= t.len(),
            forall|j: int| 0 <= j < t.len() ==> !is_ws(#[trigger] t@[j]),
            forall|j: int| 0 <= j < t.len() ==> !is_ctrl(#[trigger] t@[j]),
            forall|j: int| 0 <= j < i ==> !is_unsafe_host_char(#[trigger] t@[j]),
        decreases t.len() - i,
    {
        let c = t[i];
        if c == '"' || c == '\'' || c == '\\' || c == '#' {
            assert(is_unsafe_host_char(t@[i as int]));
            return Err(HostPatternError::UnsafeChar);
        }
        i += 1;
    }
    Ok(())
}

/// Whether some pattern of `hs` equals `h` up to ASCII case.
pub open spec fn has_host_ci(hs: Seq<Seq<char>>, h: Seq<char>) -> bool {
    exists|i: int| 0 <= i < hs.len() && eq_ignore_ascii_case(#[trigger] hs[i], h)
}

/// The trimmed patterns, keeping the first of those that are equal up to ASCII case.
pub open spec fn dedup_hosts(hs: Seq<Seq<char>>) -> Seq<Seq<char>>
    decreases hs.len(),
{
    if hs.len() == 0 {
        Seq::empty()
    } else {
        let d = dedup_hosts(hs.drop_last());
        let t = trim(hs.last());
        if has_host_ci(d, t) {
            d
        } else {
            d.push(t)
        }
    }
}

/// The patterns of `hs` other than those equal to `h` up to ASCII case.
pub open spec fn without_host(hs: Seq<Seq<char>>, h: Seq<char>) -> Seq<Seq<char>>
    decreases hs.len(),
{
    if hs.len() == 0 {
        Seq::empty()
    } else {
        let r = without_host(hs.drop_last(), h);
        if eq_ignore_ascii_case(hs.last(), h) {
            r
        } else {
            r.push(hs.last())
        }
    }
}

/// The error of the first refused pattern of `hs`.
pub open spec fn first_pattern_error(hs: Seq<Seq<char>>) -> Option<HostPatternError>
    decreases hs.len(),
{
    if hs.len() == 0 {
        None
    } else {
        match host_pattern_error(hs[0]) {
            Some(e) => Some(e),
            None => first_pattern_error(hs.drop_first()),
        }
    }
}

/// The file of host bindings.
#[derive(Debug, Clone)]
pub struct HostBindingsFile {
    pub version: u32,
    pub bindings: BindingMap,
}

/// Whether `s` contains the id `k`.
pub open spec fn contains_id(s: Seq<Seq<char>>, k: Seq<char>) -> bool {
    exists|i: int| 0 <= i < s.len() && s[i] == k
}

/// The bindings after `set_hosts` with valid patterns at time `now`: an empty list unbinds.
pub open spec fn set_hosts_map(
    m: Map<Seq<char>, BindingView>,
    id: Seq<char>,
    hosts: Seq<Seq<char>>,
    now: i64,
) -> Map<Seq<char>, BindingView> {
    if dedup_hosts(hosts).len() == 0 {
        m.remove(id)
    } else {
        m.insert(id, (dedup_hosts(hosts), now))
    }
}

/// The bindings after `add_host` with a valid pattern at time `now`: nothing changes when
/// the key already has the pattern (up to ASCII case); else the trimmed pattern is
/// appended to the key's patterns (a new binding when it had none), stamped `now`.
pub open spec fn add_host_map(
    m: Map<Seq<char>, BindingView>,
    id: Seq<char>,
    host: Seq<char>,
    now: i64,
) -> Map<Seq<char>, BindingView> {
    let t = trim(host);
    if m.contains_key(id) && has_host_ci(m[id].0, t) {
        m
    } else {
        let hs = if m.contains_key(id) {
            m[id].0
        } else {
            Seq::empty()
        };
        m.insert(id, (hs.push(t), now))
    }
}

/// The bindings after `remove_host` at time `now`: the binding goes when no pattern is left.
pub open spec fn remove_host_map(
    m: Map<Seq<char>, BindingView>,
    id: Seq<char>,
    host: Seq<char>,
    now: i64,
) -> Map<Seq<char>, BindingView> {
    if !m.contains_key(id) {
        m
    } else {
        let left = without_host(m[id].0, host);
        if left.len() == 0 {
            m.remove(id)
        } else if left.len() != m[id].0.len() {
            m.insert(id, (left, now))
        } else {
            m
        }
    }
}

/// Whether `remove_host` removes a pattern.
pub open spec fn remove_host_removes(m: Map<Seq<char>, BindingView>, id: Seq<char>, host: Seq<char>) -> bool {
    m.contains_key(id) && without_host(m[id].0, host).len() != m[id].0.len()
}

/// The current time in Unix seconds, 0 when the clock is before the epoch.
#[verifier::external_body]
fn now_secs() -> i64 {
    std::time::SystemTime::now().duration_since(std::time::UNIX_EPOCH).map(|d| d.as_secs() as i64).unwrap_or(0)
}

/// Whether some pattern of `hs` equals `h` up to ASCII case.
fn has_host_ci_exec(hs: &Vec<String>, h: &[char]) -> (b: bool)
    ensures
        b == has_host_ci(strings_view(hs@), h@),
{
    let mut i: usize = 0;
    while i < hs.len()
        invariant
            i <= hs@.len(),
            forall|j: int| 0 <= j < i ==> !eq_ignore_ascii_case(#[trigger] strings_view(hs@)[j], h@),
        decreases hs.len() - i,
    {
        let c = chars_of(hs[i].as_str());
        if chars_eq_ignore_ascii_case(c.as_slice(), h) {
            assert(strings_view(hs@)[i as int] == hs@[i as int]@);
            return true;
        }
        i += 1;
    }
    false
}

impl HostBindingsFile {
    /// `bindings.json` in the shared data directory.
    pub fn path(env: &StorageEnv) -> (r: Result<String, ConfigError>)
        ensures
            string_result(r) == join_in(shared_dir_spec(*env), "bindings.json"@),
    {
        join_result(config_dir(env), "bindings.json")
    }
}

impl Default for HostBindingsFile {
    fn default() -> (f: HostBindingsFile)
        ensures
            f.version == 1,
            f.bindings.wf(),
            f.bindings@ == Map::<Seq<char>, BindingView>::empty(),
    {
        HostBindingsFile { version: 1, bindings: BindingMap::new() }
    }
}

impl HostBindingsFile {
    /// Replace the patterns bound to `cipher_uuid` at time `now`. Every pattern is checked
    /// first; on a refused one nothing changes. The patterns are trimmed and deduplicated
    /// up to ASCII case (first one kept); an empty list removes the binding.
    pub fn set_hosts_at(&mut self, cipher_uuid: &str, hosts: Vec<String>, now: i64) -> (r: Result<
        (),
        HostPatternError,
    >)
        requires
            old(self).bindings.wf(),
        ensures
            final(self).bindings.wf(),
            final(self).version == old(self).version,
            unit_result(r) == first_pattern_error(strings_view(hosts@)),
            r is Err ==> final(self).bindings@ == old(self).bindings@,
            r is Ok ==> final(self).bindings@ == set_hosts_map(
                old(self).bindings@,
                cipher_uuid@,
                strings_view(hosts@),
                now,
            ),
    {
        let ghost hv = strings_view(hosts@);
        let mut i: usize = 0;
        assert(hv.skip(0) =~= hv);
        while i < hosts.len()
            invariant
                self.bindings == old(self).bindings,
                self.bindings.wf(),
                self.version == old(self).version,
                i <= hosts@.len(),
                hv == strings_view(hosts@),
                first_pattern_error(hv) == first_pattern_error(hv.skip(i as int)),
            decreases hosts.len() - i,
        {
            let ghost rest = hv.skip(i as int);
            assert(rest[0] == hosts@[i as int]@);
            match validate_host_pattern(hosts[i].as_str()) {
                Err(e) => {
                    return Err(e);
                },
                Ok(()) => {},
            }
            assert(rest.drop_first() =~= hv.skip(i + 1));
            i += 1;
        }
        assert(hv.skip(hosts.len() as int) =~= Seq::<Seq<char>>::empty());
        let mut deduped: Vec<String> = Vec::new();
        let mut j: usize = 0;
        assert(hv.take(0) =~= Seq::<Seq<char>>::empty());
        while j < hosts.len()
            invariant
                j <= hosts@.len(),
                hv == strings_view(hosts@),
                strings_view(deduped@) == dedup_hosts(hv.take(j as int)),
            decreases hosts.len() - j,
        {
            let t = trim_chars(chars_of(hosts[j].as_str()).as_slice());
            assert(hv.take(j + 1).drop_last() =~= hv.take(j as int));
            assert(hv.take(j + 1).last() == hosts@[j as int]@);
            if !has_host_ci_exec(&deduped, t.as_slice()) {
                let ghost before = deduped@;
                deduped.push(string_of(t.as_slice()));
                assert(strings_view(deduped@) =~= strings_view(before).push(t@));
            }
            j += 1;
        }
        assert(hv.take(hosts.len() as int) =~= hv);
        if deduped.len() == 0 {
            assert(dedup_hosts(hv).len() == 0);
            let _ = self.bindings.remove(cipher_uuid);
        } else {
            let b = KeyBinding { hosts: deduped, updated_at: now };
            self.bindings.insert(string_of(chars_of(cipher_uuid).as_slice()), b);
        }
        Ok(())
    }

    /// `set_hosts_at` at the current time.
    pub fn set_hosts(&mut self, cipher_uuid: &str, hosts: Vec<String>) -> (r: Result<
        (),
        HostPatternError,
    >)
        requires
            old(self).bindings.wf(),
        ensures
            final(self).bindings.wf(),
            final(self).version == old(self).version,
            unit_result(r) == first_pattern_error(strings_view(hosts@)),
            r is Err ==> final(self).bindings@ == old(self).bindings@,
            r is Ok ==> exists|now: i64|
                final(self).bindings@ == #[trigger] set_hosts_map(
                    old(self).bindings@,
                    cipher_uuid@,
                    strings_view(hosts@),
                    now,
                ),
    {
        let now = now_secs();
        self.set_hosts_at(cipher_uuid, hosts, now)
    }

    /// Add one pattern to `cipher_uuid` at time `now`, stamping the binding `now`; nothing
    /// changes (the timestamp included) when a pattern equal up to ASCII case is there.
    pub fn add_host_at(&mut self, cipher_uuid: &str, host: &str, now: i64) -> (r: Result<
        (),
        HostPatternError,
    >)
        requires
            old(self).bindings.wf(),
        ensures
            final(self).bindings.wf(),
            final(self).version == old(self).version,
            unit_result(r) == host_pattern_error(host@),
            r is Err ==> final(self).bindings@ == old(self).bindings@,
            r is Ok ==> final(self).bindings@ == add_host_map(
                old(self).bindings@,
                cipher_uuid@,
                host@,
                now,
            ),
    {
        validate_host_pattern(host)?;
        let t = trim_chars(chars_of(host).as_slice());
        let present = match self.bindings.get(cipher_uuid) {
            Some(b) => has_host_ci_exec(&b.hosts, t.as_slice()),
            None => false,
        };
        if present {
            return Ok(());
        }
        let mut entry = match self.bindings.remove(cipher_uuid) {
            Some(b) => b,
            None => {
                let b = KeyBinding { hosts: Vec::new(), updated_at: 0 };
                assert(strings_view(b.hosts@) =~= Seq::<Seq<char>>::empty());
                b
            },
        };
        let ghost before = entry.hosts@;
        entry.hosts.push(string_of(t.as_slice()));
        assert(strings_view(entry.hosts@) =~= strings_view(before).push(t@));
        entry.updated_at = now;
        self.bindings.insert(string_of(chars_of(cipher_uuid).as_slice()), entry);
        assert(final(self).bindings@ =~= add_host_map(old(self).bindings@, cipher_uuid@, host@, now));
        Ok(())
    }

    /// `add_host_at` at the current time.
    pub fn add_host(&mut self, cipher_uuid: &str, host: &str) -> (r: Result<(), HostPatternError>)
        requires
            old(self).bindings.wf(),
        ensures
            final(self).bindings.wf(),
            final(self).version == old(self).version,
            unit_result(r) == host_pattern_error(host@),
            r is Err ==> final(self).bindings@ == old(self).bindings@,
            r is Ok ==> exists|now: i64|
                final(self).bindings@ == #[trigger] add_host_map(
                    old(self).bindings@,
                    cipher_uuid@,
                    host@,
                    now,
                ),
    {
        let now = now_secs();
        self.add_host_at(cipher_uuid, host, now)
    }

    /// Remove the patterns of `cipher_uuid` equal to `host` up to ASCII case, at time `now`.
    /// Returns whether one was removed. A binding left without patterns is removed.
    pub fn remove_host_at(&mut self, cipher_uuid: &str, host: &str, now: i64) -> (removed: bool)
        requires
            old(self).bindings.wf(),
        ensures
            final(self).bindings.wf(),
            final(self).version == old(self).version,
            removed == remove_host_removes(old(self).bindings@, cipher_uuid@, host@),
            final(self).bindings@ == remove_host_map(
                old(self).bindings@,
                cipher_uuid@,
                host@,
                now,
            ),
    {
        let mut entry = match self.bindings.remove(cipher_uuid) {
            None => return false,
            Some(b) => b,
        };
        let h = chars_of(host);
        let ghost old_hosts = strings_view(entry.hosts@);
        let mut kept: Vec<String> = Vec::new();
        let mut i: usize = 0;
        assert(old_hosts.take(0) =~= Seq::<Seq<char>>::empty());
        while i < entry.hosts.len()
            invariant
                i <= entry.hosts@.len(),
                old_hosts == strings_view(entry.hosts@),
                strings_view(kept@) == without_host(old_hosts.take(i as int), h@),
            decreases entry.hosts.len() - i,
        {
            let c = chars_of(entry.hosts[i].as_str());
            assert(old_hosts.take(i + 1).drop_last() =~= old_hosts.take(i as int));
            assert(old_hosts.take(i + 1).last() == entry.hosts@[i as int]@);
            if !chars_eq_ignore_ascii_case(c.as_slice(), h.as_slice()) {
                let ghost before = kept@;
                kept.push(string_of(c.as_slice()));
                assert(strings_view(kept@) =~= strings_view(before).push(c@));
            }
            i += 1;
        }
        assert(old_hosts.take(entry.hosts.len() as int) =~= old_hosts);
        let removed = kept.len() != entry.hosts.len();
        if kept.len() == 0 {
            assert(final(self).bindings@ =~= remove_host_map(old(self).bindings@, cipher_uuid@, host@, now));
        } else if removed {
            let b = KeyBinding { hosts: kept, updated_at: now };
            self.bindings.insert(string_of(chars_of(cipher_uuid).as_slice()), b);
        } else {
            self.bindings.insert(string_of(chars_of(cipher_uuid).as_slice()), entry);
            assert(old(self).bindings@.insert(cipher_uuid@, old(self).bindings@[cipher_uuid@]) =~= old(self).bindings@);
        }
        removed
    }

    /// `remove_host_at` at the current time.
    pub fn remove_host(&mut self, cipher_uuid: &str, host: &str) -> (removed: bool)
        requires
            old(self).bindings.wf(),
        ensures
            final(self).bindings.wf(),
            final(self).version == old(self).version,
            removed == remove_host_removes(old(self).bindings@, cipher_uuid@, host@),
            exists|now: i64|
                final(self).bindings@ == #[trigger] remove_host_map(
                    old(self).bindings@,
                    cipher_uuid@,
                    host@,
                    now,
                ),
    {
        let now = now_secs();
        self.remove_host_at(cipher_uuid, host, now)
    }

    /// Remove every pattern of a key. Returns whether it had a binding.
    pub fn clear_key(&mut self, cipher_uuid: &str) -> (removed: bool)
        requires
            old(self).bindings.wf(),
        ensures
            final(self).bindings.wf(),
            final(self).version == old(self).version,
            removed == old(self).bindings@.contains_key(cipher_uuid@),
            final(self).bindings@ == old(self).bindings@.remove(cipher_uuid@),
    {
        self.bindings.remove(cipher_uuid).is_some()
    }

    /// Drop the bindings of ids not in `known_ids`; returns how many were dropped.
    pub fn prune_orphans(&mut self, known_ids: &[&str]) -> (pruned: usize)
        requires
            old(self).bindings.wf(),
        ensures
            final(self).bindings.wf(),
            final(self).version == old(self).version,
            final(self).bindings@ == old(self).bindings@.restrict(
                old(self).bindings@.dom().filter(
                    |k: Seq<char>| contains_id(known_ids@.map_values(|s: &str| s@), k),
                ),
            ),
            old(self).bindings@.dom().finite(),
            pruned == old(self).bindings@.dom().len() - final(self).bindings@.dom().len(),
    {
        let ghost known = known_ids@.map_values(|s: &str| s@);
        let mut known_chars: Vec<Vec<char>> = Vec::new();
        let mut a: usize = 0;
        while a < known_ids.len()
            invariant
                a <= known_ids@.len(),
                known == known_ids@.map_values(|s: &str| s@),
                known_chars@.len() == a,
                forall|j: int| 0 <= j < a ==> #[trigger] known_chars@[j]@ == known[j],
            decreases known_ids.len() - a,
        {
            known_chars.push(chars_of(known_ids[a]));
            a += 1;
        }
        let ghost e = entries_view(self.bindings.entries@);
        let ghost old_map = self.bindings@;
        proof {
            lemma_assoc_len(e);
        }
        let before = self.bindings.entries.len();
        let mut rem: Vec<(String, KeyBinding)> = Vec::new();
        std::mem::swap(&mut rem, &mut self.bindings.entries);
        let ghost raw = rem@;
        let mut kept: Vec<(String, KeyBinding)> = Vec::new();
        proof {
            assert(raw.take(raw.len() as int) =~= raw);
            assert(assoc_map(entries_view(kept@)) =~= assoc_map(e).restrict(
                Set::new(|k: Seq<char>| contains_id(known, k) && exists|j: int| raw.len() <= j < e.len() && #[trigger] e[j].0 == k),
            ));
        }
        while rem.len() > 0
            invariant
                e == entries_view(raw),
                distinct_keys(e),
                rem@ == raw.take(rem@.len() as int),
                rem@.len() <= raw.len(),
                kept@.len() + rem@.len() <= raw.len(),
                known_chars@.len() == known.len(),
                forall|j: int| 0 <= j < known.len() ==> #[trigger] known_chars@[j]@ == known[j],
                distinct_keys(entries_view(kept@)),
                forall|x: Seq<char>| #[trigger] has_key_at(entries_view(kept@), x) ==> exists|j: int| rem@.len() <= j < e.len() && e[j].0 == x,
                assoc_map(entries_view(kept@)) =~= assoc_map(e).restrict(
                    Set::new(|k: Seq<char>| contains_id(known, k) && exists|j: int| rem@.len() <= j < e.len() && #[trigger] e[j].0 == k),
                ),
            decreases rem@.len(),
        {
            let ghost n = rem@.len() as int;
            let x = rem.pop().unwrap();
            assert(rem@ =~= raw.take(n - 1));
            assert(x == raw[n - 1]);
            let k = chars_of(x.0.as_str());
            let mut found = false;
            let mut b: usize = 0;
            while b < known_chars.len()
                invariant
                    b <= known_chars@.len(),
                    known_chars@.len() == known.len(),
                    forall|j: int| 0 <= j < known.len() ==> #[trigger] known_chars@[j]@ == known[j],
                    found == exists|j: int| 0 <= j < b && known[j] == k@,
                decreases known_chars.len() - b,
            {
                if chars_equal(known_chars[b].as_slice(), k.as_slice()) {
                    found = true;
                }
                b += 1;
            }
            let ghost kv = k@;
            let ghost ke = entries_view(kept@);
            let ghost v = x.1.view();
            assert(e[n - 1] == (kv, v));
            proof {
                lemma_assoc_at(e, n - 1);
            }
            let ghost s_old = Set::new(|k: Seq<char>| contains_id(known, k) && exists|j: int| n <= j < e.len() && #[trigger] e[j].0 == k);
            let ghost s_new = Set::new(|k: Seq<char>| contains_id(known, k) && exists|j: int| n - 1 <= j < e.len() && #[trigger] e[j].0 == k);
            if found {
                proof {
                    assert(contains_id(known, kv));
                    if has_key_at(ke, kv) {
                        let j = choose|j: int| n <= j < e.len() && e[j].0 == kv;
                        assert(e[n - 1].0 != e[j].0);
                    }
                    lemma_assoc_push(ke, kv, v);
                    assert(s_new =~= s_old.insert(kv));
                    assert forall|y: Seq<char>| #[trigger] has_key_at(ke.push((kv, v)), y) implies exists|j: int| n - 1 <= j < e.len() && e[j].0 == y by {
                        let i = choose|i: int| 0 <= i < ke.push((kv, v)).len() && #[trigger] ke.push((kv, v))[i].0 == y;
                        if i < ke.len() {
                            assert(ke[i].0 == y);
                            assert(has_key_at(ke, y));
                        }
                    }
                }
                kept.push(x);
                proof {
                    assert(entries_view(kept@) =~= ke.push((kv, v)));
                    assert(assoc_map(entries_view(kept@)) =~= assoc_map(e).restrict(s_new));
                }
            } else {
                proof {
                    assert(!contains_id(known, kv));
                    assert(s_new =~= s_old);
                    assert forall|y: Seq<char>| #[trigger] has_key_at(ke, y) implies exists|j: int| n - 1 <= j < e.len() && e[j].0 == y by {
                        let j = choose|j: int| n <= j < e.len() && e[j].0 == y;
                    }
                }
            }
        }
        proof {
            lemma_assoc_len(entries_view(kept@));
            let s0 = Set::new(|k: Seq<char>| contains_id(known, k) && exists|j: int| 0 <= j < e.len() && #[trigger] e[j].0 == k);
            assert(s0 =~= old_map.dom().filter(|k: Seq<char>| contains_id(known_ids@.map_values(|s: &str| s@), k)));
        }
        let after = kept.len();
        self.bindings = BindingMap { entries: kept };
        before - after
    }
}

/// Law: the patterns `set_hosts` stores never hold two that are equal up to ASCII case.
pub proof fn law_dedup_hosts_distinct(hs: Seq<Seq<char>>)
    ensures
        forall|i: int, j: int|
            0 <= i < j < dedup_hosts(hs).len() ==> !eq_ignore_ascii_case(
                #[trigger] dedup_hosts(hs)[i],
                #[trigger] dedup_hosts(hs)[j],
            ),
    decreases hs.len(),
{
    if hs.len() > 0 {
        law_dedup_hosts_distinct(hs.drop_last());
        let d = dedup_hosts(hs.drop_last());
        let t = trim(hs.last());
        if !has_host_ci(d, t) {
            let e = d.push(t);
            assert forall|i: int, j: int| 0 <= i < j < e.len() implies !eq_ignore_ascii_case(
                #[trigger] e[i],
                #[trigger] e[j],
            ) by {
                if j == d.len() {
                    assert(e[j] == t);
                    assert(e[i] == d[i]);
                    if eq_ignore_ascii_case(d[i], t) {
                        assert(has_host_ci(d, t));
                    }
                } else {
                    assert(e[i] == d[i] && e[j] == d[j]);
                }
            }
        }
    }
}

/// Law: after `remove_host` no pattern of the key equals the removed one up to ASCII case.
pub proof fn law_without_host_removes_all(hs: Seq<Seq<char>>, h: Seq<char>)
    ensures
        forall|i: int|
            0 <= i < without_host(hs, h).len() ==> !eq_ignore_ascii_case(
                #[trigger] without_host(hs, h)[i],
                h,
            ),
        without_host(hs, h).len() <= hs.len(),
    decreases hs.len(),
{
    if hs.len() > 0 {
        law_without_host_removes_all(hs.drop_last(), h);
        let r = without_host(hs.drop_last(), h);
        if !eq_ignore_ascii_case(hs.last(), h) {
            assert forall|i: int| 0 <= i < r.push(hs.last()).len() implies !eq_ignore_ascii_case(
                #[trigger] r.push(hs.last())[i],
                h,
            ) by {
                if i < r.len() {
                    assert(r.push(hs.last())[i] == r[i]);
                }
            }
        }
    }
}

/// Law: adding a pattern the key already has changes nothing, so adding the same pattern
/// twice leaves what adding it once left.
pub proof fn law_add_host_idempotent(
    m: Map<Seq<char>, BindingView>,
    id: Seq<char>,
    host: Seq<char>,
    t1: i64,
    t2: i64,
)
    ensures
        add_host_map(add_host_map(m, id, host, t1), id, host, t2) == add_host_map(m, id, host, t1),
{
    let m1 = add_host_map(m, id, host, t1);
    let t = trim(host);
    if !(m.contains_key(id) && has_host_ci(m[id].0, t)) {
        let hs = if m.contains_key(id) {
            m[id].0
        } else {
            Seq::empty()
        };
        let hs1 = m1[id].0;
        assert(hs1 == hs.push(t));
        assert(hs1[hs.len() as int] == t);
        assert(eq_ignore_ascii_case(hs1[hs.len() as int], t));
        assert(has_host_ci(hs1, t));
    }
}


} // verus!
