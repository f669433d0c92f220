//! Inferring the destination host of an SSH client from its command line.
//!
//! Best effort, for display only: the first positional argument of a
//! recognised SSH client, skipping options and the values of options that
//! take one, with any `user@` prefix removed.
use vstd::prelude::*;

use crate::paths::{path_file_name, spec_path_file_name};
use crate::text::{
    ascii_lower, chars_equal, chars_of, ends_with, ends_with_exec, find_char, rsplit_once_char,
    rsplit_once_exec, string_of, to_ascii_lower,
};

verus! {

/// The short SSH options that take a value (from `ssh(1)`).
pub open spec fn ssh_value_flags() -> Seq<char> {
    seq!['B', 'b', 'c', 'D', 'E', 'e', 'F', 'I', 'i', 'J', 'L', 'l', 'm', 'O', 'o', 'p', 'Q', 'R', 'S', 'W', 'w']
}

pub open spec fn is_value_flag(c: char) -> bool {
    ssh_value_flags().contains(c)
}

/// The host of an SSH destination: the text after the last `@`.
pub open spec fn target_host(arg: Seq<char>) -> Seq<char> {
    match rsplit_once_char(arg, '@') {
        Some((_, host)) => host,
        None => arg,
    }
}

/// The position of the first value-taking option letter in a cluster of short options.
pub open spec fn first_value_flag(rest: Seq<char>) -> Option<int>
    decreases rest.len(),
{
    if rest.len() == 0 {
        None
    } else if is_value_flag(rest[0]) {
        Some(0)
    } else {
        match first_value_flag(rest.drop_first()) {
            Some(i) => Some(i + 1),
            None => None,
        }
    }
}

/// Whether a cluster of short options ends in a value-taking option, whose value is then
/// the next argument.
pub open spec fn consumes_next(rest: Seq<char>) -> bool {
    match first_value_flag(rest) {
        Some(i) => i + 1 >= rest.len(),
        None => false,
    }
}

/// `"--"`.
pub open spec fn double_dash() -> Seq<char> {
    seq!['-', '-']
}

/// The destination among the arguments that follow the program name.
pub open spec fn target_from_args(args: Seq<Seq<char>>) -> Option<Seq<char>>
    decreases args.len(),
{
    if args.len() == 0 {
        None
    } else {
        let a = args[0];
        if a == double_dash() {
            if args.len() >= 2 {
                Some(target_host(args[1]))
            } else {
                None
            }
        } else if a.len() >= 1 && a[0] == '-' {
            let rest = a.drop_first();
            if rest.len() != 0 && consumes_next(rest) {
                if args.len() >= 2 {
                    target_from_args(args.skip(2))
                } else {
                    None
                }
            } else {
                target_from_args(args.drop_first())
            }
        } else {
            Some(target_host(a))
        }
    }
}

/// The program names recognised as SSH clients.
pub open spec fn is_ssh_client_name(n: Seq<char>) -> bool {
    n == "ssh"@ || n == "scp"@ || n == "sftp"@ || n == "ssh-keyscan"@ || n == "ssh-copy-id"@
}

/// The program name: the file name, ASCII-lowercased, without a trailing `.exe`.
pub open spec fn client_name(argv0: Seq<char>) -> Option<Seq<char>> {
    match spec_path_file_name(argv0) {
        None => None,
        Some(f) => Some(program_name(f)),
    }
}

/// A program's file name lowercased (ASCII), without a trailing `.exe`.
pub open spec fn program_name(f: Seq<char>) -> Seq<char> {
    let l = f.map_values(|c: char| ascii_lower(c));
    if ends_with(l, ".exe"@) {
        l.take(l.len() - 4)
    } else {
        l
    }
}

/// The destination host addressed by a program with file name `file` run with `args`
/// (the arguments after the program), if the program is an SSH client.
pub open spec fn target_for_program(file: Seq<char>, args: Seq<Seq<char>>) -> Option<Seq<char>> {
    if is_ssh_client_name(program_name(file)) {
        target_from_args(args)
    } else {
        None
    }
}

/// The destination host a command line addresses, if it is an SSH client's.
pub open spec fn inferred_target(argv: Seq<Seq<char>>) -> Option<Seq<char>> {
    if argv.len() == 0 {
        None
    } else {
        match client_name(argv[0]) {
            Some(n) => if is_ssh_client_name(n) {
                target_from_args(argv.drop_first())
            } else {
                None
            },
            None => None,
        }
    }
}

/// The host part of an SSH destination (after the last `@`).
pub fn parse_ssh_target(arg: &str) -> (r: String)
    ensures
        r@ == target_host(arg@),
{
    let a = chars_of(arg);
    match rsplit_once_exec(a.as_slice(), '@') {
        Some((_, host)) => string_of(host.as_slice()),
        None => string_of(a.as_slice()),
    }
}

fn is_value_flag_exec(c: char) -> (b: bool)
    ensures
        b == is_value_flag(c),
{
    let flags = ['B', 'b', 'c', 'D', 'E', 'e', 'F', 'I', 'i', 'J', 'L', 'l', 'm', 'O', 'o', 'p', 'Q', 'R', 'S', 'W', 'w'];
    assert(flags@ == ssh_value_flags());
    let mut i: usize = 0;
    while i < flags.len()
        invariant
            flags@ == ssh_value_flags(),
            i <= flags@.len(),
            forall|j: int| 0 <= j < i ==> flags@[j] != c,
        decreases flags.len() - i,
    {
        if flags[i] == c {
            assert(ssh_value_flags()[i as int] == c);
            return true;
        }
        i += 1;
    }
    false
}

fn consumes_next_exec(rest: &[char]) -> (b: bool)
    ensures
        b == consumes_next(rest@),
{
    let mut i: usize = 0;
    assert(rest@.skip(0) =~= rest@);
    while i < rest.len()
        invariant
            i <= rest@.len(),
            forall|j: int| 0 <= j < i ==> !is_value_flag(#[trigger] rest@[j]),
            first_value_flag(rest@) == match first_value_flag(rest@.skip(i as int)) {
                Some(k) => Some(k + i),
                None => None,
            },
        decreases rest.len() - i,
    {
        assert(rest@.skip(i as int)[0] == rest@[i as int]);
        if is_value_flag_exec(rest[i]) {
            return i + 1 >= rest.len();
        }
        assert(rest@.skip(i as int).drop_first() =~= rest@.skip(i + 1));
        i += 1;
    }
    false
}

fn strings_equal_lit(a: &[char], lit: &str) -> (b: bool)
    ensures
        b == (a@ == lit@),
{
    let l = chars_of(lit);
    chars_equal(a, l.as_slice())
}

/// The destination host addressed by a program whose file name is `file_name`, run with
/// `args` (the arguments after the program), if it is an SSH client (`ssh`, `scp`, `sftp`,
/// `ssh-keyscan`, `ssh-copy-id`, case-insensitively, with or without `.exe`): the first
/// positional argument after options and option values, or the argument after `--`,
/// without its `user@` prefix.
pub fn infer_ssh_target_for_program(file_name: &str, args: &[String]) -> (r: Option<String>)
    ensures
        crate::text::opt_view(r) == target_for_program(file_name@, args@.map_values(|a: String| a@)),
{
    let ghost av = args@.map_values(|a: String| a@);
    let fc = chars_of(file_name);
    let mut lower: Vec<char> = Vec::new();
    let mut i: usize = 0;
    while i < fc.len()
        invariant
            i <= fc@.len(),
            lower@ =~= fc@.take(i as int).map_values(|c: char| ascii_lower(c)),
        decreases fc.len() - i,
    {
        lower.push(to_ascii_lower(fc[i]));
        i += 1;
    }
    assert(fc@.take(fc@.len() as int) =~= fc@);
    let exe = chars_of(".exe");
    proof {
        reveal_strlit(".exe");
    }
    let name: Vec<char> = if ends_with_exec(lower.as_slice(), exe.as_slice()) {
        vstd::slice::slice_to_vec(vstd::slice::slice_subrange(lower.as_slice(), 0, lower.len() - 4))
    } else {
        lower
    };
    assert(program_name(file_name@) == name@);
    let is_client = strings_equal_lit(name.as_slice(), "ssh") || strings_equal_lit(name.as_slice(), "scp")
        || strings_equal_lit(name.as_slice(), "sftp") || strings_equal_lit(name.as_slice(), "ssh-keyscan")
        || strings_equal_lit(name.as_slice(), "ssh-copy-id");
    if !is_client {
        return None;
    }
    let mut k: usize = 0;
    assert(av.skip(0) =~= av);
    assert(target_for_program(file_name@, av) == target_from_args(av));
    while k < args.len()
        invariant
            k <= args@.len(),
            av == args@.map_values(|a: String| a@),
            target_for_program(file_name@, av) == target_from_args(av),
            target_from_args(av) == target_from_args(av.skip(k as int)),
        decreases args.len() - k,
    {
        let ghost rest_args = av.skip(k as int);
        let a = chars_of(args[k].as_str());
        assert(rest_args[0] == a@);
        if a.len() == 2 && a[0] == '-' && a[1] == '-' {
            assert(a@ =~= double_dash());
            if k + 1 < args.len() {
                assert(rest_args[1] == args@[k + 1]@);
                return Some(parse_ssh_target(args[k + 1].as_str()));
            }
            return None;
        }
        assert(a@ != double_dash());
        if a.len() >= 1 && a[0] == '-' {
            let rest = vstd::slice::slice_subrange(a.as_slice(), 1, a.len());
            assert(rest@ =~= a@.drop_first());
            if rest.len() != 0 && consumes_next_exec(rest) {
                if k + 1 >= args.len() {
                    return None;
                }
                assert(rest_args.skip(2) =~= av.skip(k + 2));
                k = k + 2;
            } else {
                assert(rest_args.drop_first() =~= av.skip(k + 1));
                k = k + 1;
            }
        } else {
            return Some(parse_ssh_target(args[k].as_str()));
        }
    }
    assert(av.skip(k as int) =~= Seq::<Seq<char>>::empty());
    None
}

/// The destination host that a command line addresses, if it is that of an SSH client
/// (see [`infer_ssh_target_for_program`]); the program's file name is taken from the
/// first argument.
pub fn infer_ssh_target_from_argv(argv: &Vec<String>) -> (r: Option<String>)
    ensures
        match r {
            Some(s) => inferred_target(argv@.map_values(|a: String| a@)) == Some(s@),
            None => inferred_target(argv@.map_values(|a: String| a@)) is None,
        },
{
    let ghost av = argv@.map_values(|a: String| a@);
    if argv.len() == 0 {
        return None;
    }
    assert(av[0] == argv@[0]@);
    let file = match path_file_name(argv[0].as_str()) {
        None => return None,
        Some(f) => f,
    };
    let args = vstd::slice::slice_subrange(argv.as_slice(), 1, argv.len());
    assert(args@.map_values(|a: String| a@) =~= av.drop_first());
    infer_ssh_target_for_program(file.as_str(), args)
}

/// The option letters of `ssh(1)` that take a value.
pub open spec fn takes_value(f: char) -> bool {
    f == 'B' || f == 'b' || f == 'c' || f == 'D' || f == 'E' || f == 'e' || f == 'F' || f == 'I' || f == 'i'
        || f == 'J' || f == 'L' || f == 'l' || f == 'm' || f == 'O' || f == 'o' || f == 'p' || f == 'Q' || f
        == 'R' || f == 'S' || f == 'W' || f == 'w'
}

proof fn lemma_value_flag_iff(f: char)
    ensures
        is_value_flag(f) == takes_value(f),
{
    let s = ssh_value_flags();
    if takes_value(f) {
        let k: int = if f == 'B' { 0 } else if f == 'b' { 1 } else if f == 'c' { 2 } else if f == 'D' { 3 }
            else if f == 'E' { 4 } else if f == 'e' { 5 } else if f == 'F' { 6 } else if f == 'I' { 7 }
            else if f == 'i' { 8 } else if f == 'J' { 9 } else if f == 'L' { 10 } else if f == 'l' { 11 }
            else if f == 'm' { 12 } else if f == 'O' { 13 } else if f == 'o' { 14 } else if f == 'p' { 15 }
            else if f == 'Q' { 16 } else if f == 'R' { 17 } else if f == 'S' { 18 } else if f == 'W' { 19 }
            else { 20 };
        assert(s[k] == f);
    } else {
        assert forall|k: int| 0 <= k < s.len() implies s[k] != f by {}
    }
}

/// Law: an option that takes a value, ending its argument, skips the next argument:
/// `-J bastion dest` addresses `dest`, not `bastion`, for each of the letters of
/// [`takes_value`]; any other single option letter skips only itself.
pub proof fn law_value_options_skip_their_value(f: char, v: Seq<char>, rest: Seq<Seq<char>>)
    requires
        f != '-',
    ensures
        takes_value(f) ==> target_from_args(seq![seq!['-', f], v] + rest) == target_from_args(rest),
        !takes_value(f) ==> target_from_args(seq![seq!['-', f], v] + rest) == target_from_args(seq![v] + rest),
{
    lemma_value_flag_iff(f);
    let args = seq![seq!['-', f], v] + rest;
    let a = seq!['-', f];
    assert(args[0] == a);
    assert(a != double_dash());
    assert(a.drop_first() =~= seq![f]);
    assert(seq![f].drop_first() =~= Seq::<char>::empty());
    assert(first_value_flag(Seq::<char>::empty()) is None);
    if !takes_value(f) {
        assert(first_value_flag(seq![f]) is None);
        assert(!consumes_next(seq![f]));
    }
    assert(args.skip(2) =~= rest);
    assert(args.drop_first() =~= seq![v] + rest);
}

} // verus!
