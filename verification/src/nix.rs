//! The invocations of the `nix-*` command-line tools, and the reading of their output.
//!
//! Running the commands is left to the caller: the functions here compute the program and the
//! arguments of each invocation, and interpret what the commands print.
use vstd::prelude::*;

use crate::eval_args::{expression_args_text, leading_pairs, EvalArgs};
use crate::location::attribute_path::{attribute_path_text, strings_view, AttributePath};
use crate::paths::{is_in_nix_store, in_nix_store, join_path, path_join};
use crate::text::{lines, lines_of, owned, push_str, str_eq, trim, trim_str};

verus! {

broadcast use vstd::seq_lib::group_seq_properties;

/// A program and its arguments.
pub struct Invocation {
    pub program: String,
    pub args: Vec<String>,
}

/// `flag name value` for each pair.
pub open spec fn flagged_pairs(flag: Seq<char>, pairs: Seq<(Seq<char>, Seq<char>)>) -> Seq<
    Seq<char>,
>
    decreases pairs.len(),
{
    if pairs.len() == 0 {
        Seq::empty()
    } else {
        seq![flag, pairs[0].0, pairs[0].1] + flagged_pairs(flag, pairs.drop_first())
    }
}

/// The arguments naming the expression: the Flake compatibility expression applied to the
/// path, or the path itself.
pub open spec fn source_args(flake_compat: bool, compat: Seq<char>, path: Seq<char>) -> Seq<
    Seq<char>,
> {
    if flake_compat {
        seq!["--expr"@, compat, "--arg"@, "path"@, path]
    } else {
        seq![path]
    }
}

/// `-A <attribute path>` below the toplevel, nothing for the toplevel.
pub open spec fn attribute_args(a: Seq<Seq<char>>) -> Seq<Seq<char>> {
    if a.len() == 0 {
        Seq::empty()
    } else {
        seq!["-A"@, attribute_path_text(a)]
    }
}

/// `--option name value` for each builder option.
pub open spec fn option_args(e: crate::eval_args::EvalArgsView) -> Seq<Seq<char>> {
    flagged_pairs("--option"@, leading_pairs(e.nix_options))
}

/// `--arg name value` for each expression argument.
pub open spec fn expression_arg_args(e: crate::eval_args::EvalArgsView) -> Seq<Seq<char>> {
    flagged_pairs("--arg"@, leading_pairs(e.add_eval_args))
}

/// The arguments of a local `nix-build` (or `nom-build` where that is available).
pub open spec fn build_args(
    path: Seq<char>,
    a: Seq<Seq<char>>,
    allow_out_links: bool,
    e: crate::eval_args::EvalArgsView,
    extra: Seq<Seq<char>>,
    compat: Seq<char>,
    nom: bool,
) -> Seq<Seq<char>> {
    seq!["--log-format"@, "bar"@] + source_args(e.flake_compat, compat, path) + attribute_args(a)
        + (if allow_out_links {
        Seq::empty()
    } else {
        seq!["--no-out-link"@]
    }) + option_args(e) + expression_arg_args(e) + extra + (if nom {
        seq!["--log-format"@, "internal-json"@]
    } else {
        Seq::empty()
    })
}

/// `s` with each `"` preceded by a backslash.
pub open spec fn escape_quotes(s: Seq<char>) -> Seq<char>
    decreases s.len(),
{
    if s.len() == 0 {
        Seq::empty()
    } else {
        (if s[0] == '"' {
            seq!['\\', '"']
        } else {
            seq![s[0]]
        }) + escape_quotes(s.drop_first())
    }
}

/// The arguments of `ssh` for a remote `nix-build`.
pub open spec fn build_remote_args(
    path: Seq<char>,
    a: Seq<Seq<char>>,
    remote: Seq<char>,
    e: crate::eval_args::EvalArgsView,
    extra: Seq<Seq<char>>,
    compat: Seq<char>,
) -> Seq<Seq<char>> {
    seq![remote, "nix-build"@, "--log-format"@, "bar"@] + source_args(
        e.flake_compat,
        seq!['"'] + escape_quotes(compat) + seq!['"'],
        path,
    ) + attribute_args(a) + seq!["--no-out-link"@] + option_args(e) + expression_arg_args(e)
        + extra
}

/// The arguments of `nix-instantiate` evaluating an attribute.
pub open spec fn eval_command_args(
    path: Seq<char>,
    a: Seq<Seq<char>>,
    e: crate::eval_args::EvalArgsView,
    extra: Seq<Seq<char>>,
    compat: Seq<char>,
) -> Seq<Seq<char>> {
    seq!["--eval"@] + source_args(e.flake_compat, compat, path) + attribute_args(a)
        + expression_arg_args(e) + option_args(e) + extra
}

/// `--command <command>` for a given command, else a command that starts the user's shell if
/// `$SHELL` is set, else nothing.
pub open spec fn command_args(command: Option<Seq<char>>, shell: Option<Seq<char>>) -> Seq<
    Seq<char>,
> {
    match command {
        Some(c) => seq!["--command"@, c],
        None => match shell {
            Some(sh) => seq!["--command"@, "SHELL="@ + sh + seq![' '] + sh],
            None => Seq::empty(),
        },
    }
}

/// `-p <path>` for each path.
pub open spec fn package_args(paths: Seq<Seq<char>>) -> Seq<Seq<char>>
    decreases paths.len(),
{
    if paths.len() == 0 {
        Seq::empty()
    } else {
        seq!["-p"@, paths[0]] + package_args(paths.drop_first())
    }
}

/// The arguments of `nix-shell` with packages.
pub open spec fn shell_args(
    paths: Seq<Seq<char>>,
    command: Option<Seq<char>>,
    e: crate::eval_args::EvalArgsView,
    extra: Seq<Seq<char>>,
    shell: Option<Seq<char>>,
) -> Seq<Seq<char>> {
    package_args(paths) + option_args(e) + command_args(command, shell) + extra
}

/// The arguments of `nix-shell` entering a development shell.
pub open spec fn dev_shell_args(
    path: Seq<char>,
    a: Seq<Seq<char>>,
    e: crate::eval_args::EvalArgsView,
    command: Option<Seq<char>>,
    extra: Seq<Seq<char>>,
    compat: Seq<char>,
    shell: Option<Seq<char>>,
) -> Seq<Seq<char>> {
    seq!["-A"@, attribute_path_text(a)] + source_args(e.flake_compat, compat, path)
        + expression_arg_args(e) + option_args(e) + command_args(command, shell) + extra
}

/// The arguments of `nix-instantiate` creating a garbage collection root.
pub open spec fn create_root_args(
    path: Seq<char>,
    a: Seq<Seq<char>>,
    e: crate::eval_args::EvalArgsView,
    root: Seq<char>,
    compat: Seq<char>,
) -> Seq<Seq<char>> {
    seq!["-A"@, attribute_path_text(a)] + source_args(e.flake_compat, compat, path)
        + expression_arg_args(e) + option_args(e) + seq!["--indirect"@, "--add-root"@, root]
}

// ---------------------------------------------------------------------------------------------

/// Appends one argument.
fn push_arg(v: &mut Vec<String>, s: &str)
    ensures
        strings_view(final(v)@) == strings_view(old(v)@).push(s@),
{
    let ghost before = strings_view(v@);
    v.push(owned(s));
    assert(strings_view(v@) == before.push(s@));
}

/// Appends the arguments `extra`.
fn push_all(v: &mut Vec<String>, extra: &[String])
    ensures
        strings_view(final(v)@) == strings_view(old(v)@) + strings_view(extra@),
{
    let ghost start = strings_view(v@);
    let mut i: usize = 0;
    while i < extra.len()
        invariant
            0 <= i <= extra@.len(),
            strings_view(v@) == start + strings_view(extra@).take(i as int),
        decreases extra.len() - i,
    {
        push_arg(v, extra[i].as_str());
        assert(strings_view(extra@).take(i + 1) == strings_view(extra@).take(i as int).push(
            extra@[i as int]@,
        ));
        i = i + 1;
    }
    assert(strings_view(extra@).take(extra@.len() as int) == strings_view(extra@));
}

/// Appends `flag name value` for each pair.
fn push_flagged_pairs(v: &mut Vec<String>, flag: &str, pairs: &Vec<(&str, &str)>)
    ensures
        strings_view(final(v)@) == strings_view(old(v)@) + flagged_pairs(
            flag@,
            pairs@.map_values(|p: (&str, &str)| (p.0@, p.1@)),
        ),
{
    let ghost start = strings_view(v@);
    let ghost pv = pairs@.map_values(|p: (&str, &str)| (p.0@, p.1@));
    let mut i: usize = 0;
    assert(pv.skip(0) == pv);
    while i < pairs.len()
        invariant
            pv == pairs@.map_values(|p: (&str, &str)| (p.0@, p.1@)),
            0 <= i <= pv.len(),
            start + flagged_pairs(flag@, pv) == strings_view(v@) + flagged_pairs(
                flag@,
                pv.skip(i as int),
            ),
        decreases pairs.len() - i,
    {
        let ghost before = strings_view(v@);
        let (k, x) = pairs[i];
        push_arg(v, flag);
        push_arg(v, k);
        push_arg(v, x);
        assert(pv.skip(i as int)[0] == (k@, x@));
        assert(pv.skip(i as int).drop_first() == pv.skip(i + 1));
        assert(strings_view(v@) == before + seq![flag@, k@, x@]);
        assert(before + (seq![flag@, k@, x@] + flagged_pairs(flag@, pv.skip(i + 1))) == before
            + seq![flag@, k@, x@] + flagged_pairs(flag@, pv.skip(i + 1)));
        i = i + 1;
    }
    assert(pv.skip(i as int).len() == 0);
}

/// Appends the arguments naming the expression (see [`source_args`]).
fn push_source_args(v: &mut Vec<String>, flake_compat: bool, compat: &str, path: &str)
    ensures
        strings_view(final(v)@) == strings_view(old(v)@) + source_args(flake_compat, compat@, path@),
{
    let ghost before = strings_view(v@);
    if flake_compat {
        push_arg(v, "--expr");
        push_arg(v, compat);
        push_arg(v, "--arg");
        push_arg(v, "path");
        push_arg(v, path);
        assert(strings_view(v@) == before + seq!["--expr"@, compat@, "--arg"@, "path"@, path@]);
    } else {
        push_arg(v, path);
        assert(strings_view(v@) == before + seq![path@]);
    }
}

/// Appends `-A <attribute path>` below the toplevel.
fn push_attribute_args(v: &mut Vec<String>, attribute: &AttributePath)
    ensures
        strings_view(final(v)@) == strings_view(old(v)@) + attribute_args(attribute@),
{
    let ghost before = strings_view(v@);
    if !attribute.is_toplevel() {
        let a = attribute.to_string();
        push_arg(v, "-A");
        push_arg(v, a.as_str());
        assert(strings_view(v@) == before + seq!["-A"@, a@]);
    } else {
        assert(strings_view(v@) == before + Seq::<Seq<char>>::empty());
    }
}

/// Appends `--option name value` for each builder option.
fn push_option_args(v: &mut Vec<String>, eval_args: &EvalArgs)
    ensures
        strings_view(final(v)@) == strings_view(old(v)@) + option_args(eval_args@),
{
    let opts = eval_args.nix_options();
    push_flagged_pairs(v, "--option", &opts);
}

/// Appends `--arg name value` for each expression argument.
fn push_expression_arg_args(v: &mut Vec<String>, eval_args: &EvalArgs)
    ensures
        strings_view(final(v)@) == strings_view(old(v)@) + expression_arg_args(eval_args@),
{
    let args = eval_args.expression_args();
    push_flagged_pairs(v, "--arg", &args);
}

/// Builds an output with [`nix-build`](https://nix.dev/manual/nix/stable/command-ref/nix-build.html),
/// or with `nom-build` if `nom_available`; `compat_expr` is the Flake compatibility expression.
pub fn build(
    path: &str,
    attribute: &AttributePath,
    allow_out_links: bool,
    eval_args: &EvalArgs,
    extra_args: &[String],
    compat_expr: &str,
    nom_available: bool,
) -> (r: Invocation)
    ensures
        r.program@ == (if nom_available {
            "nom-build"@
        } else {
            "nix-build"@
        }),
        strings_view(r.args@) == build_args(
            path@,
            attribute@,
            allow_out_links,
            eval_args@,
            strings_view(extra_args@),
            compat_expr@,
            nom_available,
        ),
{
    let mut args: Vec<String> = Vec::new();
    push_arg(&mut args, "--log-format");
    push_arg(&mut args, "bar");
    assert(strings_view(args@) == seq!["--log-format"@, "bar"@]);
    push_source_args(&mut args, eval_args.flake_compat, compat_expr, path);
    push_attribute_args(&mut args, attribute);
    let ghost before = strings_view(args@);
    if !allow_out_links {
        push_arg(&mut args, "--no-out-link");
        assert(strings_view(args@) == before + seq!["--no-out-link"@]);
    } else {
        assert(strings_view(args@) == before + Seq::<Seq<char>>::empty());
    }
    push_option_args(&mut args, eval_args);
    push_expression_arg_args(&mut args, eval_args);
    push_all(&mut args, extra_args);
    let ghost before2 = strings_view(args@);
    let program = if nom_available {
        push_arg(&mut args, "--log-format");
        push_arg(&mut args, "internal-json");
        assert(strings_view(args@) == before2 + seq!["--log-format"@, "internal-json"@]);
        owned("nom-build")
    } else {
        assert(strings_view(args@) == before2 + Seq::<Seq<char>>::empty());
        owned("nix-build")
    };
    Invocation { program, args }
}

/// `s` with each `"` preceded by a backslash.
pub fn escape_quotes_str(s: &str) -> (r: String)
    ensures
        r@ == escape_quotes(s@),
{
    let v = crate::text::chars_of(s);
    let mut r = String::new();
    let mut i: usize = 0;
    assert(v@.skip(0) == v@);
    while i < v.len()
        invariant
            v@ == s@,
            0 <= i <= v@.len(),
            escape_quotes(s@) == r@ + escape_quotes(v@.skip(i as int)),
        decreases v.len() - i,
    {
        let ghost before = r@;
        assert(v@.skip(i as int)[0] == v@[i as int]);
        assert(v@.skip(i as int).drop_first() == v@.skip(i + 1));
        if v[i] == '"' {
            crate::text::push_char(&mut r, '\\');
            crate::text::push_char(&mut r, '"');
            assert(r@ == before + seq!['\\', '"']);
        } else {
            crate::text::push_char(&mut r, v[i]);
            assert(r@ == before + seq![v@[i as int]]);
        }
        i = i + 1;
    }
    assert(v@.skip(i as int).len() == 0);
    r
}

/// Builds an output on a remote machine: `ssh` running
/// [`nix-build`](https://nix.dev/manual/nix/stable/command-ref/nix-build.html) there.
pub fn build_remote(
    path: &str,
    attribute: &AttributePath,
    remote: &str,
    eval_args: &EvalArgs,
    extra_args: &[String],
    compat_expr: &str,
) -> (r: Invocation)
    ensures
        r.program@ == "ssh"@,
        strings_view(r.args@) == build_remote_args(
            path@,
            attribute@,
            remote@,
            eval_args@,
            strings_view(extra_args@),
            compat_expr@,
        ),
{
    proof {
        reveal_strlit("\"");
    }
    let mut quoted = owned("\"");
    let escaped = escape_quotes_str(compat_expr);
    push_str(&mut quoted, escaped.as_str());
    push_str(&mut quoted, "\"");
    assert(quoted@ == seq!['"'] + escape_quotes(compat_expr@) + seq!['"']);
    let mut args: Vec<String> = Vec::new();
    push_arg(&mut args, remote);
    push_arg(&mut args, "nix-build");
    push_arg(&mut args, "--log-format");
    push_arg(&mut args, "bar");
    assert(strings_view(args@) == seq![remote@, "nix-build"@, "--log-format"@, "bar"@]);
    push_source_args(&mut args, eval_args.flake_compat, quoted.as_str(), path);
    push_attribute_args(&mut args, attribute);
    let ghost before = strings_view(args@);
    push_arg(&mut args, "--no-out-link");
    assert(strings_view(args@) == before + seq!["--no-out-link"@]);
    push_option_args(&mut args, eval_args);
    push_expression_arg_args(&mut args, eval_args);
    push_all(&mut args, extra_args);
    Invocation { program: owned("ssh"), args }
}

/// Copies store paths to a remote machine with
/// [`nix-copy-closure`](https://nix.dev/manual/nix/stable/command-ref/nix-copy-closure.html).
pub fn push_paths(paths: &[String], remote: &str) -> (r: Invocation)
    ensures
        r.program@ == "nix-copy-closure"@,
        strings_view(r.args@) == seq![remote@] + strings_view(paths@),
{
    let mut args: Vec<String> = Vec::new();
    push_arg(&mut args, remote);
    push_all(&mut args, paths);
    Invocation { program: owned("nix-copy-closure"), args }
}

/// Copies store paths from a remote machine with
/// [`nix-copy-closure`](https://nix.dev/manual/nix/stable/command-ref/nix-copy-closure.html).
pub fn pull_paths(paths: &[String], remote: &str) -> (r: Invocation)
    ensures
        r.program@ == "nix-copy-closure"@,
        strings_view(r.args@) == seq!["--from"@, remote@] + strings_view(paths@),
{
    let mut args: Vec<String> = Vec::new();
    push_arg(&mut args, "--from");
    push_arg(&mut args, remote);
    push_all(&mut args, paths);
    Invocation { program: owned("nix-copy-closure"), args }
}

/// Evaluates an attribute with
/// [`nix-instantiate`](https://nix.dev/manual/nix/stable/command-ref/nix-instantiate.html).
pub fn eval(
    path: &str,
    attribute: &AttributePath,
    eval_args: &EvalArgs,
    extra_args: &[String],
    compat_expr: &str,
) -> (r: Invocation)
    ensures
        r.program@ == "nix-instantiate"@,
        strings_view(r.args@) == eval_command_args(
            path@,
            attribute@,
            eval_args@,
            strings_view(extra_args@),
            compat_expr@,
        ),
{
    let mut args: Vec<String> = Vec::new();
    push_arg(&mut args, "--eval");
    assert(strings_view(args@) == seq!["--eval"@]);
    push_source_args(&mut args, eval_args.flake_compat, compat_expr, path);
    push_attribute_args(&mut args, attribute);
    push_expression_arg_args(&mut args, eval_args);
    push_option_args(&mut args, eval_args);
    push_all(&mut args, extra_args);
    Invocation { program: owned("nix-instantiate"), args }
}

/// Appends the arguments choosing the command to run in a shell (see [`command_args`]).
fn push_command_args(v: &mut Vec<String>, command: Option<String>, shell_env: Option<&str>)
    ensures
        strings_view(final(v)@) == strings_view(old(v)@) + command_args(
            crate::text::opt_view(command),
            match shell_env {
                Some(s) => Some(s@),
                None => None,
            },
        ),
{
    let ghost before = strings_view(v@);
    match command {
        Some(c) => {
            push_arg(v, "--command");
            push_arg(v, c.as_str());
            assert(strings_view(v@) == before + seq!["--command"@, c@]);
        },
        None => match shell_env {
            Some(sh) => {
                proof {
                    reveal_strlit(" ");
                }
                let mut c = owned("SHELL=");
                push_str(&mut c, sh);
                push_str(&mut c, " ");
                push_str(&mut c, sh);
                assert(c@ == "SHELL="@ + sh@ + seq![' '] + sh@);
                push_arg(v, "--command");
                push_arg(v, c.as_str());
                assert(strings_view(v@) == before + seq!["--command"@, c@]);
            },
            None => {
                assert(strings_view(v@) == before + Seq::<Seq<char>>::empty());
            },
        },
    }
}

/// Enters a shell containing `paths` with `nix-shell`; `shell` is the value of `$SHELL`, if
/// set.
pub fn shell(
    paths: &[String],
    command: Option<String>,
    eval_args: &EvalArgs,
    extra_args: &[String],
    shell_env: Option<&str>,
) -> (r: Invocation)
    ensures
        r.program@ == "nix-shell"@,
        strings_view(r.args@) == shell_args(
            strings_view(paths@),
            crate::text::opt_view(command),
            eval_args@,
            strings_view(extra_args@),
            match shell_env {
                Some(s) => Some(s@),
                None => None,
            },
        ),
{
    let ghost pv = strings_view(paths@);
    let mut args: Vec<String> = Vec::new();
    let mut i: usize = 0;
    assert(pv.skip(0) == pv);
    while i < paths.len()
        invariant
            pv == strings_view(paths@),
            0 <= i <= pv.len(),
            package_args(pv) == strings_view(args@) + package_args(pv.skip(i as int)),
        decreases paths.len() - i,
    {
        let ghost before = strings_view(args@);
        push_arg(&mut args, "-p");
        push_arg(&mut args, paths[i].as_str());
        assert(pv.skip(i as int)[0] == pv[i as int]);
        assert(pv.skip(i as int).drop_first() == pv.skip(i + 1));
        assert(strings_view(args@) == before + seq!["-p"@, pv[i as int]]);
        assert(before + (seq!["-p"@, pv[i as int]] + package_args(pv.skip(i + 1))) == before
            + seq!["-p"@, pv[i as int]] + package_args(pv.skip(i + 1)));
        i = i + 1;
    }
    assert(pv.skip(i as int).len() == 0);
    assert(strings_view(args@) == package_args(pv));
    push_option_args(&mut args, eval_args);
    push_command_args(&mut args, command, shell_env);
    push_all(&mut args, extra_args);
    Invocation { program: owned("nix-shell"), args }
}

/// Enters the development shell described by `path` with `nix-shell`; `shell` is the value of
/// `$SHELL`, if set.
pub fn dev_shell(
    path: &str,
    attribute: &AttributePath,
    eval_args: &EvalArgs,
    command: Option<String>,
    extra_args: &[String],
    compat_expr: &str,
    shell_env: Option<&str>,
) -> (r: Invocation)
    ensures
        r.program@ == "nix-shell"@,
        strings_view(r.args@) == dev_shell_args(
            path@,
            attribute@,
            eval_args@,
            crate::text::opt_view(command),
            strings_view(extra_args@),
            compat_expr@,
            match shell_env {
                Some(s) => Some(s@),
                None => None,
            },
        ),
{
    let mut args: Vec<String> = Vec::new();
    let a = attribute.to_string();
    push_arg(&mut args, "-A");
    push_arg(&mut args, a.as_str());
    assert(strings_view(args@) == seq!["-A"@, a@]);
    push_source_args(&mut args, eval_args.flake_compat, compat_expr, path);
    push_expression_arg_args(&mut args, eval_args);
    push_option_args(&mut args, eval_args);
    push_command_args(&mut args, command, shell_env);
    push_all(&mut args, extra_args);
    Invocation { program: owned("nix-shell"), args }
}

/// Creates a garbage collection root for `path` with
/// [`nix-instantiate`](https://nix.dev/manual/nix/stable/command-ref/nix-instantiate.html).
pub fn create_root(
    path: &str,
    attribute: &AttributePath,
    eval_args: &EvalArgs,
    root: &str,
    compat_expr: &str,
) -> (r: Invocation)
    ensures
        r.program@ == "nix-instantiate"@,
        strings_view(r.args@) == create_root_args(
            path@,
            attribute@,
            eval_args@,
            root@,
            compat_expr@,
        ),
{
    let mut args: Vec<String> = Vec::new();
    let a = attribute.to_string();
    push_arg(&mut args, "-A");
    push_arg(&mut args, a.as_str());
    assert(strings_view(args@) == seq!["-A"@, a@]);
    push_source_args(&mut args, eval_args.flake_compat, compat_expr, path);
    push_expression_arg_args(&mut args, eval_args);
    push_option_args(&mut args, eval_args);
    let ghost before = strings_view(args@);
    push_arg(&mut args, "--indirect");
    push_arg(&mut args, "--add-root");
    push_arg(&mut args, root);
    assert(strings_view(args@) == before + seq!["--indirect"@, "--add-root"@, root@]);
    Invocation { program: owned("nix-instantiate"), args }
}

/// The expression asking whether a file has an attribute.
pub open spec fn has_attribute_expr(
    file_attr: Seq<Seq<char>>,
    e: crate::eval_args::EvalArgsView,
    compat: Seq<char>,
    current_system: Option<Seq<char>>,
) -> Seq<char> {
    if e.flake_compat {
        "{ path, }: (("@ + compat + ") { inherit path; }) ? "@ + attribute_path_text(file_attr)
    } else {
        "{ file, }: (import file "@ + expression_args_text(e, current_system) + ") ? "@
            + attribute_path_text(file_attr)
    }
}

/// The arguments of the `nix-instantiate` that evaluates the file first, so that its errors
/// show.
pub open spec fn has_attribute_check_args(file: Seq<char>, e: crate::eval_args::EvalArgsView) -> Seq<
    Seq<char>,
> {
    if e.flake_compat {
        seq!["--eval"@, path_join(file, "flake.nix"@), "--log-format"@, "bar"@]
    } else {
        seq!["--eval"@, file, "--log-format"@, "bar"@]
    }
}

/// The arguments of the `nix-instantiate` that asks for the attribute.
pub open spec fn has_attribute_query_args(
    file: Seq<char>,
    a: Seq<Seq<char>>,
    e: crate::eval_args::EvalArgsView,
    compat: Seq<char>,
    current_system: Option<Seq<char>>,
) -> Seq<Seq<char>> {
    seq![
        "--eval"@,
        "--expr"@,
        "--log-format"@,
        "bar"@,
        has_attribute_expr(a, e, compat, current_system),
        "--arg"@,
        if e.flake_compat {
            "path"@
        } else {
            "file"@
        },
        file,
    ]
}

/// Checks whether a .nix file has a certain attribute: first evaluates the file, then asks for
/// the attribute. `current_system` is the name of the current system, needed where the file is
/// a lambda that is to get the current system.
pub fn has_attribute(
    file: &str,
    attr: &AttributePath,
    eval_args: &EvalArgs,
    compat_expr: &str,
    current_system: Option<&str>,
) -> (r: (Invocation, Invocation))
    requires
        !eval_args.flake_compat && eval_args.is_lambda && eval_args.system == Some(None::<String>)
            ==> current_system is Some,
    ensures
        r.0.program@ == "nix-instantiate"@,
        strings_view(r.0.args@) == has_attribute_check_args(file@, eval_args@),
        r.1.program@ == "nix-instantiate"@,
        strings_view(r.1.args@) == has_attribute_query_args(
            file@,
            attr@,
            eval_args@,
            compat_expr@,
            match current_system {
                Some(s) => Some(s@),
                None => None,
            },
        ),
{
    let a = attr.to_string();
    let mut first: Vec<String> = Vec::new();
    push_arg(&mut first, "--eval");
    if eval_args.flake_compat {
        let f = join_path(file, "flake.nix");
        push_arg(&mut first, f.as_str());
    } else {
        push_arg(&mut first, file);
    }
    push_arg(&mut first, "--log-format");
    push_arg(&mut first, "bar");
    let expr = if eval_args.flake_compat {
        let mut x = owned("{ path, }: ((");
        push_str(&mut x, compat_expr);
        push_str(&mut x, ") { inherit path; }) ? ");
        push_str(&mut x, a.as_str());
        x
    } else {
        let mut x = owned("{ file, }: (import file ");
        let ea = eval_args.expression_args_str(current_system);
        push_str(&mut x, ea.as_str());
        push_str(&mut x, ") ? ");
        push_str(&mut x, a.as_str());
        x
    };
    let mut second: Vec<String> = Vec::new();
    push_arg(&mut second, "--eval");
    push_arg(&mut second, "--expr");
    push_arg(&mut second, "--log-format");
    push_arg(&mut second, "bar");
    push_arg(&mut second, expr.as_str());
    push_arg(&mut second, "--arg");
    if eval_args.flake_compat {
        push_arg(&mut second, "path");
    } else {
        push_arg(&mut second, "file");
    }
    push_arg(&mut second, file);
    (
        Invocation { program: owned("nix-instantiate"), args: first },
        Invocation { program: owned("nix-instantiate"), args: second },
    )
}

/// The answer of a `nix-instantiate` that evaluated a boolean: `true` exactly if the output,
/// without surrounding whitespace, is `true` (other output counts as `false`).
pub fn parse_bool_output(output: &str) -> (r: bool)
    ensures
        r == (trim(output@) == "true"@),
{
    let t = trim_str(output);
    str_eq(t.as_str(), "true")
}

/// Checks whether a .nix file has the lambda type at the toplevel.
pub fn is_lambda(file: &str) -> (r: Invocation)
    ensures
        r.program@ == "nix-instantiate"@,
        strings_view(r.args@) == seq![
            "--eval"@,
            "--expr"@,
            "--raw"@,
            "builtins.typeOf (import "@ + file@ + ")"@,
            "--log-format"@,
            "bar"@,
        ],
{
    let mut expr = owned("builtins.typeOf (import ");
    push_str(&mut expr, file);
    push_str(&mut expr, ")");
    let mut args: Vec<String> = Vec::new();
    push_arg(&mut args, "--eval");
    push_arg(&mut args, "--expr");
    push_arg(&mut args, "--raw");
    push_arg(&mut args, expr.as_str());
    push_arg(&mut args, "--log-format");
    push_arg(&mut args, "bar");
    Invocation { program: owned("nix-instantiate"), args }
}

/// Whether the output of [`is_lambda()`] names the lambda type.
pub fn is_lambda_output(output: &str) -> (r: bool)
    ensures
        r == (trim(output@) == "lambda"@),
{
    let t = trim_str(output);
    str_eq(t.as_str(), "lambda")
}

/// Asks for the current machine's Nix system as specified by the builtin
/// [`currentSystem`](https://nix.dev/manual/nix/stable/language/builtins.html#builtins-currentSystem);
/// the output is the system's name.
pub fn current_system() -> (r: Invocation)
    ensures
        r.program@ == "nix-instantiate"@,
        strings_view(r.args@) == seq!["--eval"@, "--raw"@, "-E"@, "builtins.currentSystem"@],
{
    let mut args: Vec<String> = Vec::new();
    push_arg(&mut args, "--eval");
    push_arg(&mut args, "--raw");
    push_arg(&mut args, "-E");
    push_arg(&mut args, "builtins.currentSystem");
    Invocation { program: owned("nix-instantiate"), args }
}

/// The store paths that a build printed, one per line.
pub fn output_paths(output: &str) -> (r: Vec<String>)
    ensures
        strings_view(r@) == lines(output@),
{
    lines_of(output)
}

/// The fetch arguments ask not to copy a local directory: `nocopy` is `true`, surrounding
/// whitespace ignored.
pub open spec fn no_copy_requested(args: Seq<(Seq<char>, Seq<char>)>) -> bool {
    match crate::location::fetch_args::lookup_entry(args, "nocopy"@) {
        Some(v) => trim(v) == "true"@,
        None => false,
    }
}

/// What fetching a local directory takes.
pub enum LocalFetch {
    /// The directory can be used as it is, at this path.
    Ready(String),
    /// The directory has to be added to the store by this invocation, whose first output line
    /// is the store path (see [`store_path_from_output()`]).
    AddToStore(Invocation),
}

/// How to fetch the local directory `path`, whose canonical form is `canonical`: a directory in
/// the store is used as it is; with the argument `nocopy=true` (surrounding whitespace
/// ignored) the path is used uncopied; otherwise it is copied to the Nix store using
/// `nix-store --add`.
pub fn fetch_local(path: &str, canonical: &str, args: &crate::location::FetchArgs) -> (r: LocalFetch)
    ensures
        match r {
            LocalFetch::Ready(p) => (in_nix_store(canonical@) && p@ == canonical@) || (
            !in_nix_store(canonical@) && no_copy_requested(args@) && p@ == path@),
            LocalFetch::AddToStore(inv) => !in_nix_store(canonical@) && !no_copy_requested(args@)
                && inv.program@ == "nix-store"@ && strings_view(inv.args@) == seq![
                "--add"@,
                canonical@,
                "--log-format"@,
                "bar"@,
            ],
        },
{
    if is_in_nix_store(canonical) {
        return LocalFetch::Ready(owned(canonical));
    }
    let no_copy = match args.get("nocopy") {
        Some(v) => parse_bool_output(v.as_str()),
        None => false,
    };
    if no_copy {
        return LocalFetch::Ready(owned(path));
    }
    let mut a: Vec<String> = Vec::new();
    push_arg(&mut a, "--add");
    push_arg(&mut a, canonical);
    push_arg(&mut a, "--log-format");
    push_arg(&mut a, "bar");
    LocalFetch::AddToStore(Invocation { program: owned("nix-store"), args: a })
}

/// The store path printed by `nix-store --add`: its first line; missing data if it printed
/// none.
pub fn store_path_from_output(output: &str) -> (r: Result<String, crate::error::NieError>)
    ensures
        match r {
            Ok(p) => lines(output@).len() > 0 && p@ == lines(output@)[0],
            Err(e) => lines(output@).len() == 0 && (e matches crate::error::NieError::MissingNixData(
                m,
            ) && m@ == "fetchGit store path"@),
        },
{
    let ls = lines_of(output);
    if ls.len() > 0 {
        Ok(ls[0].clone())
    } else {
        Err(crate::error::NieError::MissingNixData(owned("fetchGit store path")))
    }
}

/// A URL that names a local path, to be made canonical before Nix fetches it: `.` or one that
/// starts with `./`, `../` or `/`.
pub open spec fn is_local_url(url: Seq<char>) -> bool {
    url == "."@ || crate::text::starts_with(url, "./"@) || crate::text::starts_with(url, "../"@)
        || crate::text::starts_with(url, "/"@)
}

/// Whether the URL names a local path (see [`is_local_url`]).
pub fn needs_canonical_path(url: &str) -> (r: bool)
    ensures
        r == is_local_url(url@),
{
    str_eq(url, ".") || crate::text::starts_with_str(url, "./") || crate::text::starts_with_str(
        url,
        "../",
    ) || crate::text::starts_with_str(url, "/")
}

/// Canonicalizes local urls for use with nix (e.g.
/// [`fetchGit`](https://nix.dev/manual/nix/stable/language/builtins.html#builtins-fetchGit)):
/// a local URL is replaced by its canonical path where that could be found (`canonical`),
/// other URLs are kept.
pub fn canonicalize_url(url: &str, canonical: Option<&str>) -> (r: String)
    ensures
        r@ == (if is_local_url(url@) && canonical is Some {
            canonical.unwrap()@
        } else {
            url@
        }),
{
    if needs_canonical_path(url) {
        match canonical {
            Some(c) => owned(c),
            None => owned(url),
        }
    } else {
        owned(url)
    }
}

/// The error for a program that did not succeed: its name and its exit code, `1` where it has
/// none (it was ended by a signal).
pub fn command_failed(program: &str, code: Option<i32>) -> (r: crate::error::NieError)
    ensures
        r matches crate::error::NieError::ExternalCommand(p, c) && p@ == program@ && c == (match code {
            Some(x) => x,
            None => 1,
        }),
{
    let c = match code {
        Some(x) => x,
        None => 1,
    };
    crate::error::NieError::ExternalCommand(owned(program), c)
}

/// The paths a build printed, checked: each must exist (`exists[i]` tells whether path `i`
/// does); the first that does not is an error that names it.
pub fn built_paths_present(paths: Vec<String>, exists: &[bool]) -> (r: Result<Vec<String>, crate::error::NieError>)
    requires
        exists@.len() == paths@.len(),
    ensures
        (forall|i: int| 0 <= i < exists@.len() ==> #[trigger] exists@[i]) ==> (r matches Ok(v) && v@
            == paths@),
        !(forall|i: int| 0 <= i < exists@.len() ==> #[trigger] exists@[i]) ==> (r matches Err(
            crate::error::NieError::BuiltPathMissing(p),
        ) && exists|i: int|
            0 <= i < paths@.len() && !exists@[i] && p@ == paths@[i]@ && forall|j: int|
                0 <= j < i ==> #[trigger] exists@[j]),
{
    let mut i: usize = 0;
    while i < paths.len()
        invariant
            exists@.len() == paths@.len(),
            0 <= i <= paths@.len(),
            forall|j: int| 0 <= j < i ==> #[trigger] exists@[j],
        decreases paths.len() - i,
    {
        if !exists[i] {
            return Err(crate::error::NieError::BuiltPathMissing(paths[i].clone()));
        }
        i = i + 1;
    }
    Ok(paths)
}

} // verus!
