//! What the invocations of the Nix tools pass on, stated over their inputs: the user's
//! expression arguments and builder options, the command to run, and the extra arguments.
use vstd::prelude::*;

use crate::eval_args::{leading_pairs, EvalArgsView};
use crate::location::attribute_path::attribute_path_text;
use crate::nix::{
    attribute_args, build_args, build_remote_args, create_root_args, dev_shell_args, eval_command_args,
    flagged_pairs, package_args, shell_args, source_args,
};

verus! {

broadcast use vstd::seq_lib::group_seq_properties;

/// `args` holds `a`, `b`, `c` one after the other.
pub open spec fn has_triple(args: Seq<Seq<char>>, a: Seq<char>, b: Seq<char>, c: Seq<char>) -> bool {
    exists|j: int| 0 <= j && j + 2 < args.len() && #[trigger] args[j] == a && args[j + 1] == b && args[j + 2] == c
}

/// `args` ends with `tail`.
pub open spec fn ends_with_args(args: Seq<Seq<char>>, tail: Seq<Seq<char>>) -> bool {
    tail.len() <= args.len() && args.subrange(args.len() - tail.len(), args.len() as int) == tail
}

/// `args` runs `c` as its command right before the arguments `tail`, which end it.
pub open spec fn runs_command_before(args: Seq<Seq<char>>, c: Seq<char>, tail: Seq<Seq<char>>) -> bool {
    &&& tail.len() + 2 <= args.len()
    &&& args[args.len() - tail.len() - 2] == "--command"@
    &&& args[args.len() - tail.len() - 1] == c
    &&& ends_with_args(args, tail)
}

/// Every list of the user's with a name and a value is passed on as `flag name value`.
pub open spec fn passes_pairs(args: Seq<Seq<char>>, flag: Seq<char>, vv: Seq<Seq<Seq<char>>>) -> bool {
    forall|i: int|
        0 <= i < vv.len() && (#[trigger] vv[i]).len() >= 2 ==> has_triple(args, flag, vv[i][0], vv[i][1])
}

/// The expression arguments as `--arg name value` and the builder options as
/// `--option name value`.
pub open spec fn passes_user_args(args: Seq<Seq<char>>, e: EvalArgsView) -> bool {
    passes_pairs(args, "--arg"@, e.add_eval_args) && passes_pairs(args, "--option"@, e.nix_options)
}

proof fn lemma_triple_shift(s: Seq<Seq<char>>, p: Seq<Seq<char>>, q: Seq<Seq<char>>, a: Seq<char>, b: Seq<char>, c: Seq<char>)
    requires
        has_triple(s, a, b, c),
    ensures
        has_triple(p + s + q, a, b, c),
{
    let j = choose|j: int| 0 <= j && j + 2 < s.len() && #[trigger] s[j] == a && s[j + 1] == b && s[j + 2] == c;
    let t = p + s + q;
    assert(t[p.len() + j] == s[j]);
    assert(t[p.len() + j + 1] == s[j + 1]);
    assert(t[p.len() + j + 2] == s[j + 2]);
}

proof fn lemma_flagged_has(flag: Seq<char>, vv: Seq<Seq<Seq<char>>>, i: int)
    requires
        0 <= i < vv.len(),
        vv[i].len() >= 2,
    ensures
        has_triple(flagged_pairs(flag, leading_pairs(vv)), flag, vv[i][0], vv[i][1]),
    decreases vv.len(),
{
    let lp = leading_pairs(vv);
    let rest = leading_pairs(vv.drop_first());
    if vv[0].len() >= 2 {
        let p = (vv[0][0], vv[0][1]);
        assert(lp == seq![p] + rest);
        assert((seq![p] + rest).drop_first() == rest);
        assert(flagged_pairs(flag, lp) == seq![flag, p.0, p.1] + flagged_pairs(flag, rest));
        if i == 0 {
            let f = flagged_pairs(flag, lp);
            assert(f[0] == flag && f[1] == p.0 && f[2] == p.1);
        } else {
            assert(vv.drop_first()[i - 1] == vv[i]);
            lemma_flagged_has(flag, vv.drop_first(), i - 1);
            lemma_triple_shift(flagged_pairs(flag, rest), seq![flag, p.0, p.1], Seq::empty(), flag, vv[i][0], vv[i][1]);
            assert(seq![flag, p.0, p.1] + flagged_pairs(flag, rest) + Seq::<Seq<char>>::empty() == flagged_pairs(flag, lp));
        }
    } else {
        assert(i != 0);
        assert(lp == rest);
        assert(vv.drop_first()[i - 1] == vv[i]);
        lemma_flagged_has(flag, vv.drop_first(), i - 1);
    }
}

/// The pairs of `vv`, flagged, lie within `p + flagged + q`.
proof fn lemma_passes_within(
    flag: Seq<char>,
    vv: Seq<Seq<Seq<char>>>,
    p: Seq<Seq<char>>,
    q: Seq<Seq<char>>,
)
    ensures
        passes_pairs(p + flagged_pairs(flag, leading_pairs(vv)) + q, flag, vv),
{
    assert forall|i: int| 0 <= i < vv.len() && (#[trigger] vv[i]).len() >= 2 implies has_triple(
        p + flagged_pairs(flag, leading_pairs(vv)) + q,
        flag,
        vv[i][0],
        vv[i][1],
    ) by {
        lemma_flagged_has(flag, vv, i);
        lemma_triple_shift(flagged_pairs(flag, leading_pairs(vv)), p, q, flag, vv[i][0], vv[i][1]);
    }
}

/// A local build passes on every expression argument as `--arg name value` and every builder
/// option as `--option name value`, and the extra arguments unchanged and in order, followed
/// only by the switch to `nom`'s log format where `nom` builds.
pub proof fn law_build_passes_arguments(
    path: Seq<char>,
    a: Seq<Seq<char>>,
    allow_out_links: bool,
    e: EvalArgsView,
    extra: Seq<Seq<char>>,
    compat: Seq<char>,
    nom: bool,
)
    ensures
        passes_user_args(build_args(path, a, allow_out_links, e, extra, compat, nom), e),
        ends_with_args(
            build_args(path, a, allow_out_links, e, extra, compat, nom),
            extra + if nom {
                seq!["--log-format"@, "internal-json"@]
            } else {
                Seq::empty()
            },
        ),
{
    let args = build_args(path, a, allow_out_links, e, extra, compat, nom);
    let o = flagged_pairs("--option"@, leading_pairs(e.nix_options));
    let x = flagged_pairs("--arg"@, leading_pairs(e.add_eval_args));
    let nomargs = if nom {
        seq!["--log-format"@, "internal-json"@]
    } else {
        Seq::<Seq<char>>::empty()
    };
    let head = seq!["--log-format"@, "bar"@] + crate::nix::source_args(e.flake_compat, compat, path)
        + crate::nix::attribute_args(a) + (if allow_out_links {
        Seq::<Seq<char>>::empty()
    } else {
        seq!["--no-out-link"@]
    });
    assert(args == head + o + (x + extra + nomargs));
    lemma_passes_within("--option"@, e.nix_options, head, x + extra + nomargs);
    assert(args == (head + o) + x + (extra + nomargs));
    lemma_passes_within("--arg"@, e.add_eval_args, head + o, extra + nomargs);
    assert(args == (head + o + x) + (extra + nomargs));
    assert(args.subrange(args.len() - (extra + nomargs).len(), args.len() as int) == extra + nomargs);
}

/// A remote build passes on every expression argument and builder option, and ends with the
/// extra arguments, unchanged and in order.
pub proof fn law_build_remote_passes_arguments(
    path: Seq<char>,
    a: Seq<Seq<char>>,
    remote: Seq<char>,
    e: EvalArgsView,
    extra: Seq<Seq<char>>,
    compat: Seq<char>,
)
    ensures
        passes_user_args(build_remote_args(path, a, remote, e, extra, compat), e),
        ends_with_args(build_remote_args(path, a, remote, e, extra, compat), extra),
{
    let args = build_remote_args(path, a, remote, e, extra, compat);
    let o = flagged_pairs("--option"@, leading_pairs(e.nix_options));
    let x = flagged_pairs("--arg"@, leading_pairs(e.add_eval_args));
    let head = seq![remote, "nix-build"@, "--log-format"@, "bar"@] + crate::nix::source_args(
        e.flake_compat,
        seq!['"'] + crate::nix::escape_quotes(compat) + seq!['"'],
        path,
    ) + crate::nix::attribute_args(a) + seq!["--no-out-link"@];
    assert(args == head + o + (x + extra));
    lemma_passes_within("--option"@, e.nix_options, head, x + extra);
    assert(args == (head + o) + x + extra);
    lemma_passes_within("--arg"@, e.add_eval_args, head + o, extra);
    assert(args.subrange(args.len() - extra.len(), args.len() as int) == extra);
}

/// Evaluating an attribute passes on every expression argument and builder option, and ends
/// with the extra arguments, unchanged and in order.
pub proof fn law_eval_passes_arguments(
    path: Seq<char>,
    a: Seq<Seq<char>>,
    e: EvalArgsView,
    extra: Seq<Seq<char>>,
    compat: Seq<char>,
)
    ensures
        passes_user_args(eval_command_args(path, a, e, extra, compat), e),
        ends_with_args(eval_command_args(path, a, e, extra, compat), extra),
{
    let args = eval_command_args(path, a, e, extra, compat);
    let o = flagged_pairs("--option"@, leading_pairs(e.nix_options));
    let x = flagged_pairs("--arg"@, leading_pairs(e.add_eval_args));
    let head = seq!["--eval"@] + crate::nix::source_args(e.flake_compat, compat, path) + crate::nix::attribute_args(
        a,
    );
    assert(args == head + x + (o + extra));
    lemma_passes_within("--arg"@, e.add_eval_args, head, o + extra);
    assert(args == (head + x) + o + extra);
    lemma_passes_within("--option"@, e.nix_options, head + x, extra);
    assert(args.subrange(args.len() - extra.len(), args.len() as int) == extra);
}

/// A development shell passes on every expression argument and builder option, runs a given
/// command as `--command <command>` whatever `$SHELL` is, and ends with the extra arguments,
/// unchanged and in order, right after that command.
pub proof fn law_dev_shell_passes_arguments(
    path: Seq<char>,
    a: Seq<Seq<char>>,
    e: EvalArgsView,
    command: Option<Seq<char>>,
    extra: Seq<Seq<char>>,
    compat: Seq<char>,
    shell: Option<Seq<char>>,
)
    ensures
        passes_user_args(dev_shell_args(path, a, e, command, extra, compat, shell), e),
        ends_with_args(dev_shell_args(path, a, e, command, extra, compat, shell), extra),
        command matches Some(c) ==> runs_command_before(dev_shell_args(path, a, e, command, extra, compat, shell), c, extra),
{
    let args = dev_shell_args(path, a, e, command, extra, compat, shell);
    let o = flagged_pairs("--option"@, leading_pairs(e.nix_options));
    let x = flagged_pairs("--arg"@, leading_pairs(e.add_eval_args));
    let cmd = crate::nix::command_args(command, shell);
    let head = seq!["-A"@, crate::location::attribute_path::attribute_path_text(a)] + crate::nix::source_args(
        e.flake_compat,
        compat,
        path,
    );
    assert(args == head + x + (o + cmd + extra));
    lemma_passes_within("--arg"@, e.add_eval_args, head, o + cmd + extra);
    assert(args == (head + x) + o + (cmd + extra));
    lemma_passes_within("--option"@, e.nix_options, head + x, cmd + extra);
    assert(args == (head + x + o + cmd) + extra);
    assert(args.subrange(args.len() - extra.len(), args.len() as int) == extra);
    if let Some(c) = command {
        assert(cmd == seq!["--command"@, c]);
        assert(args[args.len() - extra.len() - 2] == cmd[0]);
        assert(args[args.len() - extra.len() - 1] == cmd[1]);
    }
}

/// A shell with packages passes on every builder option, runs a given command as
/// `--command <command>` whatever `$SHELL` is, and ends with the extra arguments, unchanged
/// and in order, right after that command.
pub proof fn law_shell_passes_arguments(
    paths: Seq<Seq<char>>,
    command: Option<Seq<char>>,
    e: EvalArgsView,
    extra: Seq<Seq<char>>,
    shell: Option<Seq<char>>,
)
    ensures
        passes_pairs(shell_args(paths, command, e, extra, shell), "--option"@, e.nix_options),
        ends_with_args(shell_args(paths, command, e, extra, shell), extra),
        command matches Some(c) ==> runs_command_before(shell_args(paths, command, e, extra, shell), c, extra),
{
    let args = shell_args(paths, command, e, extra, shell);
    let o = flagged_pairs("--option"@, leading_pairs(e.nix_options));
    let cmd = crate::nix::command_args(command, shell);
    let head = crate::nix::package_args(paths);
    assert(args == head + o + (cmd + extra));
    lemma_passes_within("--option"@, e.nix_options, head, cmd + extra);
    assert(args == (head + o + cmd) + extra);
    assert(args.subrange(args.len() - extra.len(), args.len() as int) == extra);
    if let Some(c) = command {
        assert(cmd == seq!["--command"@, c]);
        assert(args[args.len() - extra.len() - 2] == cmd[0]);
        assert(args[args.len() - extra.len() - 1] == cmd[1]);
    }
}

/// Creating a garbage collection root passes on every expression argument and builder option.
pub proof fn law_create_root_passes_arguments(
    path: Seq<char>,
    a: Seq<Seq<char>>,
    e: EvalArgsView,
    root: Seq<char>,
    compat: Seq<char>,
)
    ensures
        passes_user_args(create_root_args(path, a, e, root, compat), e),
{
    let args = create_root_args(path, a, e, root, compat);
    let o = flagged_pairs("--option"@, leading_pairs(e.nix_options));
    let x = flagged_pairs("--arg"@, leading_pairs(e.add_eval_args));
    let tail = seq!["--indirect"@, "--add-root"@, root];
    let head = seq!["-A"@, crate::location::attribute_path::attribute_path_text(a)] + crate::nix::source_args(
        e.flake_compat,
        compat,
        path,
    );
    assert(args == head + x + (o + tail));
    lemma_passes_within("--arg"@, e.add_eval_args, head, o + tail);
    assert(args == (head + x) + o + tail);
    lemma_passes_within("--option"@, e.nix_options, head + x, tail);
}

/// `args` holds `a` and `b` one after the other.
pub open spec fn has_pair(args: Seq<Seq<char>>, a: Seq<char>, b: Seq<char>) -> bool {
    exists|j: int| 0 <= j && j + 1 < args.len() && #[trigger] args[j] == a && args[j + 1] == b
}

/// `args` names the file at `path`: through `--arg path <path>` applied to the flake
/// compatibility expression `compat` (passed with `--expr`) where that is on, as the file
/// itself otherwise.
pub open spec fn names_file(args: Seq<Seq<char>>, flake_compat: bool, compat: Seq<char>, path: Seq<char>) -> bool {
    if flake_compat {
        has_triple(args, "--arg"@, "path"@, path) && has_pair(args, "--expr"@, compat)
    } else {
        args.contains(path)
    }
}

/// `args` selects the attribute `a` with `-A`, where it is not the toplevel.
pub open spec fn selects_attribute(args: Seq<Seq<char>>, a: Seq<Seq<char>>) -> bool {
    a.len() > 0 ==> has_pair(args, "-A"@, attribute_path_text(a))
}

proof fn lemma_names_file_within(p: Seq<Seq<char>>, q: Seq<Seq<char>>, flake_compat: bool, compat: Seq<char>, path: Seq<char>)
    ensures
        names_file(p + source_args(flake_compat, compat, path) + q, flake_compat, compat, path),
{
    let s = source_args(flake_compat, compat, path);
    let t = p + s + q;
    if flake_compat {
        let n: int = p.len() as int;
        assert(t[n + 2] == s[2] && t[n + 3] == s[3] && t[n + 4] == s[4]);
        assert(t[n] == s[0] && t[n + 1] == s[1]);
        assert(has_triple(t, "--arg"@, "path"@, path));
        assert(has_pair(t, "--expr"@, compat));
    } else {
        assert(t[p.len() as int] == path);
    }
}

proof fn lemma_selects_within(p: Seq<Seq<char>>, q: Seq<Seq<char>>, a: Seq<Seq<char>>)
    ensures
        selects_attribute(p + attribute_args(a) + q, a),
{
    let t = p + attribute_args(a) + q;
    if a.len() > 0 {
        let n: int = p.len() as int;
        assert(t[n] == "-A"@ && t[n + 1] == attribute_path_text(a));
    }
}

/// A local build names the file and selects the attribute, and keeps no out-link where
/// out-links are not allowed.
pub proof fn law_build_names_its_output(
    path: Seq<char>,
    a: Seq<Seq<char>>,
    allow_out_links: bool,
    e: EvalArgsView,
    extra: Seq<Seq<char>>,
    compat: Seq<char>,
    nom: bool,
)
    ensures
        names_file(build_args(path, a, allow_out_links, e, extra, compat, nom), e.flake_compat, compat, path),
        selects_attribute(build_args(path, a, allow_out_links, e, extra, compat, nom), a),
        !allow_out_links ==> build_args(path, a, allow_out_links, e, extra, compat, nom).contains("--no-out-link"@),
{
    let args = build_args(path, a, allow_out_links, e, extra, compat, nom);
    let p = seq!["--log-format"@, "bar"@];
    let s = source_args(e.flake_compat, compat, path);
    let at = attribute_args(a);
    let links = if allow_out_links {
        Seq::<Seq<char>>::empty()
    } else {
        seq!["--no-out-link"@]
    };
    let rest = crate::nix::option_args(e) + crate::nix::expression_arg_args(e) + extra + (if nom {
        seq!["--log-format"@, "internal-json"@]
    } else {
        Seq::empty()
    });
    assert(args == p + s + (at + links + rest));
    lemma_names_file_within(p, at + links + rest, e.flake_compat, compat, path);
    assert(args == (p + s) + at + (links + rest));
    lemma_selects_within(p + s, links + rest, a);
    if !allow_out_links {
        assert(args[(p + s + at).len() as int] == "--no-out-link"@);
    }
}

/// Evaluating names the file and selects the attribute.
pub proof fn law_eval_names_its_attribute(
    path: Seq<char>,
    a: Seq<Seq<char>>,
    e: EvalArgsView,
    extra: Seq<Seq<char>>,
    compat: Seq<char>,
)
    ensures
        names_file(eval_command_args(path, a, e, extra, compat), e.flake_compat, compat, path),
        selects_attribute(eval_command_args(path, a, e, extra, compat), a),
        eval_command_args(path, a, e, extra, compat)[0] == "--eval"@,
{
    let args = eval_command_args(path, a, e, extra, compat);
    let p = seq!["--eval"@];
    let s = source_args(e.flake_compat, compat, path);
    let at = attribute_args(a);
    let rest = crate::nix::expression_arg_args(e) + crate::nix::option_args(e) + extra;
    assert(args == p + s + (at + rest));
    lemma_names_file_within(p, at + rest, e.flake_compat, compat, path);
    assert(args == (p + s) + at + rest);
    lemma_selects_within(p + s, rest, a);
}

/// A development shell names the file and selects the attribute.
pub proof fn law_dev_shell_names_its_attribute(
    path: Seq<char>,
    a: Seq<Seq<char>>,
    e: EvalArgsView,
    command: Option<Seq<char>>,
    extra: Seq<Seq<char>>,
    compat: Seq<char>,
    shell: Option<Seq<char>>,
)
    ensures
        names_file(dev_shell_args(path, a, e, command, extra, compat, shell), e.flake_compat, compat, path),
        has_pair(dev_shell_args(path, a, e, command, extra, compat, shell), "-A"@, attribute_path_text(a)),
{
    let args = dev_shell_args(path, a, e, command, extra, compat, shell);
    let p = seq!["-A"@, attribute_path_text(a)];
    let s = source_args(e.flake_compat, compat, path);
    let rest = crate::nix::expression_arg_args(e) + crate::nix::option_args(e) + crate::nix::command_args(command, shell)
        + extra;
    assert(args == p + s + rest);
    lemma_names_file_within(p, rest, e.flake_compat, compat, path);
    assert(args[0] == "-A"@ && args[1] == attribute_path_text(a));
}

/// Creating a garbage collection root names the file, selects the attribute, and adds `root`
/// as an indirect root.
pub proof fn law_create_root_names_its_root(
    path: Seq<char>,
    a: Seq<Seq<char>>,
    e: EvalArgsView,
    root: Seq<char>,
    compat: Seq<char>,
)
    ensures
        names_file(create_root_args(path, a, e, root, compat), e.flake_compat, compat, path),
        has_pair(create_root_args(path, a, e, root, compat), "-A"@, attribute_path_text(a)),
        create_root_args(path, a, e, root, compat).contains("--indirect"@),
        has_pair(create_root_args(path, a, e, root, compat), "--add-root"@, root),
{
    let args = create_root_args(path, a, e, root, compat);
    let p = seq!["-A"@, attribute_path_text(a)];
    let s = source_args(e.flake_compat, compat, path);
    let tail = seq!["--indirect"@, "--add-root"@, root];
    let rest = crate::nix::expression_arg_args(e) + crate::nix::option_args(e) + tail;
    assert(args == p + s + rest);
    lemma_names_file_within(p, rest, e.flake_compat, compat, path);
    assert(args[0] == "-A"@ && args[1] == attribute_path_text(a));
    let n = args.len();
    assert(args[n - 3] == "--indirect"@ && args[n - 2] == "--add-root"@ && args[n - 1] == root);
}

proof fn lemma_packages_passed(paths: Seq<Seq<char>>, i: int)
    requires
        0 <= i < paths.len(),
    ensures
        has_pair(package_args(paths), "-p"@, paths[i]),
    decreases paths.len(),
{
    let rest = package_args(paths.drop_first());
    assert(package_args(paths) == seq!["-p"@, paths[0]] + rest);
    if i == 0 {
        assert(package_args(paths)[0] == "-p"@ && package_args(paths)[1] == paths[0]);
    } else {
        assert(paths.drop_first()[i - 1] == paths[i]);
        lemma_packages_passed(paths.drop_first(), i - 1);
        let j = choose|j: int| 0 <= j && j + 1 < rest.len() && #[trigger] rest[j] == "-p"@ && rest[j + 1] == paths[i];
        assert(package_args(paths)[j + 2] == rest[j]);
        assert(package_args(paths)[j + 3] == rest[j + 1]);
    }
}

/// A shell with packages adds every one of them with `-p`.
pub proof fn law_shell_adds_every_package(
    paths: Seq<Seq<char>>,
    command: Option<Seq<char>>,
    e: EvalArgsView,
    extra: Seq<Seq<char>>,
    shell: Option<Seq<char>>,
)
    ensures
        forall|i: int| 0 <= i < paths.len() ==> has_pair(shell_args(paths, command, e, extra, shell), "-p"@, #[trigger] paths[i]),
{
    let args = shell_args(paths, command, e, extra, shell);
    let rest = crate::nix::option_args(e) + crate::nix::command_args(command, shell) + extra;
    assert(args == package_args(paths) + rest);
    assert forall|i: int| 0 <= i < paths.len() implies has_pair(args, "-p"@, #[trigger] paths[i]) by {
        lemma_packages_passed(paths, i);
        let j = choose|j: int| 0 <= j && j + 1 < package_args(paths).len() && #[trigger] package_args(paths)[j] == "-p"@
            && package_args(paths)[j + 1] == paths[i];
        assert(args[j] == package_args(paths)[j] && args[j + 1] == package_args(paths)[j + 1]);
    }
}

/// Without a command, a shell (with packages or a development shell) starts the user's
/// `$SHELL` where it is set, with `SHELL` set to it, right before the extra arguments.
pub proof fn law_shells_start_the_users_shell(
    paths: Seq<Seq<char>>,
    path: Seq<char>,
    a: Seq<Seq<char>>,
    e: EvalArgsView,
    extra: Seq<Seq<char>>,
    compat: Seq<char>,
    sh: Seq<char>,
)
    ensures
        runs_command_before(shell_args(paths, None, e, extra, Some(sh)), "SHELL="@ + sh + seq![' '] + sh, extra),
        runs_command_before(
            dev_shell_args(path, a, e, None, extra, compat, Some(sh)),
            "SHELL="@ + sh + seq![' '] + sh,
            extra,
        ),
{
    let c = "SHELL="@ + sh + seq![' '] + sh;
    let cmd = crate::nix::command_args(None, Some(sh));
    assert(cmd == seq!["--command"@, c]);
    let s1 = shell_args(paths, None, e, extra, Some(sh));
    let h1 = package_args(paths) + crate::nix::option_args(e);
    assert(s1 == h1 + cmd + extra);
    assert(s1.subrange(s1.len() - extra.len(), s1.len() as int) == extra);
    assert(s1[s1.len() - extra.len() - 2] == cmd[0] && s1[s1.len() - extra.len() - 1] == cmd[1]);
    let s2 = dev_shell_args(path, a, e, None, extra, compat, Some(sh));
    let h2 = seq!["-A"@, attribute_path_text(a)] + source_args(e.flake_compat, compat, path)
        + crate::nix::expression_arg_args(e) + crate::nix::option_args(e);
    assert(s2 == h2 + cmd + extra);
    assert(s2.subrange(s2.len() - extra.len(), s2.len() as int) == extra);
    assert(s2[s2.len() - extra.len() - 2] == cmd[0] && s2[s2.len() - extra.len() - 1] == cmd[1]);
}

} // verus!
