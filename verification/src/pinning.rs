//! Pinned development shells: a project directory whose `.nie-dev-shell` directory holds links
//! to a built development shell and the reference it was built from.
use vstd::prelude::*;

use crate::error::NieError;
use crate::eval_args::EvalArgs;
use crate::location::attribute_path::strings_view;
use crate::location::AttributePath;
use crate::nix::{dev_shell, dev_shell_args, Invocation};
use crate::paths::{in_nix_store, is_in_nix_store, join_path, path_join};
use crate::text::{chars_of, decimal, decimal_string, owned, push_str};

verus! {

broadcast use vstd::seq_lib::group_seq_properties;

/// The directory of a project that holds its pin.
pub const DEV_SHELL_DIR: &'static str = ".nie-dev-shell";

/// The link to the pinned shell's derivation.
pub const DEV_SHELL_DRV_LINK: &'static str = "drv";

/// The link that keeps the pinned shell's build from being collected.
pub const DEV_SHELL_GCROOT_LINK: &'static str = "path";

/// The file that holds the reference the shell was pinned from.
pub const DEV_SHELL_REF_FILE: &'static str = "ref";

/// The pin directory of a project directory.
pub open spec fn pin_dir_of(project: Seq<char>) -> Seq<char> {
    path_join(project, ".nie-dev-shell"@)
}

/// A project directory with a pinned development shell.
#[derive(Debug)]
pub struct PinnedShell {
    dir: String,
}

impl View for PinnedShell {
    type V = Seq<char>;

    /// The project directory.
    closed spec fn view(&self) -> Seq<char> {
        self.dir@
    }
}

/// The decimal digit that `c` is, if it is one.
pub open spec fn digit_value(c: char) -> Option<nat> {
    if '0' <= c && c <= '9' {
        Some((c as int - '0' as int) as nat)
    } else {
        None
    }
}

/// The number that a string of decimal digits denotes; `None` if some character is not a digit.
pub open spec fn digits_value(s: Seq<char>) -> Option<nat>
    decreases s.len(),
{
    if s.len() == 0 {
        Some(0)
    } else {
        match (digits_value(s.drop_last()), digit_value(s.last())) {
            (Some(v), Some(d)) => Some(v * 10 + d),
            _ => None,
        }
    }
}

/// What `u32`'s `FromStr` reads from `s`: an optional `+` and at least one decimal digit, of a
/// value that fits in a `u32`.
pub open spec fn parsed_u32(s: Seq<char>) -> Option<u32> {
    let digits = if s.len() > 0 && s[0] == '+' {
        s.drop_first()
    } else {
        s
    };
    if digits.len() == 0 {
        None
    } else {
        match digits_value(digits) {
            Some(v) => if v <= u32::MAX {
                Some(v as u32)
            } else {
                None
            },
            None => None,
        }
    }
}

/// Reads a process id as `u32`'s `FromStr` does (see [`parsed_u32`]).
pub fn parse_u32(s: &str) -> (r: Option<u32>)
    ensures
        r == parsed_u32(s@),
{
    let cs = chars_of(s);
    let start: usize = if cs.len() > 0 && cs[0] == '+' {
        1
    } else {
        0
    };
    assert(cs@.skip(start as int) == (if s@.len() > 0 && s@[0] == '+' {
        s@.drop_first()
    } else {
        s@
    }));
    if start >= cs.len() {
        return None;
    }
    parse_digits(&cs, start)
}

/// The number that the digits of `cs` from `start` on denote, where it fits in a `u32`.
#[verifier::spinoff_prover]
fn parse_digits(cs: &Vec<char>, start: usize) -> (r: Option<u32>)
    requires
        start < cs@.len(),
    ensures
        r == (match digits_value(cs@.skip(start as int)) {
            Some(v) => if v <= u32::MAX {
                Some(v as u32)
            } else {
                None
            },
            None => None,
        }),
{
    let ghost ds = cs@.skip(start as int);
    let mut v: u64 = 0;
    let mut i: usize = start;
    assert(ds.take(0) == Seq::<char>::empty());
    while i < cs.len()
        invariant
            start < cs@.len(),
            ds == cs@.skip(start as int),
            start <= i <= cs@.len(),
            digits_value(ds.take(i - start)) == Some(v as nat),
            v <= u32::MAX,
        decreases cs.len() - i,
    {
        let ghost next = ds.take(i + 1 - start);
        assert(next.drop_last() == ds.take(i - start));
        assert(next.last() == cs@[i as int]);
        let c = cs[i];
        if c < '0' || c > '9' {
            assert(digit_value(c) is None);
            proof {
                lemma_digits_none_extends(ds, (i + 1 - start) as int);
            }
            return None;
        }
        let d: u64 = (c as u32 - '0' as u32) as u64;
        let w: u64 = v * 10 + d;
        assert(digits_value(next) == Some(w as nat));
        if w > u32::MAX as u64 {
            proof {
                lemma_digits_grow(ds, (i + 1 - start) as int);
            }
            return None;
        }
        v = w;
        i = i + 1;
    }
    assert(ds.take(i - start) == ds);
    Some(v as u32)
}

/// A string with a non-digit in its first `n` characters denotes no number.
proof fn lemma_digits_none_extends(s: Seq<char>, n: int)
    requires
        0 < n <= s.len(),
        digits_value(s.take(n)) is None,
    ensures
        digits_value(s) is None,
    decreases s.len() - n,
{
    if n < s.len() {
        assert(s.take(n + 1).drop_last() == s.take(n));
        lemma_digits_none_extends(s, n + 1);
    } else {
        assert(s.take(n) == s);
    }
}

/// The value of a prefix of digits is at most that of a longer one.
proof fn lemma_digits_grow(s: Seq<char>, n: int)
    requires
        0 < n <= s.len(),
        digits_value(s.take(n)) matches Some(v) && v > u32::MAX,
    ensures
        digits_value(s) is None || digits_value(s).unwrap() > u32::MAX,
    decreases s.len() - n,
{
    if n < s.len() {
        let t = s.take(n + 1);
        assert(t.drop_last() == s.take(n));
        if let Some(v) = digits_value(t) {
            let w = digits_value(s.take(n)).unwrap();
            assert(v >= w * 10) by (nonlinear_arith)
                requires
                    v == w * 10 + digit_value(t.last()).unwrap(),
            ;
            lemma_digits_grow(s, n + 1);
        } else {
            lemma_digits_none_extends(s, n + 1);
        }
    } else {
        assert(s.take(n) == s);
    }
}

/// The lines of shell code that return from a shell that was left for another directory: if
/// the link is there, change to where it points and remove it.
pub open spec fn reverse_cd_script_of(link: Seq<char>, target: Seq<char>) -> Seq<char> {
    "if [ -L \""@ + link + "\" ]; then cd \""@ + target + "\"; unlink \""@ + link + "\"; fi"@
}

/// The shell code that returns to the directory the link `link` points to (`target`).
pub fn reverse_cd_script(link: &str, target: &str) -> (r: String)
    ensures
        r@ == reverse_cd_script_of(link@, target@),
{
    let mut s = owned("if [ -L \"");
    push_str(&mut s, link);
    push_str(&mut s, "\" ]; then cd \"");
    push_str(&mut s, target);
    push_str(&mut s, "\"; unlink \"");
    push_str(&mut s, link);
    push_str(&mut s, "\"; fi");
    s
}

impl PinnedShell {
    /// The pin directory that a project directory would have.
    pub fn pin_dir_for(project: &str) -> (r: String)
        ensures
            r@ == pin_dir_of(project@),
    {
        join_path(project, DEV_SHELL_DIR)
    }

    /// The pinned shell of the project directory `path`, given whether its pin directory
    /// exists; without one there is no pinned shell.
    pub fn new(path: String, pin_exists: bool) -> (r: Result<Self, NieError>)
        ensures
            pin_exists ==> (r matches Ok(p) && p@ == path@),
            !pin_exists ==> (r matches Err(NieError::PinnedShellNotFound(e)) && e@ == path@),
    {
        if !pin_exists {
            Err(NieError::PinnedShellNotFound(path))
        } else {
            Ok(PinnedShell { dir: path })
        }
    }

    /// The project directory.
    pub fn project_dir(&self) -> (r: String)
        ensures
            r@ == self@,
    {
        self.dir.clone()
    }

    /// The pin directory.
    pub fn pin_dir(&self) -> (r: String)
        ensures
            r@ == pin_dir_of(self@),
    {
        join_path(self.dir.as_str(), DEV_SHELL_DIR)
    }

    /// The link to the pinned shell's derivation.
    pub fn drv_link(&self) -> (r: String)
        ensures
            r@ == path_join(pin_dir_of(self@), "drv"@),
    {
        let d = self.pin_dir();
        join_path(d.as_str(), DEV_SHELL_DRV_LINK)
    }

    /// The link that keeps the pinned shell's build from being collected.
    pub fn gcroot_link(&self) -> (r: String)
        ensures
            r@ == path_join(pin_dir_of(self@), "path"@),
    {
        let d = self.pin_dir();
        join_path(d.as_str(), DEV_SHELL_GCROOT_LINK)
    }

    /// The file that holds the reference the shell was pinned from.
    pub fn ref_file(&self) -> (r: String)
        ensures
            r@ == path_join(pin_dir_of(self@), "ref"@),
    {
        let d = self.pin_dir();
        join_path(d.as_str(), DEV_SHELL_REF_FILE)
    }

    /// The link by which the shell started from process `pid` finds its way back.
    pub fn recd_link(&self, pid: u32) -> (r: String)
        ensures
            r@ == path_join(pin_dir_of(self@), "tmp_recd_"@ + decimal(pid as nat)),
    {
        let d = self.pin_dir();
        let mut name = owned("tmp_recd_");
        let n = decimal_string(pid as u64);
        push_str(&mut name, n.as_str());
        join_path(d.as_str(), name.as_str())
    }

    /// Whether the pin is safe to enter: its derivation link leads into the Nix store (given as
    /// the link's canonical path) and the pin directory is not registered with git.
    pub fn is_safe(canonical_drv_link: &str, git_registered: bool) -> (r: bool)
        ensures
            r == (in_nix_store(canonical_drv_link@) && !git_registered),
    {
        is_in_nix_store(canonical_drv_link) && !git_registered
    }

    /// The invocation that tells whether the pin directory is registered with git: `git
    /// ls-files --error-unmatch`, which succeeds exactly for a registered path.
    pub fn git_registered_invocation(&self) -> (r: Invocation)
        ensures
            r.program@ == "git"@,
            strings_view(r.args@) == seq!["ls-files"@, "--error-unmatch"@, pin_dir_of(self@)],
    {
        let mut args: Vec<String> = Vec::new();
        args.push(owned("ls-files"));
        args.push(owned("--error-unmatch"));
        args.push(self.pin_dir());
        Invocation { program: owned("git"), args }
    }

    /// The invocation that enters the pinned shell: a development shell of the derivation the
    /// pin links to (see [`dev_shell()`]).
    pub fn enter_invocation(
        &self,
        command: Option<String>,
        eval_args: &EvalArgs,
        extra_args: &[String],
        compat_expr: &str,
        shell_env: Option<&str>,
    ) -> (r: Invocation)
        ensures
            r.program@ == "nix-shell"@,
            strings_view(r.args@) == dev_shell_args(
                path_join(pin_dir_of(self@), "drv"@),
                Seq::empty(),
                eval_args@,
                crate::text::opt_view(command),
                strings_view(extra_args@),
                compat_expr@,
                match shell_env {
                    Some(s) => Some(s@),
                    None => None,
                },
            ),
    {
        let link = self.drv_link();
        dev_shell(link.as_str(), &AttributePath::toplevel(), eval_args, command, extra_args, compat_expr, shell_env)
    }
}

} // verus!
