//! File system paths, held as strings.
//!
//! Paths are joined as `std::path::Path::join` does on Unix: an absolute component replaces
//! the path, otherwise a `/` separates the two unless the first is empty or already ends in one.
use vstd::prelude::*;

use crate::text::{chars_of, owned, push_char, push_str, starts_with, starts_with_str};

verus! {

/// `base` joined with `child` (`Path::join` on Unix).
pub open spec fn path_join(base: Seq<char>, child: Seq<char>) -> Seq<char> {
    if child.len() > 0 && child[0] == '/' {
        child
    } else if base.len() > 0 && base.last() != '/' {
        base + seq!['/'] + child
    } else {
        base + child
    }
}

/// `base` joined with `child` (`Path::join` on Unix).
pub fn join_path(base: &str, child: &str) -> (r: String)
    ensures
        r@ == path_join(base@, child@),
{
    let c = chars_of(child);
    if c.len() > 0 && c[0] == '/' {
        return owned(child);
    }
    let b = chars_of(base);
    let mut r = owned(base);
    if b.len() > 0 && b[b.len() - 1] != '/' {
        push_char(&mut r, '/');
    }
    push_str(&mut r, child);
    r
}

/// The canonical store directory.
pub open spec fn nix_store_dir() -> Seq<char> {
    "/nix/store"@
}

/// For a canonical absolute path (no `.`, `..`, doubled or trailing `/`): the path lies in the
/// Nix store, i.e. its components start with those of `/nix/store` (`Path::starts_with`).
pub open spec fn in_nix_store(p: Seq<char>) -> bool {
    p == nix_store_dir() || starts_with(p, nix_store_dir() + seq!['/'])
}

/// Whether the canonical path `p` lies in the Nix store (see [`in_nix_store`]).
pub fn is_in_nix_store(p: &str) -> (r: bool)
    ensures
        r == in_nix_store(p@),
{
    proof {
        reveal_strlit("/nix/store");
        reveal_strlit("/nix/store/");
    }
    assert("/nix/store/"@ == "/nix/store"@ + seq!['/']);
    crate::text::str_eq(p, "/nix/store") || starts_with_str(p, "/nix/store/")
}

} // verus!
