//! The messages that inform the user about what `nie` does. A message is a list of segments,
//! each with the emphasis it is shown with.
use vstd::prelude::*;

use crate::location::attribute_path::attribute_path_user_text;
use crate::location::file_reference::{file_reference_text, NixFileReferenceView};
use crate::location::repo_reference::{repository_reference_text, RepositoryReferenceView};
use crate::location::{AttributePath, RepositoryReference};
use crate::store::file::{NixFile, NixFileView};
use crate::text::{decimal, decimal_string, owned, push_str};

verus! {

broadcast use vstd::seq_lib::group_seq_properties;

/// How a segment of a message is emphasized.
#[derive(Debug, Clone, Copy, PartialEq, Eq, Structural)]
pub enum Style {
    Plain,
    Underline,
    Italic,
}

/// A piece of a message and its emphasis.
#[derive(Debug)]
pub struct Segment {
    pub text: String,
    pub style: Style,
}

/// The abstract value of a message: its pieces and their emphasis, in order.
pub open spec fn message_view(m: Seq<Segment>) -> Seq<(Seq<char>, Style)> {
    m.map_values(|s: Segment| (s.text@, s.style))
}

/// A plain piece.
pub open spec fn plain(t: Seq<char>) -> (Seq<char>, Style) {
    (t, Style::Plain)
}

/// An underlined piece.
pub open spec fn underlined(t: Seq<char>) -> (Seq<char>, Style) {
    (t, Style::Underline)
}

/// An italic piece.
pub open spec fn italic(t: Seq<char>) -> (Seq<char>, Style) {
    (t, Style::Italic)
}

/// The reference of a file, as text.
pub open spec fn file_text(f: NixFileView) -> Seq<char> {
    file_reference_text(NixFileReferenceView { repository: f.checkout.repository, filename: f.filename })
}

/// The message about fetching repositories: none, one, two or three are named, of more the
/// first two are named and the others counted.
pub open spec fn fetch_multiple_message(rs: Seq<RepositoryReferenceView>) -> Seq<(Seq<char>, Style)> {
    let t = |r: RepositoryReferenceView| repository_reference_text(r);
    if rs.len() == 0 {
        seq![plain("Fetching "@)]
    } else if rs.len() == 1 {
        seq![plain("Fetching "@), underlined(t(rs[0]))]
    } else if rs.len() == 2 {
        seq![plain("Fetching "@), underlined(t(rs[0])), plain(" and "@), underlined(t(rs[1]))]
    } else if rs.len() == 3 {
        seq![
            plain("Fetching "@),
            underlined(t(rs[0])),
            plain(", "@),
            underlined(t(rs[1])),
            plain(" and "@),
            underlined(t(rs[2])),
        ]
    } else {
        seq![
            plain("Fetching "@),
            underlined(t(rs[0])),
            plain(", "@),
            underlined(t(rs[1])),
            plain(" and "@ + decimal((rs.len() - 2) as nat) + " more"@),
        ]
    }
}

/// `" with flake_compat"` where the flag is set.
pub open spec fn flake_compat_note(flake_compat: bool) -> Seq<char> {
    if flake_compat {
        " with flake_compat"@
    } else {
        Seq::empty()
    }
}

/// The message about building an attribute of a file.
pub open spec fn build_message(
    attr: Seq<Seq<char>>,
    f: NixFileView,
    flake_compat: bool,
    remote: Option<Seq<char>>,
) -> Seq<(Seq<char>, Style)> {
    seq![
        plain("Building "@),
        italic(attribute_path_user_text(attr)),
        plain(" from ("@),
        underlined(file_text(f)),
        plain(")"@ + flake_compat_note(flake_compat) + match remote {
            Some(r) => " on "@ + r,
            None => Seq::empty(),
        }),
    ]
}

/// A segment.
fn seg(text: String, style: Style) -> (r: Segment)
    ensures
        r.text@ == text@,
        r.style == style,
{
    Segment { text, style }
}

/// The message about fetching repositories (see [`fetch_multiple_message`]).
pub fn inform_fetch_multiple(repos: &[RepositoryReference]) -> (r: Vec<Segment>)
    ensures
        message_view(r@) == fetch_multiple_message(repos@.map_values(|x: RepositoryReference| x@)),
{
    let ghost rs = repos@.map_values(|x: RepositoryReference| x@);
    let mut m: Vec<Segment> = Vec::new();
    m.push(seg(owned("Fetching "), Style::Plain));
    let n = repos.len();
    if n >= 1 {
        m.push(seg(repos[0].to_string(), Style::Underline));
    }
    if n == 2 {
        m.push(seg(owned(" and "), Style::Plain));
        m.push(seg(repos[1].to_string(), Style::Underline));
    } else if n == 3 {
        m.push(seg(owned(", "), Style::Plain));
        m.push(seg(repos[1].to_string(), Style::Underline));
        m.push(seg(owned(" and "), Style::Plain));
        m.push(seg(repos[2].to_string(), Style::Underline));
    } else if n > 3 {
        m.push(seg(owned(", "), Style::Plain));
        m.push(seg(repos[1].to_string(), Style::Underline));
        let mut more = owned(" and ");
        let count = decimal_string((n - 2) as u64);
        push_str(&mut more, count.as_str());
        push_str(&mut more, " more");
        m.push(seg(more, Style::Plain));
    }
    assert(message_view(m@) =~= fetch_multiple_message(rs));
    m
}

/// The remark that ends a message about building or evaluating.
fn build_tail(flake_compat: bool, remote: Option<&str>) -> (r: String)
    ensures
        r@ == ")"@ + flake_compat_note(flake_compat) + match remote {
            Some(x) => " on "@ + x@,
            None => Seq::<char>::empty(),
        },
{
    let mut t = owned(")");
    if flake_compat {
        push_str(&mut t, " with flake_compat");
    }
    if let Some(x) = remote {
        push_str(&mut t, " on ");
        push_str(&mut t, x);
    }
    t
}

/// The message about building `attr` of `file` (see [`build_message`]).
pub fn inform_build(attr: &AttributePath, file: &NixFile, flake_compat: bool, remote: Option<&str>) -> (r: Vec<
    Segment,
>)
    ensures
        message_view(r@) == build_message(
            attr@,
            file@,
            flake_compat,
            match remote {
                Some(x) => Some(x@),
                None => None,
            },
        ),
{
    let mut m: Vec<Segment> = Vec::new();
    m.push(seg(owned("Building "), Style::Plain));
    m.push(seg(attr.to_string_user(), Style::Italic));
    m.push(seg(owned(" from ("), Style::Plain));
    m.push(seg(file.reference().to_string(), Style::Underline));
    m.push(seg(build_tail(flake_compat, remote), Style::Plain));
    assert(message_view(m@) =~= build_message(
        attr@,
        file@,
        flake_compat,
        match remote {
            Some(x) => Some(x@),
            None => None,
        },
    ));
    m
}

/// The message about evaluating `attr` of `file`: worded as that about building it locally.
pub fn inform_eval(attr: &AttributePath, file: &NixFile, flake_compat: bool) -> (r: Vec<Segment>)
    ensures
        message_view(r@) == build_message(attr@, file@, flake_compat, None),
{
    inform_build(attr, file, flake_compat, None)
}

/// The message about creating the gc root `root` for the derivation of `attr` of `file`.
pub fn inform_create_gc_root(root: &str, attr: &AttributePath, file: &NixFile) -> (r: Vec<Segment>)
    ensures
        message_view(r@) == seq![
            plain("Creating gc root "@ + root@ + " for derivation of "@),
            italic(attribute_path_user_text(attr@)),
            plain(" ("@),
            underlined(file_text(file@)),
            plain(")"@),
        ],
{
    let mut head = owned("Creating gc root ");
    push_str(&mut head, root);
    push_str(&mut head, " for derivation of ");
    let mut m: Vec<Segment> = Vec::new();
    m.push(seg(head, Style::Plain));
    m.push(seg(attr.to_string_user(), Style::Italic));
    m.push(seg(owned(" ("), Style::Plain));
    m.push(seg(file.reference().to_string(), Style::Underline));
    m.push(seg(owned(")"), Style::Plain));
    assert(message_view(m@) =~= seq![
        plain("Creating gc root "@ + root@ + " for derivation of "@),
        italic(attribute_path_user_text(attr@)),
        plain(" ("@),
        underlined(file_text(file@)),
        plain(")"@),
    ]);
    m
}

/// A message of one plain segment.
fn plain_message(text: String) -> (r: Vec<Segment>)
    ensures
        message_view(r@) == seq![plain(text@)],
{
    let mut m: Vec<Segment> = Vec::new();
    m.push(seg(text, Style::Plain));
    assert(message_view(m@) =~= seq![plain(text@)]);
    m
}

/// The message about entering a shell with `n_paths` added paths.
pub fn inform_enter_shell(n_paths: usize) -> (r: Vec<Segment>)
    ensures
        message_view(r@) == seq![plain("Entering shell with "@ + decimal(n_paths as nat) + " added paths"@)],
{
    let mut t = owned("Entering shell with ");
    let d = decimal_string(n_paths as u64);
    push_str(&mut t, d.as_str());
    push_str(&mut t, " added paths");
    plain_message(t)
}

/// The message about entering the development shell `attr` of `file`.
pub fn inform_enter_dev_shell(attr: &AttributePath, file: &NixFile) -> (r: Vec<Segment>)
    ensures
        message_view(r@) == seq![
            plain("Entering dev shell "@),
            italic(attribute_path_user_text(attr@)),
            plain(" from "@),
            underlined(file_text(file@)),
        ],
{
    let mut m: Vec<Segment> = Vec::new();
    m.push(seg(owned("Entering dev shell "), Style::Plain));
    m.push(seg(attr.to_string_user(), Style::Italic));
    m.push(seg(owned(" from "), Style::Plain));
    m.push(seg(file.reference().to_string(), Style::Underline));
    assert(message_view(m@) =~= seq![
        plain("Entering dev shell "@),
        italic(attribute_path_user_text(attr@)),
        plain(" from "@),
        underlined(file_text(file@)),
    ]);
    m
}

/// The message about creating and entering the development shell `attr` of `file`: worded as
/// that about entering it.
pub fn inform_create_dev_shell(attr: &AttributePath, file: &NixFile) -> (r: Vec<Segment>)
    ensures
        message_view(r@) == seq![
            plain("Entering dev shell "@),
            italic(attribute_path_user_text(attr@)),
            plain(" from "@),
            underlined(file_text(file@)),
        ],
{
    inform_enter_dev_shell(attr, file)
}

/// The message about entering a pinned development shell whose link is `link_age_secs`
/// seconds old; the age is told in whole days.
pub fn inform_create_dev_shell_pinned(link_age_secs: u64) -> (r: Vec<Segment>)
    ensures
        message_view(r@) == seq![
            plain(
                "Entering dev shell from local pin ("@ + decimal((link_age_secs / 86400) as nat)
                    + " days old)"@,
            ),
        ],
{
    let mut t = owned("Entering dev shell from local pin (");
    let d = decimal_string(link_age_secs / (24 * 60 * 60));
    push_str(&mut t, d.as_str());
    push_str(&mut t, " days old)");
    plain_message(t)
}

/// The message about running the program at `bin_path`.
pub fn inform_run_binary(bin_path: &str) -> (r: Vec<Segment>)
    ensures
        message_view(r@) == seq![plain("Executing "@ + bin_path@)],
{
    let mut t = owned("Executing ");
    push_str(&mut t, bin_path);
    plain_message(t)
}

/// The message about opening the manual page at `man_path`.
pub fn inform_open_man(man_path: &str) -> (r: Vec<Segment>)
    ensures
        message_view(r@) == seq![plain("Opening man page "@ + man_path@)],
{
    let mut t = owned("Opening man page ");
    push_str(&mut t, man_path);
    plain_message(t)
}

/// The message about initializing `destination` from the template at `source`.
pub fn inform_init_from_template(destination: &str, source: &str) -> (r: Vec<Segment>)
    ensures
        message_view(r@) == seq![plain("Initializing "@ + destination@ + " from "@ + source@)],
{
    let mut t = owned("Initializing ");
    push_str(&mut t, destination);
    push_str(&mut t, " from ");
    push_str(&mut t, source);
    plain_message(t)
}

/// The message about initializing the file `destination`.
pub fn inform_init_shell_nix(destination: &str) -> (r: Vec<Segment>)
    ensures
        message_view(r@) == seq![plain("Initializing "@ + destination@)],
{
    let mut t = owned("Initializing ");
    push_str(&mut t, destination);
    plain_message(t)
}

/// The message about fetching one repository.
pub fn inform_fetch(repo: &RepositoryReference) -> (r: Vec<Segment>)
    ensures
        message_view(r@) == seq![plain("Fetching "@), underlined(repository_reference_text(repo@))],
{
    let mut m: Vec<Segment> = Vec::new();
    m.push(seg(owned("Fetching "), Style::Plain));
    m.push(seg(repo.to_string(), Style::Underline));
    assert(message_view(m@) =~= seq![plain("Fetching "@), underlined(repository_reference_text(repo@))]);
    m
}

/// The text of an announcement: `=> ` before the topic.
pub fn announcement(s: &str) -> (r: String)
    ensures
        r@ == "=> "@ + s@,
{
    let mut t = owned("=> ");
    push_str(&mut t, s);
    t
}

} // verus!
