//! Outputs of Nix files: an attribute of a file, and what building it gave.
use vstd::prelude::*;

use crate::error::NieError;
use crate::eval_args::EvalArgs;
use crate::location::attribute_path::strings_view;
use crate::location::reference::NixReferenceView;
use crate::location::{AttributePath, NixReference};
use crate::nix::{
    build, build_args, build_remote, build_remote_args, create_root, create_root_args, dev_shell,
    dev_shell_args, eval, eval_command_args, Invocation,
};
use crate::location::file_reference::NixFileReferenceView;
use crate::paths::{join_path, path_join};
use crate::registry::{Registry, RegistryValue};
use crate::store::file::{file_path, NixFile, NixFileView};
use crate::text::{
    chars_of, decimal, decimal_string, join, join_str, opt_view, owned, push_str, split_char,
    split_str, str_eq,
};

verus! {

broadcast use vstd::seq_lib::group_seq_properties;

/// The abstract value of a [`NixOutput`].
pub struct NixOutputView {
    pub file: NixFileView,
    pub attr: Seq<Seq<char>>,
    pub built_paths: Option<Seq<Seq<char>>>,
}

/// An output of a checked-out Nix file: one of its attributes, and the paths that building it
/// gave once it was built.
pub struct NixOutput {
    file: NixFile,
    attr: AttributePath,
    built_paths: Option<Vec<String>>,
}

/// The abstract value of an optional list of strings.
pub open spec fn opt_strings_view(o: Option<Vec<String>>) -> Option<Seq<Seq<char>>> {
    match o {
        Some(v) => Some(strings_view(v@)),
        None => None,
    }
}

impl View for NixOutput {
    type V = NixOutputView;

    closed spec fn view(&self) -> NixOutputView {
        NixOutputView {
            file: self.file@,
            attr: self.attr@,
            built_paths: opt_strings_view(self.built_paths),
        }
    }
}

/// A copy of an optional list of strings.
fn clone_opt_strings(o: &Option<Vec<String>>) -> (r: Option<Vec<String>>)
    ensures
        opt_strings_view(r) == opt_strings_view(*o),
{
    match o {
        Some(v) => Some(crate::location::attribute_path::clone_strings(v)),
        None => None,
    }
}

impl Clone for NixOutput {
    fn clone(&self) -> (r: Self)
        ensures
            r@ == self@,
    {
        NixOutput {
            file: self.file.clone(),
            attr: self.attr.clone(),
            built_paths: clone_opt_strings(&self.built_paths),
        }
    }
}

impl RegistryValue for NixOutput {
    fn duplicate(&self) -> (r: Self) {
        self.clone()
    }
}

/// Whether `c` is alphabetic, as `char::is_alphabetic` tells (the Unicode `Alphabetic`
/// property).
pub uninterp spec fn spec_is_alphabetic(c: char) -> bool;

/// `char::is_alphabetic`. The contract claims that the answer depends on `c` alone and, for an
/// ASCII character, that exactly the letters `a`-`z` and `A`-`Z` are alphabetic (they have the
/// `Alphabetic` property, digits and punctuation do not); other characters are left to the name.
#[verifier::external_body]
fn is_alphabetic_char(c: char) -> (r: bool)
    ensures
        r == spec_is_alphabetic(c),
        (c as int) < 128 ==> (r <==> (('a' <= c && c <= 'z') || ('A' <= c && c <= 'Z'))),
{
    c.is_alphabetic()
}

/// Whether a piece of a path is a normal component (not empty, which a doubled or trailing `/`
/// leaves, and not `.`).
pub open spec fn is_normal_part(p: Seq<char>) -> bool {
    p.len() > 0 && p != "."@
}

/// The pieces of a path that are normal components: not empty (a doubled or trailing `/`) and
/// not `.`.
pub open spec fn normal_parts(ps: Seq<Seq<char>>) -> Seq<Seq<char>>
    decreases ps.len(),
{
    if ps.len() == 0 {
        Seq::empty()
    } else {
        (if is_normal_part(ps[0]) {
            seq![ps[0]]
        } else {
            Seq::empty()
        }) + normal_parts(ps.drop_first())
    }
}

/// The last component of a path, as `std::path::Path::file_name` gives it: the last component
/// after doubled and trailing separators and `.` components are skipped; none for a path
/// without one (empty, the root, `.`) or one ending in `..`.
pub open spec fn spec_file_name(p: Seq<char>) -> Option<Seq<char>> {
    let n = normal_parts(split_char(p, '/'));
    if n.len() == 0 || n.last() == ".."@ {
        None
    } else {
        Some(n.last())
    }
}

proof fn lemma_normal_parts_push(ps: Seq<Seq<char>>, x: Seq<char>)
    ensures
        normal_parts(ps.push(x)) == normal_parts(ps) + (if is_normal_part(x) {
            seq![x]
        } else {
            Seq::<Seq<char>>::empty()
        }),
    decreases ps.len(),
{
    if ps.len() == 0 {
        assert(ps.push(x).drop_first() =~= Seq::<Seq<char>>::empty());
    } else {
        assert(ps.push(x).drop_first() == ps.drop_first().push(x));
        assert(ps.push(x)[0] == ps[0]);
        lemma_normal_parts_push(ps.drop_first(), x);
    }
}

/// The last component of the path `p` (see [`spec_file_name`]).
fn path_file_name(p: &str) -> (r: Option<String>)
    ensures
        opt_view(r) == spec_file_name(p@),
{
    let parts = split_str(p, '/');
    let ghost pv = parts@.map_values(|q: String| q@);
    let mut last: Option<String> = None;
    let mut i: usize = 0;
    assert(pv.take(0) =~= Seq::<Seq<char>>::empty());
    while i < parts.len()
        invariant
            pv == parts@.map_values(|q: String| q@),
            0 <= i <= pv.len(),
            opt_view(last) == (if normal_parts(pv.take(i as int)).len() == 0 {
                None::<Seq<char>>
            } else {
                Some(normal_parts(pv.take(i as int)).last())
            }),
        decreases parts.len() - i,
    {
        proof {
            assert(pv.take(i + 1) == pv.take(i as int).push(pv[i as int]));
            lemma_normal_parts_push(pv.take(i as int), pv[i as int]);
        }
        let q = parts[i].as_str();
        if crate::text::chars_of(q).len() > 0 && !str_eq(q, ".") {
            last = Some(owned(q));
        }
        i = i + 1;
    }
    assert(pv.take(i as int) == pv);
    match last {
        Some(l) => {
            if str_eq(l.as_str(), "..") {
                None
            } else {
                Some(l)
            }
        },
        None => None,
    }
}

/// The pieces from the first on that start with an alphabetic character, up to the first one
/// that does not.
pub open spec fn leading_alphabetic(parts: Seq<Seq<char>>) -> Seq<Seq<char>>
    decreases parts.len(),
{
    if parts.len() == 0 || !(parts[0].len() > 0 && spec_is_alphabetic(parts[0][0])) {
        Seq::empty()
    } else {
        seq![parts[0]] + leading_alphabetic(parts.drop_first())
    }
}

/// The name part of a store path's last component (see `builtins.parseDrvName`): the pieces
/// between `-` after the hash, as long as they start with a letter, joined by `-`.
pub open spec fn drv_name_of(file_name: Seq<char>) -> Seq<char> {
    join(leading_alphabetic(split_char(file_name, '-').drop_first()), "-"@)
}

/// The name of the link to the output number `i` of a list that is built together: the first
/// is `result-0`, the others `result`.
pub open spec fn output_link_name_of(i: nat) -> Seq<char> {
    if i == 0 {
        "result-"@ + decimal(i)
    } else {
        "result"@
    }
}

/// The arguments passed to the builder: `-o name` before the extra arguments where the output
/// link is renamed.
pub open spec fn build_extra_args_of(rename: Option<Seq<char>>, extra: Seq<Seq<char>>) -> Seq<Seq<char>> {
    match rename {
        Some(name) => seq!["-o"@, name] + extra,
        None => extra,
    }
}

/// The program of an output: in the `bin` directory of its first built path, named by
/// `meta.mainProgram` where that could be evaluated, by the derivation's name otherwise.
pub open spec fn main_program_of(
    first_built: Seq<char>,
    meta_program: Option<Seq<char>>,
    drv_name: Option<Seq<char>>,
) -> Option<Seq<char>> {
    match meta_program {
        Some(mp) => Some(path_join(path_join(first_built, "bin"@), mp)),
        None => match drv_name {
            Some(n) => Some(path_join(path_join(first_built, "bin"@), n)),
            None => None,
        },
    }
}

/// The manual page of a program: `share/man/man1/<name>.1.gz` below the first built path, where
/// `name` is the last component of the program's path; none where that path has none.
pub open spec fn man_path_of(first_built: Seq<char>, program: Seq<char>) -> Option<Seq<char>> {
    match spec_file_name(program) {
        Some(name) => Some(
            path_join(
                path_join(path_join(path_join(first_built, "share"@), "man"@), "man1"@),
                name + ".1.gz"@,
            ),
        ),
        None => None,
    }
}

/// The pieces that start with an alphabetic character, from number `i` on, up to the first
/// that does not.
fn leading_alphabetic_from(parts: &Vec<String>, i: usize) -> (r: Vec<String>)
    requires
        i <= parts@.len(),
    ensures
        strings_view(r@) == leading_alphabetic(strings_view(parts@).skip(i as int)),
    decreases parts@.len() - i,
{
    let ghost t = strings_view(parts@).skip(i as int);
    if i >= parts.len() {
        assert(t.len() == 0);
        return Vec::new();
    }
    assert(t[0] == parts@[i as int]@);
    let cs = chars_of(parts[i].as_str());
    if cs.len() == 0 || !is_alphabetic_char(cs[0]) {
        return Vec::new();
    }
    assert(t.drop_first() == strings_view(parts@).skip(i + 1));
    let rest = leading_alphabetic_from(parts, i + 1);
    let mut r: Vec<String> = Vec::new();
    r.push(parts[i].clone());
    let mut j: usize = 0;
    while j < rest.len()
        invariant
            0 <= j <= rest@.len(),
            r@.len() == j + 1,
            strings_view(r@) == seq![parts@[i as int]@] + strings_view(rest@).take(j as int),
        decreases rest.len() - j,
    {
        let ghost before = strings_view(r@);
        r.push(rest[j].clone());
        assert(strings_view(r@) == before.push(strings_view(rest@)[j as int]));
        assert(strings_view(rest@).take(j + 1) == strings_view(rest@).take(j as int).push(
            strings_view(rest@)[j as int],
        ));
        j = j + 1;
    }
    assert(strings_view(rest@).take(j as int) == strings_view(rest@));
    r
}

/// The derivation's name from a store path's last component (see [`drv_name_of`]).
pub fn drv_name_from_file_name(file_name: &str) -> (r: String)
    ensures
        r@ == drv_name_of(file_name@),
{
    let parts = split_str(file_name, '-');
    assert(strings_view(parts@) == split_char(file_name@, '-'));
    proof {
        crate::text::lemma_split_acc_nonempty(Seq::empty(), file_name@, '-');
    }
    assert(strings_view(parts@).skip(1) == split_char(file_name@, '-').drop_first());
    let names = leading_alphabetic_from(&parts, 1);
    assert(names@.map_values(|p: String| p@) == strings_view(names@));
    join_str(names.as_slice(), "-")
}

/// The name of the link to output number `i` of a list built together (see
/// [`output_link_name_of`]).
pub fn output_link_name(i: usize) -> (r: String)
    ensures
        r@ == output_link_name_of(i as nat),
{
    if i == 0 {
        let mut s = owned("result-");
        let d = decimal_string(i as u64);
        push_str(&mut s, d.as_str());
        s
    } else {
        owned("result")
    }
}

/// The arguments passed to the builder (see [`build_extra_args_of`]).
pub fn build_extra_args(rename: Option<&str>, extra_args: &[String]) -> (r: Vec<String>)
    ensures
        strings_view(r@) == build_extra_args_of(
            match rename {
                Some(n) => Some(n@),
                None => None,
            },
            strings_view(extra_args@),
        ),
{
    let mut r: Vec<String> = Vec::new();
    if let Some(name) = rename {
        r.push(owned("-o"));
        r.push(owned(name));
    }
    let ghost start = strings_view(r@);
    let mut i: usize = 0;
    while i < extra_args.len()
        invariant
            0 <= i <= extra_args@.len(),
            strings_view(r@) == start + strings_view(extra_args@).take(i as int),
        decreases extra_args.len() - i,
    {
        let ghost before = strings_view(r@);
        r.push(extra_args[i].clone());
        assert(strings_view(r@) == before.push(strings_view(extra_args@)[i as int]));
        assert(strings_view(extra_args@).take(i + 1) == strings_view(extra_args@).take(i as int).push(
            strings_view(extra_args@)[i as int],
        ));
        i = i + 1;
    }
    assert(strings_view(extra_args@).take(i as int) == strings_view(extra_args@));
    proof {
        reveal_strlit("-o");
    }
    r
}

/// The program of an output (see [`main_program_of`]).
pub fn main_program_path(first_built: &str, meta_program: Option<&str>, drv_name: Option<&str>) -> (r: Option<
    String,
>)
    ensures
        opt_view(r) == main_program_of(
            first_built@,
            match meta_program {
                Some(m) => Some(m@),
                None => None,
            },
            match drv_name {
                Some(n) => Some(n@),
                None => None,
            },
        ),
{
    match meta_program {
        Some(mp) => {
            let bin = join_path(first_built, "bin");
            Some(join_path(bin.as_str(), mp))
        },
        None => match drv_name {
            Some(n) => {
                let bin = join_path(first_built, "bin");
                Some(join_path(bin.as_str(), n))
            },
            None => None,
        },
    }
}

/// The manual page of a program (see [`man_path_of`]).
pub fn man_path_for(first_built: &str, program: &str) -> (r: Option<String>)
    ensures
        opt_view(r) == man_path_of(first_built@, program@),
{
    let name = match path_file_name(program) {
        Some(n) => n,
        None => {
            return None;
        },
    };
    let share = join_path(first_built, "share");
    let man = join_path(share.as_str(), "man");
    let man1 = join_path(man.as_str(), "man1");
    let mut page = name;
    push_str(&mut page, ".1.gz");
    Some(join_path(man1.as_str(), page.as_str()))
}

/// The key under which the output `attr` of the file `f` is registered: the reference of that
/// attribute.
pub open spec fn output_key(f: NixFileView, attr: Seq<Seq<char>>) -> NixReferenceView {
    NixReferenceView {
        file: NixFileReferenceView { repository: f.checkout.repository, filename: f.filename },
        attribute: attr,
    }
}

/// The output `attr` of the file `f` as it is created: not built yet.
pub open spec fn created_output(f: NixFileView, attr: Seq<Seq<char>>) -> NixOutputView {
    NixOutputView { file: f, attr, built_paths: None }
}

/// Whether the output `attr` is there, given what asking the file for it gave: the toplevel
/// always is, another attribute where the file has it.
pub open spec fn output_is_there(attr: Seq<Seq<char>>, has: Result<bool, NieError>) -> bool {
    attr.len() == 0 || has == Ok::<bool, NieError>(true)
}

/// Creating an output that is there gives the output of [`created_output`] and registers it
/// under its key, so that asking for the same attribute of the same file again finds that
/// output: a lookup in the registry after the creation gives it back, and outputs registered
/// under other keys stay as they were.
pub proof fn law_output_created_once(
    outputs: Map<NixReferenceView, NixOutputView>,
    f: NixFileView,
    attr: Seq<Seq<char>>,
    other: NixReferenceView,
)
    requires
        other != output_key(f, attr),
    ensures
        ({
            let after = outputs.insert(output_key(f, attr), created_output(f, attr));
            &&& after.contains_key(output_key(f, attr))
            &&& after[output_key(f, attr)] == created_output(f, attr)
            &&& after[output_key(f, attr)].built_paths is None
            &&& after.contains_key(other) == outputs.contains_key(other)
            &&& outputs.contains_key(other) ==> after[other] == outputs[other]
        }),
{
}

/// The paths that building the output `o` gave, as every handle of it sees them: those recorded
/// on its registered copy where that was built, its own otherwise.
pub open spec fn known_build_of(outputs: Map<NixReferenceView, NixOutputView>, o: NixOutputView) -> Option<
    Seq<Seq<char>>,
> {
    let key = output_key(o.file, o.attr);
    if outputs.contains_key(key) && outputs[key].built_paths is Some {
        outputs[key].built_paths
    } else {
        o.built_paths
    }
}

/// A build is seen by every handle of the output: once building one handle `o` was recorded
/// in the registry (see [`NixOutput::record_build_in`]), every handle of the same output, built
/// before or not, finds those paths (see [`NixOutput::known_build`]), so that
/// [`NixOutput::reuse_build`] gives them and no build is run again.
pub proof fn law_build_seen_by_every_handle(
    outputs: Map<NixReferenceView, NixOutputView>,
    o: NixOutputView,
    paths: Seq<Seq<char>>,
    other: NixOutputView,
)
    requires
        output_key(other.file, other.attr) == output_key(o.file, o.attr),
    ensures
        known_build_of(
            outputs.insert(output_key(o.file, o.attr), NixOutputView { built_paths: Some(paths), ..o }),
            other,
        ) == Some(paths),
{
}

impl NixOutput {
    /// The key under which an output is registered: the reference of its attribute.
    pub fn key(file: &NixFile, attr: &AttributePath) -> (r: NixReference)
        ensures
            r@.attribute == attr@,
            r@.file.repository == file@.checkout.repository,
            r@.file.filename == file@.filename,
    {
        file.reference().with_attribute(attr.clone())
    }

    /// The output registered under the key of `attr` of `file`, if it was created before.
    pub fn cached(outputs: &Registry<NixReference, NixOutput>, file: &NixFile, attr: &AttributePath) -> (r:
        Option<NixOutput>)
        ensures
            match r {
                Some(o) => outputs@.contains_key(output_key(file@, attr@)) && o@ == outputs@[output_key(
                    file@,
                    attr@,
                )],
                None => !outputs@.contains_key(output_key(file@, attr@)),
            },
    {
        let key = Self::key(file, attr);
        outputs.lookup(&key)
    }

    /// The output `attr` of `file`, given what asking the file for that attribute gave (asked
    /// only where `attr` is not the toplevel, which is always there). The output is registered
    /// in `outputs` under its key (see [`law_output_created_once`]). An attribute that is not
    /// found is an error that names the file's path, and an error of the question is passed on;
    /// either way nothing is registered.
    pub fn new(
        outputs: &mut Registry<NixReference, NixOutput>,
        file: NixFile,
        attr: AttributePath,
        has: Result<bool, NieError>,
    ) -> (r: Result<Self, NieError>)
        ensures
            output_is_there(attr@, has) ==> (r matches Ok(o) && o@ == created_output(file@, attr@)
                && final(outputs)@ == old(outputs)@.insert(output_key(file@, attr@), o@)),
            attr@.len() != 0 && has == Ok::<bool, NieError>(false) ==> (r matches Err(
                NieError::AttributeNotFound(p, a),
            ) && p@ == file_path(file@.checkout.path, file@.filename) && a@ == attr@
                && final(outputs)@ == old(outputs)@),
            attr@.len() != 0 ==> (has matches Err(e) ==> (r matches Err(e2) && e2 == e && final(outputs)@
                == old(outputs)@)),
    {
        let key = Self::key(&file, &attr);
        if !attr.is_toplevel() {
            match has {
                Err(e) => {
                    return Err(e);
                },
                Ok(false) => {
                    let p = file.path();
                    return Err(NieError::AttributeNotFound(p, attr));
                },
                Ok(true) => {},
            }
        }
        let output = NixOutput { file, attr, built_paths: None };
        outputs.store(key, output.clone());
        Ok(output)
    }

    /// The file the output belongs to.
    pub fn file(&self) -> (r: NixFile)
        ensures
            r@ == self@.file,
    {
        self.file.clone()
    }

    /// The attribute path of the output.
    pub fn attr(&self) -> (r: AttributePath)
        ensures
            r@ == self@.attr,
    {
        self.attr.clone()
    }

    /// The reference that names the output.
    pub fn reference(&self) -> (r: NixReference)
        ensures
            r@.file.repository == self@.file.checkout.repository,
            r@.file.filename == self@.file.filename,
            r@.attribute == self@.attr,
    {
        self.file.reference().with_attribute(self.attr.clone())
    }

    /// The paths that building the output gave, once it was built.
    pub fn built_paths(&self) -> (r: Option<Vec<String>>)
        ensures
            opt_strings_view(r) == self@.built_paths,
    {
        clone_opt_strings(&self.built_paths)
    }

    /// Remembers the paths that building the output gave.
    pub fn record_build(&mut self, paths: Vec<String>)
        ensures
            final(self)@ == (NixOutputView { built_paths: Some(strings_view(paths@)), ..old(self)@ }),
    {
        self.built_paths = Some(paths);
    }

    /// The paths that building the output gave, as every handle of it sees them (see
    /// [`known_build_of`]).
    pub fn known_build(outputs: &Registry<NixReference, NixOutput>, output: &NixOutput) -> (r: Option<
        Vec<String>,
    >)
        ensures
            opt_strings_view(r) == known_build_of(outputs@, output@),
    {
        let key = Self::key(&output.file, &output.attr);
        match outputs.lookup(&key) {
            Some(shared) => match shared.built_paths {
                Some(paths) => Some(paths),
                None => output.built_paths(),
            },
            None => output.built_paths(),
        }
    }

    /// Whether building the output can be skipped: the paths that every handle of it sees (see
    /// [`NixOutput::known_build`]), recorded on this handle too; `None`, leaving the handle as it
    /// was, where the output was not built, and only then must it be built.
    pub fn reuse_build(outputs: &Registry<NixReference, NixOutput>, output: &mut NixOutput) -> (r: Option<
        Vec<String>,
    >)
        ensures
            opt_strings_view(r) == known_build_of(outputs@, old(output)@),
            r is Some ==> final(output)@ == (NixOutputView { built_paths: opt_strings_view(r), ..old(output)@ }),
            r is None ==> final(output)@ == old(output)@,
    {
        match Self::known_build(outputs, output) {
            Some(paths) => {
                let kept = crate::location::attribute_path::clone_strings(&paths);
                output.record_build(kept);
                Some(paths)
            },
            None => None,
        }
    }

    /// Records what building the output gave, on this handle and on its registered copy, so that
    /// every handle of the output finds it built (see [`law_build_seen_by_every_handle`]).
    pub fn record_build_in(outputs: &mut Registry<NixReference, NixOutput>, output: &mut NixOutput, paths: Vec<
        String,
    >)
        ensures
            final(output)@ == (NixOutputView { built_paths: Some(strings_view(paths@)), ..old(output)@ }),
            final(outputs)@ == old(outputs)@.insert(output_key(old(output)@.file, old(output)@.attr), final(output)@),
    {
        output.record_build(paths);
        let key = Self::key(&output.file, &output.attr);
        outputs.store(key, output.clone());
    }

    /// The attribute that names the output's program.
    pub fn main_program_attr(&self) -> (r: AttributePath)
        ensures
            r@ == self@.attr.push("meta"@).push("mainProgram"@),
    {
        self.attr.child(owned("meta")).child(owned("mainProgram"))
    }

    /// The invocation that builds the output locally (see [`build()`]); the output link is
    /// renamed to `rename` where one is given.
    pub fn build_invocation(
        &self,
        rename: Option<&str>,
        allow_out_links: bool,
        extra_args: &[String],
        compat_expr: &str,
        nom_available: bool,
    ) -> (r: Invocation)
        ensures
            r.program@ == (if nom_available {
                "nom-build"@
            } else {
                "nix-build"@
            }),
            strings_view(r.args@) == build_args(
                file_path(self@.file.checkout.path, self@.file.filename),
                self@.attr,
                allow_out_links,
                self@.file.eval_args,
                build_extra_args_of(
                    match rename {
                        Some(n) => Some(n@),
                        None => None,
                    },
                    strings_view(extra_args@),
                ),
                compat_expr@,
                nom_available,
            ),
    {
        let extra = build_extra_args(rename, extra_args);
        let path = self.file.path();
        let eval_args = self.file.eval_args();
        build(path.as_str(), &self.attr, allow_out_links, &eval_args, extra.as_slice(), compat_expr, nom_available)
    }

    /// The invocation that builds the output on `remote` (see [`build_remote()`]).
    pub fn remote_build_invocation(
        &self,
        rename: Option<&str>,
        extra_args: &[String],
        remote: &str,
        compat_expr: &str,
    ) -> (r: Invocation)
        ensures
            r.program@ == "ssh"@,
            strings_view(r.args@) == build_remote_args(
                file_path(self@.file.checkout.path, self@.file.filename),
                self@.attr,
                remote@,
                self@.file.eval_args,
                build_extra_args_of(
                    match rename {
                        Some(n) => Some(n@),
                        None => None,
                    },
                    strings_view(extra_args@),
                ),
                compat_expr@,
            ),
    {
        let extra = build_extra_args(rename, extra_args);
        let path = self.file.path();
        let eval_args = self.file.eval_args();
        build_remote(path.as_str(), &self.attr, remote, &eval_args, extra.as_slice(), compat_expr)
    }

    /// What building gave, checked: no output path is an error that names the output.
    pub fn check_built(&self, paths: Vec<String>) -> (r: Result<Vec<String>, NieError>)
        ensures
            paths@.len() == 0 ==> (r matches Err(NieError::NoOutputPath(x)) && x@.file.repository
                == self@.file.checkout.repository && x@.file.filename == self@.file.filename
                && x@.attribute == self@.attr),
            paths@.len() > 0 ==> (r matches Ok(v) && v@ == paths@),
    {
        if paths.len() == 0 {
            Err(NieError::NoOutputPath(Box::new(self.reference())))
        } else {
            Ok(paths)
        }
    }

    /// The derivation's name of the output from the paths that building it gave: that of the
    /// first path's last component (see [`drv_name_of`]); no path is an error that names the
    /// output.
    pub fn drv_name(&self, built: &[String]) -> (r: Result<String, NieError>)
        ensures
            built@.len() == 0 ==> (r matches Err(NieError::NoOutputPath(x)) && x@.file.repository
                == self@.file.checkout.repository && x@.file.filename == self@.file.filename
                && x@.attribute == self@.attr),
            built@.len() > 0 ==> (r matches Ok(n) && n@ == drv_name_of(
                match spec_file_name(built@[0]@) {
                    Some(f) => f,
                    None => Seq::empty(),
                },
            )),
    {
        if built.len() == 0 {
            return Err(NieError::NoOutputPath(Box::new(self.reference())));
        }
        let name = match path_file_name(built[0].as_str()) {
            Some(f) => f,
            None => String::new(),
        };
        Ok(drv_name_from_file_name(name.as_str()))
    }

    /// The invocation that evaluates the output (see [`eval()`]).
    pub fn eval_invocation(&self, extra_args: &[String], compat_expr: &str) -> (r: Invocation)
        ensures
            r.program@ == "nix-instantiate"@,
            strings_view(r.args@) == eval_command_args(
                file_path(self@.file.checkout.path, self@.file.filename),
                self@.attr,
                self@.file.eval_args,
                strings_view(extra_args@),
                compat_expr@,
            ),
    {
        let path = self.file.path();
        let eval_args = self.file.eval_args();
        eval(path.as_str(), &self.attr, &eval_args, extra_args, compat_expr)
    }

    /// The invocation that enters a development shell of the output (see [`dev_shell()`]).
    pub fn dev_shell_invocation(
        &self,
        command: Option<String>,
        extra_args: &[String],
        compat_expr: &str,
        shell_env: Option<&str>,
    ) -> (r: Invocation)
        ensures
            r.program@ == "nix-shell"@,
            strings_view(r.args@) == dev_shell_args(
                file_path(self@.file.checkout.path, self@.file.filename),
                self@.attr,
                self@.file.eval_args,
                opt_view(command),
                strings_view(extra_args@),
                compat_expr@,
                match shell_env {
                    Some(x) => Some(x@),
                    None => None,
                },
            ),
    {
        let path = self.file.path();
        let eval_args = self.file.eval_args();
        dev_shell(path.as_str(), &self.attr, &eval_args, command, extra_args, compat_expr, shell_env)
    }

    /// The invocation that creates the garbage collection root `root` for the output's
    /// derivation (see [`create_root()`]).
    pub fn gc_root_invocation(&self, root: &str, compat_expr: &str) -> (r: Invocation)
        ensures
            r.program@ == "nix-instantiate"@,
            strings_view(r.args@) == create_root_args(
                file_path(self@.file.checkout.path, self@.file.filename),
                self@.attr,
                self@.file.eval_args,
                root@,
                compat_expr@,
            ),
    {
        let path = self.file.path();
        let eval_args = self.file.eval_args();
        create_root(path.as_str(), &self.attr, &eval_args, root, compat_expr)
    }

    /// The repositories, file names and attributes of a list of references, each in order.
    pub fn reference_parts(refs: &[NixReference]) -> (r: (
        Vec<crate::location::RepositoryReference>,
        Vec<Option<String>>,
        Vec<AttributePath>,
    ))
        ensures
            r.0@.len() == refs@.len(),
            r.1@.len() == refs@.len(),
            r.2@.len() == refs@.len(),
            forall|i: int|
                0 <= i < refs@.len() ==> (#[trigger] r.0@[i])@ == refs@[i]@.file.repository
                    && opt_view(r.1@[i]) == refs@[i]@.file.filename && r.2@[i]@
                    == refs@[i]@.attribute,
    {
        let mut repos: Vec<crate::location::RepositoryReference> = Vec::new();
        let mut names: Vec<Option<String>> = Vec::new();
        let mut attrs: Vec<AttributePath> = Vec::new();
        let mut i: usize = 0;
        while i < refs.len()
            invariant
                0 <= i <= refs@.len(),
                repos@.len() == i,
                names@.len() == i,
                attrs@.len() == i,
                forall|j: int|
                    0 <= j < i ==> (#[trigger] repos@[j])@ == refs@[j]@.file.repository && opt_view(
                        names@[j],
                    ) == refs@[j]@.file.filename && attrs@[j]@ == refs@[j]@.attribute,
            decreases refs.len() - i,
        {
            repos.push(refs[i].repository().clone());
            names.push(crate::text::clone_opt(&refs[i].file().filename));
            attrs.push(refs[i].attribute().clone());
            i = i + 1;
        }
        (repos, names, attrs)
    }
}

} // verus!
