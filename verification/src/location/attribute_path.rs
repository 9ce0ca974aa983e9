//! Representation of Nix attribute paths
use vstd::prelude::*;

use crate::text::{join, join_str, owned, push_str, split_char, split_str};

verus! {

broadcast use vstd::seq_lib::group_seq_properties;

/// The components of a list of strings.
pub open spec fn strings_view(v: Seq<String>) -> Seq<Seq<char>> {
    v.map_values(|s: String| s@)
}

/// The attribute path that a string names: empty for the empty string, its `.`-separated
/// pieces otherwise.
pub open spec fn attribute_path_from(s: Seq<char>) -> Seq<Seq<char>> {
    if s.len() == 0 {
        Seq::empty()
    } else {
        split_char(s, '.')
    }
}

/// The textual form of an attribute path: its components joined by `.`.
pub open spec fn attribute_path_text(p: Seq<Seq<char>>) -> Seq<char> {
    join(p, seq!['.'])
}

/// The text shown to users for an attribute path.
pub open spec fn attribute_path_user_text(p: Seq<Seq<char>>) -> Seq<char> {
    if p.len() == 0 {
        "<toplevel>"@
    } else {
        attribute_path_text(p)
    }
}

/// `q` is `p` followed by at least one more component.
pub open spec fn is_proper_prefix(p: Seq<Seq<char>>, q: Seq<Seq<char>>) -> bool {
    p.len() < q.len() && q.take(p.len() as int) == p
}

/// Representation of Nix attribute paths as a chain of attribute keys
#[derive(Debug, PartialEq, Eq, Hash)]
pub struct AttributePath(pub Vec<String>);

impl View for AttributePath {
    type V = Seq<Seq<char>>;

    open spec fn view(&self) -> Seq<Seq<char>> {
        strings_view(self.0@)
    }
}

/// Whether two lists of strings are equal.
pub fn strings_same(a: &Vec<String>, b: &Vec<String>) -> (r: bool)
    ensures
        r == (strings_view(a@) == strings_view(b@)),
{
    if a.len() != b.len() {
        return false;
    }
    let mut i: usize = 0;
    while i < a.len()
        invariant
            a@.len() == b@.len(),
            0 <= i <= a@.len(),
            forall|j: int| 0 <= j < i ==> strings_view(a@)[j] == strings_view(b@)[j],
        decreases a.len() - i,
    {
        if a[i] != b[i] {
            assert(strings_view(a@)[i as int] != strings_view(b@)[i as int]);
            return false;
        }
        i = i + 1;
    }
    assert(strings_view(a@) == strings_view(b@));
    true
}

/// A copy of a list of strings.
pub fn clone_strings(v: &Vec<String>) -> (r: Vec<String>)
    ensures
        strings_view(r@) == strings_view(v@),
{
    let mut r: Vec<String> = Vec::new();
    let mut i: usize = 0;
    while i < v.len()
        invariant
            0 <= i <= v@.len(),
            strings_view(r@) == strings_view(v@).take(i as int),
        decreases v.len() - i,
    {
        let ghost before = strings_view(r@);
        r.push(v[i].clone());
        assert(strings_view(r@) == before.push(v@[i as int]@));
        assert(strings_view(v@).take(i + 1) == strings_view(v@).take(i as int).push(
            v@[i as int]@,
        ));
        i = i + 1;
    }
    assert(strings_view(v@).take(v@.len() as int) == strings_view(v@));
    r
}

impl Clone for AttributePath {
    fn clone(&self) -> (r: Self)
        ensures
            r@ == self@,
    {
        AttributePath(clone_strings(&self.0))
    }
}

impl Default for AttributePath {
    fn default() -> (r: Self)
        ensures
            r@ == Seq::<Seq<char>>::empty(),
    {
        AttributePath(Vec::new())
    }
}

impl AttributePath {
    /// The toplevel path, which has no components.
    pub fn toplevel() -> (r: Self)
        ensures
            r@ == Seq::<Seq<char>>::empty(),
    {
        AttributePath(Vec::new())
    }

    /// Create a new [`AttributePath`] from a child entry of the path `self`.
    pub fn child(&self, name: String) -> (r: Self)
        ensures
            r@ == self@.push(name@),
    {
        let mut new_path = clone_strings(&self.0);
        let ghost before = new_path@;
        new_path.push(name);
        assert(strings_view(new_path@) == strings_view(before).push(name@));
        AttributePath(new_path)
    }

    /// Create a new [`AttributePath`] from the parent of `self`.
    ///
    /// May return [`None`] if `self` is already a top-level path.
    pub fn parent(&self) -> (r: Option<Self>)
        ensures
            match r {
                Some(p) => self@.len() > 0 && p@ == self@.drop_last(),
                None => self@.len() == 0,
            },
    {
        if self.0.len() == 0 {
            return None;
        }
        let mut new_path = clone_strings(&self.0);
        let ghost before = new_path@;
        let _ = new_path.pop();
        assert(strings_view(new_path@) == strings_view(before).drop_last());
        Some(AttributePath(new_path))
    }

    /// Concatenate two [`AttributePath`]s
    pub fn join(&self, other: &Self) -> (r: Self)
        ensures
            r@ == self@ + other@,
    {
        let mut new_path = clone_strings(&self.0);
        let mut i: usize = 0;
        while i < other.0.len()
            invariant
                0 <= i <= other.0@.len(),
                strings_view(new_path@) == self@ + other@.take(i as int),
            decreases other.0.len() - i,
        {
            let ghost before = strings_view(new_path@);
            new_path.push(other.0[i].clone());
            assert(strings_view(new_path@) == before.push(other@[i as int]));
            assert(other@.take(i + 1) == other@.take(i as int).push(other@[i as int]));
            assert(self@ + other@.take(i + 1) == (self@ + other@.take(i as int)).push(
                other@[i as int],
            ));
            i = i + 1;
        }
        assert(other@.take(other@.len() as int) == other@);
        AttributePath(new_path)
    }

    /// Whether `self` and `other` have the same components.
    pub fn same_as(&self, other: &Self) -> (r: bool)
        ensures
            r == (self@ == other@),
    {
        strings_same(&self.0, &other.0)
    }

    /// Whether `p` is a proper prefix of `self`.
    fn has_proper_prefix(&self, p: &Self) -> (r: bool)
        ensures
            r == is_proper_prefix(p@, self@),
    {
        if p.0.len() >= self.0.len() {
            return false;
        }
        let mut i: usize = 0;
        while i < p.0.len()
            invariant
                p.0@.len() < self.0@.len(),
                0 <= i <= p.0@.len(),
                forall|j: int| 0 <= j < i ==> self@[j] == p@[j],
            decreases p.0.len() - i,
        {
            if self.0[i] != p.0[i] {
                assert(self@.take(p@.len() as int)[i as int] != p@[i as int]);
                return false;
            }
            i = i + 1;
        }
        assert(self@.take(p@.len() as int) == p@);
        true
    }

    /// Check if `self` is a direct child of `potential_parent`.
    ///
    /// [`true`] if `potential_parent` consists exactly of the non-terminal components of `self`.
    /// [`false`] otherwise.
    /// Toplevel paths have no parent, therefore are child to no other path.
    ///
    /// See also [`AttributePath::is_indirect_child()`].
    pub fn is_child(&self, potential_parent: &Self) -> (r: bool)
        ensures
            r == (self@.len() > 0 && self@.drop_last() == potential_parent@),
    {
        match self.parent() {
            Some(p) => p.same_as(potential_parent),
            None => false,
        }
    }

    /// Check if `self` is a indirect child of `potential_parent`.
    ///
    /// [`true`] if `potential_parent` consists of some number of preceding components of `self`
    /// [`false`] otherwise.
    /// Toplevel paths have no parent, therefore are indirect child to no other path.
    ///
    /// See also [`AttributePath::is_child()`].
    pub fn is_indirect_child(&self, potential_parent: &Self) -> (r: bool)
        ensures
            r == is_proper_prefix(potential_parent@, self@),
    {
        self.has_proper_prefix(potential_parent)
    }

    /// The number of components in `self`.
    pub fn depth(&self) -> (r: usize)
        ensures
            r == self@.len(),
    {
        self.0.len()
    }

    /// The number of components in `self`.
    pub fn len(&self) -> (r: usize)
        ensures
            r == self@.len(),
    {
        self.0.len()
    }

    /// [`true`] if `self` is a toplevel path, i.e. has no components.
    pub fn is_toplevel(&self) -> (r: bool)
        ensures
            r == (self@.len() == 0),
    {
        self.0.len() == 0
    }

    /// The first component of `self`.
    pub fn first(&self) -> (r: Option<&str>)
        ensures
            match r {
                Some(s) => self@.len() > 0 && s@ == self@[0],
                None => self@.len() == 0,
            },
    {
        if self.0.len() == 0 {
            None
        } else {
            Some(self.0[0].as_str())
        }
    }

    /// The last component of `self`.
    pub fn name(&self) -> (r: Option<&str>)
        ensures
            match r {
                Some(s) => self@.len() > 0 && s@ == self@.last(),
                None => self@.len() == 0,
            },
    {
        if self.0.len() == 0 {
            None
        } else {
            Some(self.0[self.0.len() - 1].as_str())
        }
    }

    /// The components joined by `.` (the path's `Display` form).
    pub fn to_string(&self) -> (r: String)
        ensures
            r@ == attribute_path_text(self@),
    {
        proof {
            reveal_strlit(".");
        }
        assert("."@ == seq!['.']);
        join_str(self.0.as_slice(), ".")
    }

    /// Convert to a user-readable, not necessarily machine-readable, [`String`].
    pub fn to_string_user(&self) -> (r: String)
        ensures
            r@ == attribute_path_user_text(self@),
    {
        if self.is_toplevel() {
            owned("<toplevel>")
        } else {
            self.to_string()
        }
    }

    /// The attribute path that `value` names: the toplevel path for the empty string, the
    /// `.`-separated components otherwise.
    pub fn from(value: &str) -> (r: Self)
        ensures
            r@ == attribute_path_from(value@),
    {
        if value.is_empty() {
            AttributePath(Vec::new())
        } else {
            AttributePath(split_str(value, '.'))
        }
    }

    /// Parses an attribute path; this never fails (see [`AttributePath::from()`]).
    pub fn from_str(s: &str) -> (r: Result<Self, ()>)
        ensures
            r matches Ok(p) && p@ == attribute_path_from(s@),
    {
        Ok(Self::from(s))
    }

    /// The paths below which the outputs of the given kind commonly lie: `kind`, then
    /// `kind.<system>` if the current system is known, then the toplevel.
    fn common_locations(kind: &str, current_system: Option<&str>) -> (r: Vec<AttributePath>)
        requires
            kind@.len() > 0,
        ensures
            common_locations(kind@, current_system) == r@.map_values(|p: AttributePath| p@),
    {
        let mut pkgs: Vec<AttributePath> = Vec::new();
        proof {
            reveal_strlit(".");
        }
        let first = AttributePath::from(kind);
        let ghost a = first@;
        pkgs.push(first);
        if let Some(system) = current_system {
            let mut s = owned(kind);
            push_str(&mut s, ".");
            push_str(&mut s, system);
            assert("."@ == seq!['.']);
            assert(s@ == kind@ + seq!['.'] + system@);
            let second = AttributePath::from(s.as_str());
            let ghost b = second@;
            pkgs.push(second);
            pkgs.push(AttributePath::toplevel());
            assert(pkgs@.map_values(|p: AttributePath| p@) =~= seq![a, b, Seq::empty()]);
        } else {
            pkgs.push(AttributePath::toplevel());
            assert(pkgs@.map_values(|p: AttributePath| p@) =~= seq![a, Seq::empty()]);
        }
        pkgs
    }

    /// [`AttributePath`]s whose children commonly contain checks.
    pub fn common_check_locations(current_system: Option<&str>) -> (r: Vec<AttributePath>)
        ensures
            common_locations("checks"@, current_system) == r@.map_values(|p: AttributePath| p@),
    {
        proof {
            reveal_strlit("checks");
        }
        Self::common_locations("checks", current_system)
    }

    /// [`AttributePath`]s whose children commonly contain templates.
    pub fn common_template_locations(current_system: Option<&str>) -> (r: Vec<AttributePath>)
        ensures
            common_locations("templates"@, current_system) == r@.map_values(
                |p: AttributePath| p@,
            ),
    {
        proof {
            reveal_strlit("templates");
        }
        Self::common_locations("templates", current_system)
    }

    /// [`AttributePath`]s whose children commonly contain development shell definitions.
    pub fn common_dev_shell_locations(current_system: Option<&str>) -> (r: Vec<AttributePath>)
        ensures
            common_locations("devShells"@, current_system) == r@.map_values(
                |p: AttributePath| p@,
            ),
    {
        proof {
            reveal_strlit("devShells");
        }
        Self::common_locations("devShells", current_system)
    }

    /// [`AttributePath`]s whose children commonly contain consumable packages.
    pub fn common_package_locations(current_system: Option<&str>) -> (r: Vec<AttributePath>)
        ensures
            r@.map_values(|p: AttributePath| p@) == common_package_locations(current_system),
    {
        let mut pkgs: Vec<AttributePath> = Vec::new();
        pkgs.push(AttributePath::from("packages"));
        pkgs.push(AttributePath::from("legacyPackages"));
        if let Some(system) = current_system {
            let mut s = owned("packages.");
            push_str(&mut s, system);
            pkgs.push(AttributePath::from(s.as_str()));
            let mut t = owned("legacyPackages.");
            push_str(&mut t, system);
            pkgs.push(AttributePath::from(t.as_str()));
        }
        pkgs.push(AttributePath::toplevel());
        pkgs
    }
}

/// The common locations of one kind of output, given the current system if known.
pub open spec fn common_locations(kind: Seq<char>, current_system: Option<&str>) -> Seq<
    Seq<Seq<char>>,
> {
    match current_system {
        Some(system) => seq![
            attribute_path_from(kind),
            attribute_path_from(kind + seq!['.'] + system@),
            Seq::empty(),
        ],
        None => seq![attribute_path_from(kind), Seq::empty()],
    }
}

/// The common locations of packages, given the current system if known.
pub open spec fn common_package_locations(current_system: Option<&str>) -> Seq<Seq<Seq<char>>> {
    match current_system {
        Some(system) => seq![
            attribute_path_from("packages"@),
            attribute_path_from("legacyPackages"@),
            attribute_path_from("packages."@ + system@),
            attribute_path_from("legacyPackages."@ + system@),
            Seq::empty(),
        ],
        None => seq![
            attribute_path_from("packages"@),
            attribute_path_from("legacyPackages"@),
            Seq::empty(),
        ],
    }
}

} // verus!
