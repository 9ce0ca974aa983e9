//! Building packages of Nix repositories.
use vstd::prelude::*;

use crate::eval_args::EvalArgs;
use crate::location::attribute_path::strings_view;
use crate::location::NixReference;

verus! {

broadcast use vstd::seq_lib::group_seq_properties;

/// Builds packages from Nix repositories.
pub struct BuildCommand {
    /// The references to build.
    pub refs: Vec<NixReference>,
    /// A machine to build on.
    pub remote: Option<String>,
    /// How the files are evaluated.
    pub eval_args: EvalArgs,
    /// Additional arguments for the Nix builder.
    pub extra_args: Vec<String>,
}

/// The lists one after the other.
pub open spec fn flattened(v: Seq<Seq<Seq<char>>>) -> Seq<Seq<char>>
    decreases v.len(),
{
    if v.len() == 0 {
        Seq::empty()
    } else {
        flattened(v.drop_last()) + v.last()
    }
}

impl BuildCommand {
    /// The built paths of all packages, in order.
    pub fn all_paths(built: &Vec<Vec<String>>) -> (r: Vec<String>)
        ensures
            strings_view(r@) == flattened(built@.map_values(|v: Vec<String>| strings_view(v@))),
    {
        let ghost bv = built@.map_values(|v: Vec<String>| strings_view(v@));
        let mut r: Vec<String> = Vec::new();
        let mut i: usize = 0;
        while i < built.len()
            invariant
                bv == built@.map_values(|v: Vec<String>| strings_view(v@)),
                0 <= i <= built@.len(),
                strings_view(r@) == flattened(bv.take(i as int)),
            decreases built.len() - i,
        {
            let ghost before = strings_view(r@);
            let mut j: usize = 0;
            while j < built[i].len()
                invariant
                    bv == built@.map_values(|v: Vec<String>| strings_view(v@)),
                    0 <= i < built@.len(),
                    0 <= j <= built@[i as int]@.len(),
                    strings_view(r@) == before + strings_view(built@[i as int]@).take(j as int),
                decreases built@[i as int]@.len() - j,
            {
                let ghost b = strings_view(r@);
                r.push(built[i][j].clone());
                assert(strings_view(r@) == b.push(strings_view(built@[i as int]@)[j as int]));
                assert(strings_view(built@[i as int]@).take(j + 1) == strings_view(built@[i as int]@).take(
                    j as int,
                ).push(strings_view(built@[i as int]@)[j as int]));
                j = j + 1;
            }
            assert(strings_view(built@[i as int]@).take(j as int) == strings_view(built@[i as int]@));
            assert(bv.take(i + 1).drop_last() == bv.take(i as int));
            assert(bv.take(i + 1).last() == bv[i as int]);
            i = i + 1;
        }
        assert(bv.take(i as int) == bv);
        r
    }
}

} // verus!
