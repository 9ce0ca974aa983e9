//! Writing manual pages.
use vstd::prelude::*;

use crate::paths::{join_path, path_join};
use crate::text::{owned, push_str};

verus! {

/// Writes manual pages into a directory.
pub struct ManCommand {
    /// The directory to write into.
    pub directory: String,
}

/// The name of a manual page: `nie.1` for the program, `nie-<subcommand>.1` for a subcommand.
pub open spec fn man_page_name(subcommand: Option<Seq<char>>) -> Seq<char> {
    match subcommand {
        Some(s) => "nie-"@ + s + ".1"@,
        None => "nie.1"@,
    }
}

impl ManCommand {
    /// The file of the manual page of the program or of a subcommand (see [`man_page_name`]).
    pub fn page_file(&self, subcommand: Option<&str>) -> (r: String)
        ensures
            r@ == path_join(
                self.directory@,
                man_page_name(
                    match subcommand {
                        Some(s) => Some(s@),
                        None => None,
                    },
                ),
            ),
    {
        let name = match subcommand {
            Some(s) => {
                let mut n = owned("nie-");
                push_str(&mut n, s);
                push_str(&mut n, ".1");
                n
            },
            None => owned("nie.1"),
        };
        join_path(self.directory.as_str(), name.as_str())
    }

    /// The report of a written page.
    pub fn written(file: &str) -> (r: String)
        ensures
            r@ == "Written "@ + file@,
    {
        let mut s = owned("Written ");
        push_str(&mut s, file);
        s
    }
}

} // verus!
