//! The closed set of capabilities the agent runtime can name, and the
//! display-argument formatting each capability uses.

use vstd::prelude::*;

use crate::text::str_eq;

verus! {

/// Available tool types.
#[derive(Debug, Clone, Copy)]
pub enum Tools {
    Bash,
    ReadFile,
    SearchDocs,
}

impl Tools {
    /// Resolve a capability from its wire name; an unknown name is a typed
    /// failure, not a default.
    pub fn try_from(value: &str) -> (r: Result<Tools, ()>)
        ensures
            value@ == "bash"@ ==> r == Ok::<Tools, ()>(Tools::Bash),
            value@ == "read_file"@ ==> r == Ok::<Tools, ()>(Tools::ReadFile),
            value@ == "search_docs"@ ==> r == Ok::<Tools, ()>(Tools::SearchDocs),
            value@ != "bash"@ && value@ != "read_file"@ && value@ != "search_docs"@ ==> r == Err::<
                Tools,
                (),
            >(()),
    {
        proof {
            reveal_strlit("bash");
            reveal_strlit("read_file");
            reveal_strlit("search_docs");
            assert("bash"@.len() == 4);
            assert("read_file"@.len() == 9);
            assert("search_docs"@.len() == 11);
        }
        if str_eq(value, "bash") {
            Ok(Tools::Bash)
        } else if str_eq(value, "read_file") {
            Ok(Tools::ReadFile)
        } else if str_eq(value, "search_docs") {
            Ok(Tools::SearchDocs)
        } else {
            Err(())
        }
    }
}

/// The display-friendly form of a document-search call: the query, then the
/// searched path (the current directory when none was given).
pub fn search_display_args(query: &str, path: Option<&String>) -> (r: String)
    ensures
        r@ == query@ + " in "@ + (match path {
            Some(p) => p@,
            None => "."@,
        }),
{
    let mut out = String::from_str(query);
    out.append(" in ");
    match path {
        Some(p) => out.append(p.as_str()),
        None => out.append("."),
    }
    proof {
        assert(out@ =~= query@ + " in "@ + (match path {
            Some(p) => p@,
            None => "."@,
        }));
    }
    out
}

} // verus!
