//! Laws of the root of the client's files.

use std::path::PathBuf;
use vstd::prelude::*;

use crate::paths::{home_or_here, home_parts, path_parts, PathParts};

verus! {

/// Whether a path is a base followed by these names.
pub open spec fn lies_at(path: PathParts, base: PathParts, names: Seq<Seq<char>>) -> bool {
    path.front == base.front && path.names == base.names + names
}

/// The root is the home directory itself, or `.` where there is none.
pub proof fn law_home_or_here(home: Option<PathBuf>, path: PathBuf)
    requires
        call_ensures(home_or_here, (home,), path),
    ensures
        home matches Some(dir) ==> path == dir,
        home is None ==> path_parts(path).front.len() == 0 && path_parts(path).names == seq!["."@],
{
}

/// What the root says is what the home directory says, or `.`.
pub proof fn law_home_parts(home: Option<PathBuf>)
    ensures
        home matches Some(dir) ==> home_parts(home) == path_parts(dir),
        home is None ==> home_parts(home).front.len() == 0 && home_parts(home).names
            == seq!["."@],
{
}

/// One more name stands behind the others, which stay as they are.
pub proof fn law_push(base: PathParts, name: Seq<char>)
    ensures
        lies_at(base.push(name), base, seq![name]),
{
    assert(base.push(name).names == base.names + seq![name]);
}

} // verus!
