use std::path::PathBuf;
use vstd::prelude::*;

verus! {

/// The machine the client was built for, as far as the client's defaults and
/// its install layout tell machines apart.
#[derive(Debug, Clone, Copy, PartialEq, Eq, Structural)]
pub enum Platform {
    Windows,
    Aarch64,
    Other,
}

/// `std::path::PathBuf`, opaque: what a path is made of is told by
/// [`path_parts`].
#[verifier::external_type_specification]
#[verifier::external_body]
pub struct ExPathBuf(PathBuf);

/// What a path says, whatever it puts between two names. The separators are the
/// platform's: slashes and, on Windows only, backslashes too.
#[verifier::ext_equal]
pub struct PathParts {
    /// The separators in front of the first name.
    pub front: Seq<char>,
    /// The names, first to last: the pieces between separators and, on Windows,
    /// behind the colon of a drive, with empty pieces left out.
    pub names: Seq<Seq<char>>,
}

impl PathParts {
    /// One more name at the end.
    pub open spec fn push(self, name: Seq<char>) -> PathParts {
        PathParts { front: self.front, names: self.names.push(name) }
    }

    /// The path of one name, under the current directory.
    pub open spec fn single(name: Seq<char>) -> PathParts {
        PathParts { front: Seq::empty(), names: seq![name] }
    }

    /// Whether this path lies inside that one.
    pub open spec fn inside(self, outer: PathParts) -> bool {
        &&& self.front == outer.front
        &&& outer.names.len() < self.names.len()
        &&& outer.names == self.names.take(outer.names.len() as int)
    }
}

/// What a path says.
pub uninterp spec fn path_parts(path: PathBuf) -> PathParts;

/// A text that every platform takes as one name: not empty, free of separators
/// and of the colon of a drive.
pub open spec fn is_one_name(name: Seq<char>) -> bool {
    &&& name.len() > 0
    &&& forall|i: int|
        0 <= i < name.len() ==> #[trigger] name[i] != '/' && name[i] != '\\' && name[i] != ':'
}

/// A name that every platform takes as an ordinary one: neither `.` nor `..`.
pub open spec fn is_plain_name(name: Seq<char>) -> bool {
    &&& is_one_name(name)
    &&& name.len() == 1 ==> name[0] != '.'
    &&& name.len() == 2 ==> name[0] != '.' || name[1] != '.'
}

/// Calls `Path::join`. Claimed: joining an ordinary name adds that name behind
/// those of the path, and leaves them and the front as they are.
#[verifier::external_body]
pub(crate) fn join_name(base: &PathBuf, name: &str) -> (path: PathBuf)
    requires
        is_plain_name(name@),
    ensures
        path_parts(path) == path_parts(*base).push(name@),
{
    base.join(name)
}

/// Calls `PathBuf::from` on text. Claimed: a text that is one name, free of
/// separators and of the colon of a drive, makes the path of that one name.
#[verifier::external_body]
pub(crate) fn path_from(name: &str) -> (path: PathBuf)
    requires
        is_one_name(name@),
    ensures
        path_parts(path) == PathParts::single(name@),
{
    PathBuf::from(name)
}

/// Calls `dirs::home_dir`. What it returns rests on the environment and the
/// user's account, so nothing is claimed of it.
#[verifier::external_body]
pub(crate) fn user_home() -> (home: Option<PathBuf>)
{
    dirs::home_dir()
}

/// What [`home_or_here`] says.
pub open spec fn home_parts(home: Option<PathBuf>) -> PathParts {
    match home {
        Some(dir) => path_parts(dir),
        None => PathParts::single("."@),
    }
}

/// The root of everything that the client keeps: the home directory, or the
/// current one where there is none.
pub fn home_or_here(home: Option<PathBuf>) -> (path: PathBuf)
    ensures
        path_parts(path) == home_parts(home),
        home matches Some(dir) ==> path == dir,
{
    match home {
        Some(dir) => dir,
        None => {
            proof {
                reveal_strlit(".");
            }
            path_from(".")
        },
    }
}

} // verus!
