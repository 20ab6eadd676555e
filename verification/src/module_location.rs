//! The location of a module in a project, and the path of the file that
//! holds it.

use vstd::prelude::*;

verus! {

/// Path to a file.
#[derive(Clone, Debug, PartialEq, Eq, Hash)]
pub struct Path(pub String);

impl Path {
    /// Wraps a string into a new `Path`.
    pub fn new(s: &str) -> (r: Path)
        ensures
            r.0@ == s@,
    {
        Path(String::from_str(s))
    }
}

/// Structure uniquely identifying module location in the project. Mappable
/// to filesystem path.
#[derive(Clone, Debug, PartialEq, Eq, Hash)]
pub struct Location(pub String);

/// The end of the name of every file that holds a module: a dot and the
/// extension of the language.
pub open spec fn module_suffix() -> Seq<char> {
    seq!['.', 'l', 'u', 'n', 'a']
}

/// The path ends in the suffix of module files.
pub open spec fn is_module_path(path: Seq<char>) -> bool {
    path.len() >= module_suffix().len() && path.subrange(path.len() - module_suffix().len(), path.len() as int)
        == module_suffix()
}

/// The location of the module that the file at `path` holds.
pub open spec fn location_of(path: Seq<char>) -> Seq<char> {
    path.subrange(0, path.len() - module_suffix().len())
}

/// The path of the file that holds the module at `location`.
pub open spec fn path_of(location: Seq<char>) -> Seq<char> {
    seq!['.', '/'] + location + module_suffix()
}

impl Location {
    /// Get the module location from filesystem path. Returns `None` if the
    /// path does not lead to a module file.
    pub fn from_path(path: &Path) -> (r: Option<Self>)
        ensures
            is_module_path(path.0@) ==> (r matches Some(location) && location.0@ == location_of(path.0@)),
            !is_module_path(path.0@) ==> r is None,
    {
        let text = path.0.as_str();
        let n = text.unicode_len();
        if n < 5 {
            return None;
        }
        let ghost tail = text@.subrange(n - 5, n as int);
        let matches_suffix = text.get_char(n - 5) == '.' && text.get_char(n - 4) == 'l' && text.get_char(n - 3)
            == 'u' && text.get_char(n - 2) == 'n' && text.get_char(n - 1) == 'a';
        proof {
            assert(tail[0] == text@[n - 5]);
            assert(tail[1] == text@[n - 4]);
            assert(tail[2] == text@[n - 3]);
            assert(tail[3] == text@[n - 2]);
            assert(tail[4] == text@[n - 1]);
            if matches_suffix {
                assert(tail =~= module_suffix());
            }
        }
        if matches_suffix {
            Some(Location(String::from_str(text.substring_char(0, n - 5))))
        } else {
            None
        }
    }

    /// Obtains path (within a project context) to the file with this module.
    pub fn to_path(&self) -> (r: Path)
        ensures
            r.0@ == path_of(self.0@),
    {
        let mut result = String::from_str("./");
        result.append(self.0.as_str());
        result.append(".luna");
        proof {
            reveal_strlit("./");
            reveal_strlit(".luna");
            assert("./"@ =~= seq!['.', '/']);
            assert(".luna"@ =~= module_suffix());
        }
        Path(result)
    }
}

/// The path of a module is the path of a module file. Read back, it gives
/// the location with the mark of the root of the project in front.
pub proof fn law_path_of_location(location: Seq<char>)
    ensures
        is_module_path(path_of(location)),
        location_of(path_of(location)) == seq!['.', '/'] + location,
{
    let path = path_of(location);
    assert(path.subrange(path.len() - module_suffix().len(), path.len() as int) =~= module_suffix());
    assert(path.subrange(0, path.len() - module_suffix().len()) =~= seq!['.', '/'] + location);
}

} // verus!
