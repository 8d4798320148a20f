//! Paths as text.
//!
//! The library never touches the file system, so a path is a `String` to it.
//! The one operation it needs is to put a name below a directory.

use vstd::prelude::*;
use vstd::string::StringExecFns;
use crate::text::chars_of;

verus! {

/// What stands before a name that is put below `dir`: nothing for no
/// directory, else the directory and one separator.
pub open spec fn dir_prefix(dir: Seq<char>) -> Seq<char> {
    if dir.len() == 0 {
        dir
    } else if dir.last() == '/' {
        dir
    } else {
        dir + "/"@
    }
}

/// The path of `name` below `dir`.
pub open spec fn join(dir: Seq<char>, name: Seq<char>) -> Seq<char> {
    dir_prefix(dir) + name
}

/// The path of `name` below `dir`.
pub fn join_path(dir: &str, name: &str) -> (path: String)
    ensures
        path@ == join(dir@, name@),
{
    let cs = chars_of(dir);
    if cs.len() == 0 || cs[cs.len() - 1] == '/' {
        String::from_str(dir).concat(name)
    } else {
        String::from_str(dir).concat("/").concat(name)
    }
}

/// Different names below one directory have different paths.
pub proof fn lemma_join_keeps_names_apart(dir: Seq<char>, a: Seq<char>, b: Seq<char>)
    requires
        a != b,
    ensures
        join(dir, a) != join(dir, b),
{
    let prefix = dir_prefix(dir);
    assert((prefix + a).skip(prefix.len() as int) =~= a);
    assert((prefix + b).skip(prefix.len() as int) =~= b);
}

} // verus!
