use vstd::prelude::*;

verus! {

/// The path that `std::path::Path::join` forms from a directory and a name.
pub uninterp spec fn join_of(dir: Seq<char>, name: Seq<char>) -> Seq<char>;

/// What `std::path::Path::parent` gives for a path.
pub uninterp spec fn parent_of(path: Seq<char>) -> Option<Seq<char>>;

/// What `std::path::Path::file_name` gives for a path.
pub uninterp spec fn file_name_of(path: Seq<char>) -> Option<Seq<char>>;

/// The text holds neither of the separators that platforms use in paths.
pub open spec fn has_no_separator(s: Seq<char>) -> bool {
    forall|i: int| 0 <= i < s.len() ==> s[i] != '/' && s[i] != '\\'
}

/// A name that every platform reads as one ordinary path component: it is not
/// empty, starts with a decimal digit (so it cannot be a drive or a root) and
/// holds no separator.
pub open spec fn is_plain_name(name: Seq<char>) -> bool {
    &&& name.len() > 0
    &&& '0' <= name[0] <= '9'
    &&& has_no_separator(name)
}

/// Relies on `std::path::Path::join`: the directory with the name adjoined.
/// A plain name is pushed as the new final component, so it is the file name
/// of the result.
#[verifier::external_body]
pub(crate) fn path_join(dir: &str, name: &str) -> (r: String)
    ensures
        r@ == join_of(dir@, name@),
        is_plain_name(name@) ==> file_name_of(r@) == Some(name@),
{
    std::path::Path::new(dir).join(name).to_string_lossy().into_owned()
}

/// Relies on `std::path::Path::parent`: the path without its final component,
/// if there is one, which is shorter than the path itself.
#[verifier::external_body]
pub(crate) fn path_parent(path: &str) -> (r: Option<String>)
    ensures
        match r {
            Some(q) => parent_of(path@) == Some(q@) && q@.len() < path@.len(),
            None => parent_of(path@) is None,
        },
{
    std::path::Path::new(path).parent().map(|q| q.to_string_lossy().into_owned())
}

/// Relies on `std::path::Path::file_name`: the final component of the path,
/// if it is a normal one.
#[verifier::external_body]
pub(crate) fn path_file_name(path: &str) -> (r: Option<String>)
    ensures
        match r {
            Some(f) => file_name_of(path@) == Some(f@),
            None => file_name_of(path@) is None,
        },
{
    std::path::Path::new(path).file_name().map(|f| f.to_string_lossy().into_owned())
}

} // verus!
