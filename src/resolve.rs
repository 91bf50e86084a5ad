use vstd::prelude::*;
use crate::error::Error;
use crate::paths::{join_of, parent_of, path_join, path_parent};

verus! {

/// How far up from the executable a search may go. Every search walks from
/// the executable's directory up to the root, whichever is chosen; the choice
/// is kept for callers that state their intent.
#[derive(Clone, Copy, Debug, PartialEq, Eq, Structural)]
pub enum Search {
    /// Search in the current directory only.
    Default,
    /// Search in the current directory and in its parents as well.
    Backwards,
}

/// The chain of parents of `path`, nearest first, taking at most `steps`
/// of them.
pub open spec fn parents_within(path: Seq<char>, steps: nat) -> Seq<Seq<char>>
    decreases steps,
{
    if steps == 0 {
        seq![]
    } else {
        match parent_of(path) {
            Some(q) => seq![q] + parents_within(q, (steps - 1) as nat),
            None => seq![],
        }
    }
}

/// The directories above `path`, nearest first: its parent, the parent's
/// parent, and so on up to the one that has no parent. Each parent is
/// shorter than its child, so the chain ends within `path.len() + 1` steps.
pub open spec fn ancestry(path: Seq<char>) -> Seq<Seq<char>> {
    parents_within(path, path.len() + 1)
}

/// The strings of a vector, as values.
pub open spec fn views(v: Seq<String>) -> Seq<Seq<char>> {
    v.map_values(|s: String| s@)
}

/// `name` joined to each directory of `dirs`, in order.
pub open spec fn joined(dirs: Seq<Seq<char>>, name: Seq<char>) -> Seq<Seq<char>> {
    dirs.map_values(|d: Seq<char>| join_of(d, name))
}

/// The places searched for a library file, in order: the name itself
/// (relative to the working directory), the name in each search path, and
/// the name in each directory from the executable's up to the root.
pub open spec fn candidates_of(
    lib_name: Seq<char>,
    search_paths: Seq<Seq<char>>,
    exe_path: Seq<char>,
) -> Seq<Seq<char>> {
    seq![lib_name] + joined(search_paths, lib_name) + joined(ancestry(exe_path), lib_name)
}

/// The position of the first `true`, if any (see `lemma_first_found`).
pub open spec fn first_found(found: Seq<bool>) -> Option<int> {
    if exists|i: int| 0 <= i < found.len() && found[i] {
        Some(choose|i: int| 0 <= i < found.len() && found[i] && forall|j: int| 0 <= j < i ==> !found[j])
    } else {
        None
    }
}

/// What the search settles on: the first candidate that is a file.
pub open spec fn resolved(candidates: Seq<Seq<char>>, found: Seq<bool>) -> Option<Seq<char>> {
    match first_found(found) {
        Some(i) => if i < candidates.len() { Some(candidates[i]) } else { None },
        None => None,
    }
}

proof fn lemma_least_marked(found: Seq<bool>, i: int)
    requires
        0 <= i < found.len(),
        found[i],
    ensures
        exists|k: int| 0 <= k <= i && found[k] && forall|j: int| 0 <= j < k ==> !found[j],
    decreases i,
{
    if exists|j: int| 0 <= j < i && found[j] {
        let j = choose|j: int| 0 <= j < i && found[j];
        lemma_least_marked(found, j);
    } else {
        assert(forall|j: int| 0 <= j < i ==> !found[j]);
    }
}

/// When some position is marked, the first found is the least marked
/// position, which is at most any marked one.
pub proof fn lemma_first_found(found: Seq<bool>, i: int)
    requires
        0 <= i < found.len(),
        found[i],
    ensures
        first_found(found) matches Some(k) && 0 <= k <= i && found[k] && forall|j: int|
            0 <= j < k ==> !found[j],
{
    lemma_least_marked(found, i);
    let k = choose|k: int| 0 <= k < found.len() && found[k] && forall|j: int| 0 <= j < k ==> !found[j];
    if k > i {
        assert(!found[i]);
    }
}

proof fn lemma_first_found_at(found: Seq<bool>, i: int)
    requires
        0 <= i < found.len(),
        found[i],
        forall|j: int| 0 <= j < i ==> !found[j],
    ensures
        first_found(found) == Some(i),
{
    let k = choose|k: int| 0 <= k < found.len() && found[k] && forall|j: int| 0 <= j < k ==> !found[j];
    if k < i {
        assert(!found[k]);
    }
    if i < k {
        assert(!found[i]);
    }
}

/// The directories above `path`, nearest first, up to the root.
pub fn ancestors(path: &str) -> (r: Vec<String>)
    ensures
        views(r@) == ancestry(path@),
{
    let mut r: Vec<String> = Vec::new();
    let mut cur = String::from_str(path);
    let ghost mut steps: nat = path@.len() + 1;
    loop
        invariant
            views(r@) + parents_within(cur@, steps) == ancestry(path@),
            cur@.len() < steps,
        decreases cur@.len(),
    {
        match path_parent(cur.as_str()) {
            Some(q) => {
                proof {
                    assert(parents_within(cur@, steps) == seq![q@] + parents_within(
                        q@,
                        (steps - 1) as nat,
                    ));
                    assert(views(r@.push(q)) == views(r@).push(q@));
                    assert(views(r@).push(q@) + parents_within(q@, (steps - 1) as nat) == views(r@)
                        + parents_within(cur@, steps));
                    steps = (steps - 1) as nat;
                }
                r.push(q.clone());
                cur = q;
            },
            None => {
                proof {
                    assert(parents_within(cur@, steps) == Seq::<Seq<char>>::empty());
                    assert(views(r@) + parents_within(cur@, steps) == views(r@));
                }
                return r;
            },
        }
    }
}

/// Every place a library file named `lib_name` is looked for, in the order
/// in which they are tried.
pub fn search_candidates(lib_name: &str, search_paths: &Vec<String>, exe_path: &str) -> (r: Vec<
    String,
>)
    ensures
        views(r@) == candidates_of(lib_name@, views(search_paths@), exe_path@),
{
    let mut r: Vec<String> = Vec::new();
    r.push(String::from_str(lib_name));
    let mut i: usize = 0;
    while i < search_paths.len()
        invariant
            i <= search_paths.len(),
            views(r@) == seq![lib_name@] + joined(views(search_paths@).take(i as int), lib_name@),
        decreases search_paths.len() - i,
    {
        let p = path_join(search_paths[i].as_str(), lib_name);
        proof {
            assert(views(search_paths@).take(i + 1) == views(search_paths@).take(i as int).push(
                search_paths@[i as int]@,
            ));
            assert(views(r@.push(p)) == views(r@).push(p@));
        }
        r.push(p);
        i = i + 1;
    }
    assert(views(search_paths@).take(i as int) == views(search_paths@));
    let dirs = ancestors(exe_path);
    let mut k: usize = 0;
    while k < dirs.len()
        invariant
            k <= dirs.len(),
            views(dirs@) == ancestry(exe_path@),
            views(r@) == seq![lib_name@] + joined(views(search_paths@), lib_name@) + joined(
                views(dirs@).take(k as int),
                lib_name@,
            ),
        decreases dirs.len() - k,
    {
        let p = path_join(dirs[k].as_str(), lib_name);
        proof {
            assert(views(dirs@).take(k + 1) == views(dirs@).take(k as int).push(dirs@[k as int]@));
            assert(views(r@.push(p)) == views(r@).push(p@));
        }
        r.push(p);
        k = k + 1;
    }
    assert(views(dirs@).take(k as int) == views(dirs@));
    r
}

/// The first candidate found to be a file, if any: the search stops at the
/// first match. `found[i]` tells whether `candidates[i]` is a regular file;
/// the two are read in step, and a mark past the last candidate names none.
pub fn resolve(candidates: &Vec<String>, found: &Vec<bool>) -> (r: Option<String>)
    ensures
        match r {
            Some(c) => resolved(views(candidates@), found@) == Some(c@),
            None => resolved(views(candidates@), found@) is None,
        },
{
    let mut i: usize = 0;
    while i < found.len()
        invariant
            i <= found.len(),
            forall|j: int| 0 <= j < i ==> !found@[j],
        decreases found.len() - i,
    {
        if found[i] {
            proof {
                lemma_first_found_at(found@, i as int);
            }
            if i < candidates.len() {
                return Some(candidates[i].clone());
            }
            return None;
        }
        i = i + 1;
    }
    None
}

/// Locates the library named `name`: the first candidate that is a file, or
/// `Error::Find` with the name when none is.
pub fn find_library(name: &str, candidates: &Vec<String>, found: &Vec<bool>) -> (r: Result<
    String,
    Error,
>)
    ensures
        match r {
            Ok(c) => resolved(views(candidates@), found@) == Some(c@),
            Err(Error::Find(n)) => resolved(views(candidates@), found@) is None && n@ == name@,
            Err(_) => false,
        },
{
    match resolve(candidates, found) {
        Some(c) => Ok(c),
        None => Err(Error::Find(String::from_str(name))),
    }
}

/// A file present in the working directory wins over every other place:
/// the search returns the bare file name.
pub proof fn lemma_working_directory_first(
    lib_name: Seq<char>,
    search_paths: Seq<Seq<char>>,
    exe_path: Seq<char>,
    found: Seq<bool>,
)
    requires
        found.len() == candidates_of(lib_name, search_paths, exe_path).len(),
        found[0],
    ensures
        resolved(candidates_of(lib_name, search_paths, exe_path), found) == Some(lib_name),
{
    lemma_first_found_at(found, 0);
}

/// When no place in the whole search order holds the file, the search
/// comes back empty and locating the library fails with `Error::Find`.
pub proof fn lemma_nothing_found(candidates: Seq<Seq<char>>, found: Seq<bool>)
    requires
        found.len() == candidates.len(),
        forall|i: int| 0 <= i < found.len() ==> !found[i],
    ensures
        resolved(candidates, found) is None,
{
}

/// The search paths as configured: each given path, replaced by its
/// canonical form where `canonical` holds one for it.
pub fn get_search_paths(search_paths: Option<Vec<String>>, canonical: &Vec<Option<String>>) -> (r: Vec<
    String,
>)
    ensures
        match search_paths {
            None => r@.len() == 0,
            Some(paths) => r@.len() == paths@.len() && forall|i: int|
                0 <= i < paths@.len() ==> #[trigger] r@[i]@ == if i < canonical@.len()
                    && canonical@[i] is Some {
                    canonical@[i]->0@
                } else {
                    paths@[i]@
                },
        },
{
    let mut r: Vec<String> = Vec::new();
    match search_paths {
        None => r,
        Some(paths) => {
            let mut i: usize = 0;
            while i < paths.len()
                invariant
                    i <= paths.len(),
                    r@.len() == i,
                    forall|j: int|
                        0 <= j < i ==> #[trigger] r@[j]@ == if j < canonical@.len()
                            && canonical@[j] is Some {
                            canonical@[j]->0@
                        } else {
                            paths@[j]@
                        },
                decreases paths.len() - i,
            {
                let p = if i < canonical.len() {
                    match &canonical[i] {
                        Some(c) => c.clone(),
                        None => paths[i].clone(),
                    }
                } else {
                    paths[i].clone()
                };
                r.push(p);
                i = i + 1;
            }
            r
        },
    }
}

} // verus!
