use vstd::prelude::*;
use std::sync::Arc;
use crate::paths::{file_name_of, parent_of, path_file_name, path_parent};

verus! {

/// `libloading::Library`, the handle of an open library, carried through
/// unopened: nothing here depends on what is inside it.
#[verifier::external_type_specification]
#[verifier::external_body]
pub struct ExLibrary(libloading::Library);

/// A loaded shared library.
pub struct Lib {
    /// The open library; see libloading on how to get symbols from it.
    pub lib: libloading::Library,
    /// The path the library was opened from, a shadow copy when shadowing.
    pub loaded_path: String,
    /// The file watched for changes; `None` when the library was opened in
    /// place, which also means it is never reloaded.
    pub original_path: Option<String>,
}

/// The paths of a loaded library, as values.
pub struct LibView {
    pub loaded_path: Seq<char>,
    pub original_path: Option<Seq<char>>,
}

/// An optional string, as a value.
pub open spec fn opt_view(o: Option<String>) -> Option<Seq<char>> {
    match o {
        Some(s) => Some(s@),
        None => None,
    }
}

impl View for Lib {
    type V = LibView;

    open spec fn view(&self) -> LibView {
        LibView { loaded_path: self.loaded_path@, original_path: opt_view(self.original_path) }
    }
}

/// Two libraries are the same library when they come from the same source
/// file, whatever they were loaded from and whatever handle they hold.
impl PartialEq for Lib {
    fn eq(&self, other: &Lib) -> (r: bool)
        ensures
            r == (self@.original_path == other@.original_path),
    {
        match (&self.original_path, &other.original_path) {
            (Some(a), Some(b)) => *a == *b,
            (None, None) => true,
            _ => false,
        }
    }
}

impl vstd::std_specs::cmp::PartialEqSpecImpl for Lib {
    open spec fn obeys_eq_spec() -> bool {
        true
    }

    open spec fn eq_spec(&self, other: &Lib) -> bool {
        self@.original_path == other@.original_path
    }
}

/// A change reported for `event_path` concerns a library when the library
/// is watched and its source has the same file name.
pub open spec fn reload_matches(event_path: Seq<char>, lib: LibView) -> bool {
    match lib.original_path {
        Some(o) => file_name_of(event_path) == file_name_of(o),
        None => false,
    }
}

/// Whether a change reported for `event_path` concerns `lib`: only the file
/// names are compared, so a shadow copy never matches its source by path.
pub fn should_reload(event_path: &str, lib: &Lib) -> (r: bool)
    ensures
        r == reload_matches(event_path@, lib@),
{
    match &lib.original_path {
        Some(o) => {
            let a = path_file_name(event_path);
            let b = path_file_name(o.as_str());
            match (a, b) {
                (Some(x), Some(y)) => x == y,
                (None, None) => true,
                _ => false,
            }
        },
        None => false,
    }
}

/// `s` with its element at `i` replaced by its last one and shortened by
/// one, as `Vec::swap_remove` leaves it.
pub open spec fn swap_removed(s: Seq<Arc<Lib>>, i: int) -> Seq<Arc<Lib>> {
    s.update(i, s.last()).drop_last()
}

/// Where in `libs` the library with source `o` stands, if anywhere.
pub open spec fn index_of_original(libs: Seq<Arc<Lib>>, o: Seq<char>) -> Option<int> {
    if exists|k: int| 0 <= k < libs.len() && libs[k]@.original_path == Some(o) {
        Some(choose|k: int| 0 <= k < libs.len() && libs[k]@.original_path == Some(o))
    } else {
        None
    }
}

/// `libs` once `lib` is registered: it replaces the entry with the same
/// source, if there is one, and is appended.
pub open spec fn registered(libs: Seq<Arc<Lib>>, lib: Arc<Lib>) -> Seq<Arc<Lib>> {
    match lib@.original_path {
        Some(o) => match index_of_original(libs, o) {
            Some(k) => swap_removed(libs, k).push(lib),
            None => libs.push(lib),
        },
        None => libs.push(lib),
    }
}

/// The directory that registering `lib` starts watching, if any: the
/// parent of its source, when watching is on and it is not watched yet.
pub open spec fn dir_to_watch(watching: bool, watched: Seq<Seq<char>>, lib: LibView) -> Option<
    Seq<char>,
> {
    if watching {
        match lib.original_path {
            Some(o) => match parent_of(o) {
                Some(d) => if watched.contains(d) {
                    None
                } else {
                    Some(d)
                },
                None => None,
            },
            None => None,
        }
    } else {
        None
    }
}

/// No two libraries come from the same source file.
pub open spec fn unique_originals(libs: Seq<Arc<Lib>>) -> bool {
    forall|i: int, j: int|
        0 <= i < libs.len() && 0 <= j < libs.len() && i != j && (#[trigger] libs[i])@.original_path
            is Some ==> libs[i]@.original_path != (#[trigger] libs[j])@.original_path
}

/// The directory of every watched source is among the watched directories.
pub open spec fn watch_covers(libs: Seq<Arc<Lib>>, watched: Seq<Seq<char>>) -> bool {
    forall|i: int|
        0 <= i < libs.len() ==> match (#[trigger] libs[i])@.original_path {
            Some(o) => match parent_of(o) {
                Some(d) => watched.contains(d),
                None => true,
            },
            None => true,
        }
}

/// Relies on `std::mem::forget`: the handle is never dropped, so the
/// library it holds is never unloaded.
#[verifier::external_body]
fn leak(lib: Arc<Lib>) {
    std::mem::forget(lib)
}

/// The libraries that are loaded, and the directories watched for changes
/// to their sources.
pub struct Registry {
    libs: Vec<Arc<Lib>>,
    watched: Vec<String>,
    watching: bool,
    never_unload: bool,
}

impl Registry {
    /// The loaded libraries, most recently registered last.
    pub closed spec fn libs(&self) -> Seq<Arc<Lib>> {
        self.libs@
    }

    /// The directories under watch, in the order they were first watched.
    pub closed spec fn watched(&self) -> Seq<Seq<char>> {
        self.watched@.map_values(|s: String| s@)
    }

    /// Whether changes on disk are watched at all.
    pub closed spec fn watching(&self) -> bool {
        self.watching
    }

    /// Whether removed libraries are leaked instead of unloaded.
    pub closed spec fn never_unload(&self) -> bool {
        self.never_unload
    }

    /// At most one library per source file; with watching on, every source's
    /// directory is watched, once; with it off, nothing is.
    pub open spec fn wf(&self) -> bool {
        &&& unique_originals(self.libs())
        &&& self.watched().no_duplicates()
        &&& self.watching() ==> watch_covers(self.libs(), self.watched())
        &&& !self.watching() ==> self.watched().len() == 0
    }

    /// An empty registry. `watching` tells whether changes can be watched;
    /// `never_unload` makes removal leak libraries instead of unloading them,
    /// for libraries whose teardown is unsafe to run.
    pub fn new(watching: bool, never_unload: bool) -> (r: Registry)
        ensures
            r.wf(),
            r.libs().len() == 0,
            r.watched().len() == 0,
            r.watching() == watching,
            r.never_unload() == never_unload,
    {
        let r = Registry { libs: Vec::new(), watched: Vec::new(), watching, never_unload };
        assert(r.watched() =~= Seq::<Seq<char>>::empty());
        r
    }

    /// How many libraries are loaded.
    pub fn len(&self) -> (r: usize)
        ensures
            r == self.libs().len(),
    {
        self.libs.len()
    }

    /// The library at position `i`.
    pub fn get(&self, i: usize) -> (r: &Arc<Lib>)
        requires
            i < self.libs().len(),
        ensures
            *r == self.libs()[i as int],
    {
        &self.libs[i]
    }

    /// The directories under watch.
    pub fn watched_dirs(&self) -> (r: &Vec<String>)
        ensures
            r@.map_values(|s: String| s@) == self.watched(),
    {
        &self.watched
    }

    /// Whether changes on disk are watched.
    pub fn is_watching(&self) -> (r: bool)
        ensures
            r == self.watching(),
    {
        self.watching
    }

    /// Removes the library at `idx`; the last one takes its place. The
    /// registry's reference is released, or leaked when libraries are never
    /// to be unloaded; a library is unloaded once no one holds it.
    pub fn remove_lib(&mut self, idx: usize)
        requires
            old(self).wf(),
            idx < old(self).libs().len(),
        ensures
            final(self).wf(),
            final(self).libs() == swap_removed(old(self).libs(), idx as int),
            final(self).watched() == old(self).watched(),
            final(self).watching() == old(self).watching(),
            final(self).never_unload() == old(self).never_unload(),
    {
        let ghost before = self.libs@;
        let removed = self.libs.swap_remove(idx);
        proof {
            lemma_swap_removed_wf(before, idx as int, self.watched(), self.watching);
        }
        if self.never_unload {
            leak(removed);
        }
    }

    fn position_of(&self, o: &String) -> (r: Option<usize>)
        requires
            unique_originals(self.libs()),
        ensures
            match r {
                Some(k) => index_of_original(self.libs(), o@) == Some(k as int),
                None => index_of_original(self.libs(), o@) is None,
            },
    {
        let mut k: usize = 0;
        while k < self.libs.len()
            invariant
                k <= self.libs@.len(),
                unique_originals(self.libs()),
                forall|j: int| 0 <= j < k ==> self.libs@[j]@.original_path != Some(o@),
            decreases self.libs@.len() - k,
        {
            match &self.libs[k].original_path {
                Some(p) => {
                    if *p == *o {
                        proof {
                            assert(self.libs()[k as int]@.original_path == Some(o@));
                            assert(exists|c: int|
                                0 <= c < self.libs().len() && self.libs()[c]@.original_path
                                    == Some(o@));
                            let c = choose|c: int|
                                0 <= c < self.libs().len() && self.libs()[c]@.original_path
                                    == Some(o@);
                            if c != k {
                                assert(self.libs()[k as int]@.original_path
                                    != self.libs()[c]@.original_path);
                            }
                        }
                        return Some(k);
                    }
                },
                None => {},
            }
            k = k + 1;
        }
        None
    }

    /// Registers a loaded library and hands back the shared handle. A library
    /// from the same source as one already registered replaces it. Also
    /// returns the directory the caller has to start watching, if the
    /// library's source lies in one that is not watched yet.
    pub fn add(&mut self, lib: Lib) -> (r: (Arc<Lib>, Option<String>))
        requires
            old(self).wf(),
        ensures
            final(self).wf(),
            *r.0 == lib,
            final(self).libs() == registered(old(self).libs(), r.0),
            opt_view(r.1) == dir_to_watch(old(self).watching(), old(self).watched(), lib@),
            final(self).watched() == match dir_to_watch(
                old(self).watching(),
                old(self).watched(),
                lib@,
            ) {
                Some(d) => old(self).watched().push(d),
                None => old(self).watched(),
            },
            final(self).watching() == old(self).watching(),
            final(self).never_unload() == old(self).never_unload(),
    {
        let handle = Arc::new(lib);
        let mut to_watch: Option<String> = None;
        match &handle.original_path {
            Some(o) => {
                match self.position_of(o) {
                    Some(k) => self.remove_lib(k),
                    None => {},
                }
                if self.watching {
                    match path_parent(o.as_str()) {
                        Some(d) => {
                            if !self.is_watched(&d) {
                                to_watch = Some(d);
                            }
                        },
                        None => {},
                    }
                }
            },
            None => {},
        }
        let ghost mid = self.libs@;
        let ghost watched_before = self.watched();
        self.libs.push(handle.clone());
        match &to_watch {
            Some(d) => {
                self.watched.push(d.clone());
                proof {
                    assert(self.watched() =~= watched_before.push(d@));
                }
            },
            None => {},
        }
        proof {
            assert(self.libs@ == mid.push(handle));
            assert forall|i: int, j: int|
                0 <= i < self.libs@.len() && 0 <= j < self.libs@.len() && i != j && (
                #[trigger] self.libs@[i])@.original_path is Some implies self.libs@[i]@.original_path
                != (#[trigger] self.libs@[j])@.original_path by {
                if i < mid.len() && j < mid.len() {
                    assert(self.libs@[i] == mid[i] && self.libs@[j] == mid[j]);
                } else if i == mid.len() {
                    assert(mid[j]@.original_path != handle@.original_path);
                } else {
                    assert(mid[i]@.original_path != handle@.original_path);
                }
            }
            if self.watching {
                assert forall|i: int| 0 <= i < self.libs@.len() implies match (
                #[trigger] self.libs@[i])@.original_path {
                    Some(o) => match parent_of(o) {
                        Some(d) => self.watched().contains(d),
                        None => true,
                    },
                    None => true,
                } by {
                    if i < mid.len() {
                        assert(self.libs@[i] == mid[i]);
                        match mid[i]@.original_path {
                            Some(o) => match parent_of(o) {
                                Some(d) => {
                                    assert(watched_before.contains(d));
                                    let w = choose|w: int|
                                        0 <= w < watched_before.len() && watched_before[w] == d;
                                    assert(self.watched()[w] == d);
                                },
                                None => {},
                            },
                            None => {},
                        }
                    } else {
                        match handle@.original_path {
                            Some(o) => match parent_of(o) {
                                Some(d) => {
                                    if to_watch is Some {
                                        assert(self.watched().last() == d);
                                        assert(self.watched()[self.watched().len() - 1] == d);
                                    }
                                },
                                None => {},
                            },
                            None => {},
                        }
                    }
                }
            }
        }
        (handle, to_watch)
    }

    fn is_watched(&self, d: &String) -> (r: bool)
        ensures
            r == self.watched().contains(d@),
    {
        let mut k: usize = 0;
        while k < self.watched.len()
            invariant
                k <= self.watched@.len(),
                forall|j: int| 0 <= j < k ==> self.watched@[j]@ != d@,
            decreases self.watched@.len() - k,
        {
            if self.watched[k] == *d {
                assert(self.watched()[k as int] == d@);
                return true;
            }
            k = k + 1;
        }
        proof {
            if self.watched().contains(d@) {
                let w = choose|w: int| 0 <= w < self.watched().len() && self.watched()[w] == d@;
                assert(self.watched@[w]@ == d@);
            }
        }
        false
    }
}

proof fn lemma_swap_removed_wf(
    libs: Seq<Arc<Lib>>,
    idx: int,
    watched: Seq<Seq<char>>,
    watching: bool,
)
    requires
        0 <= idx < libs.len(),
        unique_originals(libs),
        watching ==> watch_covers(libs, watched),
    ensures
        unique_originals(swap_removed(libs, idx)),
        watching ==> watch_covers(swap_removed(libs, idx), watched),
{
    let s = swap_removed(libs, idx);
    let last = libs.len() - 1;
    // Each position of the result holds the element of one distinct position of `libs`.
    assert forall|i: int| 0 <= i < s.len() implies #[trigger] s[i] == libs[if i == idx {
        last
    } else {
        i
    }] by {}
    assert forall|i: int, j: int|
        0 <= i < s.len() && 0 <= j < s.len() && i != j && (#[trigger] s[i])@.original_path
            is Some implies s[i]@.original_path != (#[trigger] s[j])@.original_path by {
        let a = if i == idx { last } else { i };
        let b = if j == idx { last } else { j };
        assert(s[i] == libs[a] && s[j] == libs[b]);
    }
    if watching {
        assert forall|i: int| 0 <= i < s.len() implies match (#[trigger] s[i])@.original_path {
            Some(o) => match parent_of(o) {
                Some(d) => watched.contains(d),
                None => true,
            },
            None => true,
        } by {
            let a = if i == idx { last } else { i };
            assert(s[i] == libs[a]);
        }
    }
}

} // verus!
