use vstd::prelude::*;

verus! {

/// The naming convention of the platform that loads the libraries.
#[derive(Clone, Copy, Debug, PartialEq, Eq, Structural)]
pub enum Platform {
    /// `name` becomes `name.dll`.
    Windows,
    /// `name` becomes `libname.so` (Linux and the BSDs).
    Unix,
    /// `name` becomes `libname.dylib`.
    Darwin,
}

/// How the name handed to the loader is to be read.
#[derive(Clone, Copy, Debug, PartialEq, Eq, Structural)]
pub enum PlatformName {
    /// The name is already a file name: leave it as it is.
    No,
    /// Format the name as the platform's shared library file name.
    Yes,
}

/// What the platform puts before a library's name.
pub open spec fn name_prefix(p: Platform) -> Seq<char> {
    match p {
        Platform::Windows => seq![],
        Platform::Unix => "lib"@,
        Platform::Darwin => "lib"@,
    }
}

/// What the platform puts after a library's name.
pub open spec fn name_suffix(p: Platform) -> Seq<char> {
    match p {
        Platform::Windows => ".dll"@,
        Platform::Unix => ".so"@,
        Platform::Darwin => ".dylib"@,
    }
}

/// The platform's file name for a library.
pub open spec fn dynamiclib_name_of(p: Platform, name: Seq<char>) -> Seq<char> {
    name_prefix(p) + name + name_suffix(p)
}

/// The file name searched for, given how the name is to be read.
pub open spec fn library_name_of(name: Seq<char>, format: PlatformName, p: Platform) -> Seq<char> {
    match format {
        PlatformName::Yes => dynamiclib_name_of(p, name),
        PlatformName::No => name,
    }
}

/// Formats `name` as the platform's shared library file name
/// ("foo" becomes "foo.dll", "libfoo.so" or "libfoo.dylib").
pub fn get_dynamiclib_name(platform: Platform, name: &str) -> (r: String)
    ensures
        r@ == dynamiclib_name_of(platform, name@),
{
    proof {
        reveal_strlit("lib");
    }
    let mut s = match platform {
        Platform::Windows => String::new(),
        _ => String::from_str("lib"),
    };
    s.append(name);
    match platform {
        Platform::Windows => s.append(".dll"),
        Platform::Unix => s.append(".so"),
        Platform::Darwin => s.append(".dylib"),
    }
    s
}

/// The file name to search for: `name` formatted for the platform, or `name`
/// itself when it already is a file name.
pub fn get_library_name(name: &str, name_format: PlatformName, platform: Platform) -> (r: String)
    ensures
        r@ == library_name_of(name@, name_format, platform),
{
    match name_format {
        PlatformName::Yes => get_dynamiclib_name(platform, name),
        PlatformName::No => String::from_str(name),
    }
}

/// Formatting follows one template per platform: the platform's prefix, the
/// name, the platform's suffix. A formatted name passes through unchanged when
/// read again as already formatted, while formatting it a second time changes
/// it.
pub proof fn lemma_format_template(name: Seq<char>, p: Platform)
    ensures
        library_name_of(name, PlatformName::Yes, p) == name_prefix(p) + name + name_suffix(p),
        library_name_of(library_name_of(name, PlatformName::Yes, p), PlatformName::No, p)
            == library_name_of(name, PlatformName::Yes, p),
        library_name_of(library_name_of(name, PlatformName::Yes, p), PlatformName::Yes, p)
            != library_name_of(name, PlatformName::Yes, p),
{
    reveal_strlit(".dll");
    reveal_strlit(".so");
    reveal_strlit(".dylib");
    let once = library_name_of(name, PlatformName::Yes, p);
    let twice = library_name_of(once, PlatformName::Yes, p);
    assert(twice.len() > once.len());
}

} // verus!
