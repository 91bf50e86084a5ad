use vstd::prelude::*;

verus! {

/// The failures that loading or reloading a library can end in.
///
/// Each variant carries the text a host needs to act on it: the paths
/// involved and, where there is one, the underlying cause.
#[derive(Debug)]
pub enum Error {
    /// The platform loader rejected the binary; carries its message.
    Load(String),
    /// Copying into the shadow directory failed: cause, source, destination.
    Copy(String, String, String),
    /// The source never became a non-empty file in time: source, destination.
    CopyTimeOut(String, String),
    /// No candidate file was found for the given name.
    Find(String),
}

/// What `format!("{:?}", s)` writes for a string: Rust's debug form, quoted
/// and escaped.
pub uninterp spec fn debug_of(s: Seq<char>) -> Seq<char>;

/// Relies on the `Debug` impl of `str`, through `format!`: the text in debug
/// form, as paths and causes are shown in messages.
#[verifier::external_body]
fn debug_str(s: &str) -> (r: String)
    ensures
        r@ == debug_of(s@),
{
    format!("{:?}", s)
}

/// The short description of each kind of failure.
pub open spec fn description_of(e: Error) -> Seq<char> {
    match e {
        Error::Load(_) => "Unable to load library"@,
        Error::Copy(_, _, _) => "Unable to copy"@,
        Error::CopyTimeOut(_, _) => "Unable to copy due to time out"@,
        Error::Find(_) => "Unable to find"@,
    }
}

/// The full message of a failure: its description followed by its context,
/// paths in debug form, and for the kinds with a cause a last line naming it.
pub open spec fn message_of(e: Error) -> Seq<char> {
    match e {
        Error::Load(cause) => description_of(e) + " "@ + cause@ + "\nDue to: "@ + debug_of(cause@),
        Error::Copy(cause, src, dest) => description_of(e) + " "@ + debug_of(src@) + " to "@
            + debug_of(dest@) + "\n"@ + cause@ + "\nDue to: "@ + debug_of(cause@),
        Error::CopyTimeOut(src, dest) => description_of(e) + " "@ + debug_of(src@) + " to "@
            + debug_of(dest@),
        Error::Find(name) => description_of(e) + " "@ + name@,
    }
}

impl Error {
    /// A short description of the kind of failure.
    pub fn description(&self) -> (r: &'static str)
        ensures
            r@ == description_of(*self),
    {
        match self {
            Error::Load(_) => "Unable to load library",
            Error::Copy(_, _, _) => "Unable to copy",
            Error::CopyTimeOut(_, _) => "Unable to copy due to time out",
            Error::Find(_) => "Unable to find",
        }
    }

    /// The underlying cause, for the kinds that carry one.
    pub fn cause(&self) -> (r: Option<&String>)
        ensures
            match *self {
                Error::Load(c) => r == Some(&c),
                Error::Copy(c, _, _) => r == Some(&c),
                _ => r is None,
            },
    {
        match self {
            Error::Load(c) => Some(c),
            Error::Copy(c, _, _) => Some(c),
            Error::CopyTimeOut(_, _) => None,
            Error::Find(_) => None,
        }
    }

    /// The full, human readable message.
    pub fn to_string(&self) -> (r: String)
        ensures
            r@ == message_of(*self),
    {
        let mut s = String::from_str(self.description());
        s.append(" ");
        match self {
            Error::Load(cause) => {
                s.append(cause.as_str());
                s.append("\nDue to: ");
                s.append(debug_str(cause.as_str()).as_str());
            },
            Error::Copy(cause, src, dest) => {
                s.append(debug_str(src.as_str()).as_str());
                s.append(" to ");
                s.append(debug_str(dest.as_str()).as_str());
                s.append("\n");
                s.append(cause.as_str());
                s.append("\nDue to: ");
                s.append(debug_str(cause.as_str()).as_str());
            },
            Error::CopyTimeOut(src, dest) => {
                s.append(debug_str(src.as_str()).as_str());
                s.append(" to ");
                s.append(debug_str(dest.as_str()).as_str());
            },
            Error::Find(name) => {
                s.append(name.as_str());
            },
        }
        s
    }
}

} // verus!
