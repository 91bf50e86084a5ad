use vstd::prelude::*;
use crate::error::Error;

verus! {

/// How many times the source is looked at before the copy gives up.
pub const COPY_ATTEMPTS: u32 = 10;

/// The pause between two looks at the source, in milliseconds.
pub const COPY_PAUSE_MS: u64 = 100;

/// What the caller has to do next to bring a copy forward.
#[derive(Debug)]
pub enum CopyAction {
    /// Read the length of the source file and report it to `length_read`.
    ReadLength,
    /// Copy the source to the destination and report to `copied`.
    Copy,
    /// Wait this many milliseconds, then call `paused`.
    Pause(u64),
    /// The copy is over, with this outcome.
    Finished(Result<(), Error>),
}

/// A copy into the shadow directory that tolerates a source still being
/// written. The source must show a non-zero length before it is copied;
/// until it does it is looked at again after a pause, at most
/// `COPY_ATTEMPTS` times, after which the copy times out. A failure of the
/// copy itself ends the copy at once.
///
/// The first action of every copy is `CopyAction::ReadLength`.
pub struct CopyRetry {
    /// The file to copy.
    pub source: String,
    /// Where the copy goes.
    pub dest: String,
    /// How many looks so far found no usable source.
    pub attempts: u32,
}

/// The copy of `source` to `dest` ended by running out of attempts.
pub open spec fn is_timeout(r: CopyAction, source: Seq<char>, dest: Seq<char>) -> bool {
    r matches CopyAction::Finished(Err(Error::CopyTimeOut(s, d))) && s@ == source && d@ == dest
}

impl CopyRetry {
    /// A copy of `source` to `dest` that has not looked at the source yet.
    pub fn new(source: String, dest: String) -> (r: CopyRetry)
        ensures
            r.source == source,
            r.dest == dest,
            r.attempts == 0,
    {
        CopyRetry { source, dest, attempts: 0 }
    }

    fn timed_out(&self) -> (r: CopyAction)
        ensures
            is_timeout(r, self.source@, self.dest@),
    {
        CopyAction::Finished(Err(Error::CopyTimeOut(self.source.clone(), self.dest.clone())))
    }

    /// Takes the length of the source (`None` when it could not be read).
    /// A non-empty source is copied next; otherwise the look counts as a
    /// failed attempt and a pause follows. Once every attempt is spent the
    /// copy has timed out.
    pub fn length_read(&mut self, len: Option<u64>) -> (r: CopyAction)
        ensures
            final(self).source == old(self).source,
            final(self).dest == old(self).dest,
            old(self).attempts >= COPY_ATTEMPTS ==> final(self).attempts == old(self).attempts
                && is_timeout(r, old(self).source@, old(self).dest@),
            old(self).attempts < COPY_ATTEMPTS ==> match len {
                Some(n) if n > 0 => r is Copy && final(self).attempts == old(self).attempts,
                _ => r == CopyAction::Pause(COPY_PAUSE_MS) && final(self).attempts == old(
                    self,
                ).attempts + 1,
            },
    {
        if self.attempts >= COPY_ATTEMPTS {
            return self.timed_out();
        }
        match len {
            Some(n) if n > 0 => CopyAction::Copy,
            _ => {
                self.attempts = self.attempts + 1;
                CopyAction::Pause(COPY_PAUSE_MS)
            },
        }
    }

    /// Takes the outcome of the copy (the cause of a failure as text). A
    /// copy that went through finishes the copy; one that failed ends it
    /// with `Error::Copy`.
    pub fn copied(&self, result: Result<(), String>) -> (r: CopyAction)
        ensures
            match result {
                Ok(()) => r matches CopyAction::Finished(Ok(())),
                Err(cause) => r matches CopyAction::Finished(Err(Error::Copy(c, s, d))) && c
                    == cause && s@ == self.source@ && d@ == self.dest@,
            },
    {
        match result {
            Ok(()) => CopyAction::Finished(Ok(())),
            Err(cause) => CopyAction::Finished(
                Err(Error::Copy(cause, self.source.clone(), self.dest.clone())),
            ),
        }
    }

    /// Called after a pause: the source is looked at again while attempts
    /// remain, otherwise the copy has timed out.
    pub fn paused(&self) -> (r: CopyAction)
        ensures
            self.attempts < COPY_ATTEMPTS ==> r is ReadLength,
            self.attempts >= COPY_ATTEMPTS ==> is_timeout(r, self.source@, self.dest@),
    {
        if self.attempts < COPY_ATTEMPTS {
            CopyAction::ReadLength
        } else {
            self.timed_out()
        }
    }
}

} // verus!
