use vstd::prelude::*;
use crate::digits::push_str;
use crate::text::string_of;

verus! {

/// One file that could not be copied into the library, with the cause.
#[derive(Debug)]
pub struct CopyFailure {
    pub source: String,
    pub destination: String,
    pub error: String,
}

/// The report lines of the first `k` failures.
pub open spec fn failure_lines(f: Seq<CopyFailure>, k: int) -> Seq<char>
    decreases k,
{
    if k <= 0 {
        seq![]
    } else {
        failure_lines(f, k - 1) + "  "@ + f[k - 1].source@ + " -> "@ + f[k - 1].destination@
            + ": "@ + f[k - 1].error@ + "\n"@
    }
}

/// Every file of one run that could not be copied.
#[derive(Debug)]
pub struct CopyFailures {
    pub failures: Vec<CopyFailure>,
}

impl CopyFailures {
    pub fn new() -> (r: CopyFailures)
        ensures
            r.failures@.len() == 0,
    {
        CopyFailures { failures: Vec::new() }
    }

    /// Records one more failed copy.
    pub fn add(&mut self, source: String, destination: String, error: String)
        ensures
            final(self).failures@ == old(self).failures@.push(
                CopyFailure { source, destination, error },
            ),
    {
        self.failures.push(CopyFailure { source, destination, error });
    }

    pub fn is_empty(&self) -> (r: bool)
        ensures
            r == (self.failures@.len() == 0),
    {
        self.failures.len() == 0
    }

    /// One line per failure: "  source -> destination: cause".
    pub fn describe(&self) -> (r: String)
        ensures
            r@ == failure_lines(self.failures@, self.failures@.len() as int),
    {
        let mut out: Vec<char> = Vec::new();
        let mut i: usize = 0;
        while i < self.failures.len()
            invariant
                i <= self.failures@.len(),
                out@ == failure_lines(self.failures@, i as int),
            decreases self.failures@.len() - i,
        {
            let f = &self.failures[i];
            push_str(&mut out, "  ");
            push_str(&mut out, f.source.as_str());
            push_str(&mut out, " -> ");
            push_str(&mut out, f.destination.as_str());
            push_str(&mut out, ": ");
            push_str(&mut out, f.error.as_str());
            push_str(&mut out, "\n");
            i = i + 1;
            assert(out@ =~= failure_lines(self.failures@, i as int));
        }
        string_of(&out)
    }

    pub fn len(&self) -> (r: usize)
        ensures
            r == self.failures@.len(),
    {
        self.failures.len()
    }
}

/// What can go wrong in the library's operations.
#[derive(Debug)]
pub enum PhotosortError {
    Database(String),
    Migration(String),
    Io(String),
    CopyFailed(CopyFailures),
    Walkdir(String),
    PathNotFound(String),
    NotADirectory(String),
    LibraryExists(String),
    LibraryNotFound(String),
    InvalidLibrary(String),
    Exiftool(String),
    InvalidDateFormat(String),
    MetadataExtraction { path: String, reason: String },
    Cancelled,
    Conflict(String),
    RemoteConnection(String),
    Remote(String),
    Library(String),
    Rsync(String),
    Argument(String),
    /// The index has no ids left for the rows that a run would add.
    IdsExhausted,
    Other(String),
}

} // verus!
