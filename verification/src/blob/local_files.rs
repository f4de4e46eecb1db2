//! The local store: the home of a host-provided blob while it is local.
//!
//! The file there is the blob's only instance, not a copy of anything, so it is never
//! evicted. A user-provided blob is the user's own file and is not in this store.

use vstd::prelude::*;
use vstd::string::*;

use crate::store_dir::{first_fault, local_path_text, PathTokenError, StoreDir};
use crate::text::{decimal, decimal_text};

verus! {

/// Why a local-store operation failed.
#[derive(Debug)]
pub enum LocalBlobError {
    /// A namespace or an id that cannot stand in a path.
    Path(PathTokenError),
    /// A failure of the local disk, in words.
    Io(String),
}

impl LocalBlobError {
    /// The error in words.
    pub open spec fn message_text(self) -> Seq<char> {
        match self {
            LocalBlobError::Path(fault) => "local blob path error: "@ + fault.message_text(),
            LocalBlobError::Io(detail) => "local blob I/O error: "@ + detail@,
        }
    }

    /// The error in words.
    pub fn message(&self) -> (text: String)
        ensures
            text@ == self.message_text(),
    {
        match self {
            LocalBlobError::Path(fault) => "local blob path error: ".to_owned().concat(
                fault.message().as_str(),
            ),
            LocalBlobError::Io(detail) => "local blob I/O error: ".to_owned().concat(
                detail.as_str(),
            ),
        }
    }
}

/// Where a blob of the local store is, or why it can be nowhere.
pub open spec fn local_place(
    store_dir: Seq<char>,
    namespace: Seq<char>,
    id: Seq<char>,
    place: Result<String, LocalBlobError>,
) -> bool {
    match first_fault(seq![namespace, id]) {
        Some(fault) => place == Err::<String, LocalBlobError>(LocalBlobError::Path(fault)),
        None => place matches Ok(path) && path@ == local_path_text(store_dir, namespace, id),
    }
}

/// Where a host-provided blob is stored while it is local. A blob whose names cannot stand
/// in a path is refused before anything is written.
pub fn store(store_dir: &StoreDir, namespace: &str, id: &str) -> (place: Result<
    String,
    LocalBlobError,
>)
    ensures
        local_place(store_dir@, namespace@, id@, place),
{
    match store_dir.local_blob_path(namespace, id) {
        Ok(path) => Ok(path),
        Err(fault) => Err(LocalBlobError::Path(fault)),
    }
}

/// Which file is removed when a blob is dropped from the local store. That it is absent is
/// the expected case, not an error.
pub fn drop_blob(store_dir: &StoreDir, namespace: &str, id: &str) -> (place: Result<
    String,
    LocalBlobError,
>)
    ensures
        local_place(store_dir@, namespace@, id@, place),
{
    store(store_dir, namespace, id)
}

/// The operation that a read of the local store performs next.
#[derive(Debug)]
pub enum LocalReadStep {
    /// Look whether the file is there.
    Probe,
    /// Measure its length.
    MeasureLength,
    /// Read it, or the range of it that is wanted.
    ReadFile,
    /// Done: the bytes were read, or no file is there.
    Done { found: bool },
    /// Given up.
    Failed { error: LocalBlobError },
}

/// What an operation came to.
#[derive(Debug)]
pub enum LocalReadReply {
    Exists(Result<bool, String>),
    Length(Result<u64, String>),
    Bytes(Result<(), String>),
}

/// A read of one blob of the local store.
#[derive(Debug)]
pub struct LocalRead {
    /// The file.
    pub path: String,
    /// The length that the blob's row declares.
    pub expected_size: u64,
    /// The range that is wanted, as offset and length, or everything.
    pub range: Option<(u64, u64)>,
    /// What happens next.
    pub step: LocalReadStep,
}

/// Starts a read of a whole blob.
pub fn read(store_dir: &StoreDir, namespace: &str, id: &str, expected_size: u64) -> (reading: Result<
    LocalRead,
    LocalBlobError,
>)
    ensures
        match reading {
            Ok(started) => local_place(
                store_dir@,
                namespace@,
                id@,
                Ok::<String, LocalBlobError>(started.path),
            ) && started == (LocalRead {
                path: started.path,
                expected_size,
                range: None,
                step: LocalReadStep::Probe,
            }),
            Err(error) => local_place(
                store_dir@,
                namespace@,
                id@,
                Err::<String, LocalBlobError>(error),
            ),
        },
{
    match store(store_dir, namespace, id) {
        Ok(path) => Ok(
            LocalRead { path, expected_size, range: None, step: LocalReadStep::Probe },
        ),
        Err(error) => Err(error),
    }
}

/// Starts a read of `len` bytes at `offset`, which the caller has bounded by the blob's
/// length.
pub fn read_range(
    store_dir: &StoreDir,
    namespace: &str,
    id: &str,
    expected_size: u64,
    offset: u64,
    len: u64,
) -> (reading: Result<LocalRead, LocalBlobError>)
    ensures
        match reading {
            Ok(started) => local_place(
                store_dir@,
                namespace@,
                id@,
                Ok::<String, LocalBlobError>(started.path),
            ) && started == (LocalRead {
                path: started.path,
                expected_size,
                range: Some((offset, len)),
                step: LocalReadStep::Probe,
            }),
            Err(error) => local_place(
                store_dir@,
                namespace@,
                id@,
                Err::<String, LocalBlobError>(error),
            ),
        },
{
    match store(store_dir, namespace, id) {
        Ok(path) => Ok(
            LocalRead {
                path,
                expected_size,
                range: Some((offset, len)),
                step: LocalReadStep::Probe,
            },
        ),
        Err(error) => Err(error),
    }
}

/// What is said of a file of another length than its row declares.
pub open spec fn length_text(path: Seq<char>, actual: u64, expected: u64) -> Seq<char> {
    "local blob "@ + path + " has "@ + decimal(actual as nat) + " bytes, expected "@ + decimal(
        expected as nat,
    )
}

impl LocalRead {
    /// The same read at another step.
    pub open spec fn at(self, step: LocalReadStep) -> LocalRead {
        LocalRead { step, ..self }
    }

    /// What follows on each reply. No file is not an error here; a file of another length
    /// than the row declares is refused before anything is read. A reply that does not
    /// answer the step changes nothing.
    pub open spec fn follows(self, reply: LocalReadReply, next: LocalRead) -> bool {
        match (self.step, reply) {
            (LocalReadStep::Probe, LocalReadReply::Exists(found)) => next == (match found {
                Err(detail) => self.at(LocalReadStep::Failed { error: LocalBlobError::Io(detail) }),
                Ok(true) => self.at(LocalReadStep::MeasureLength),
                Ok(false) => self.at(LocalReadStep::Done { found: false }),
            }),
            (LocalReadStep::MeasureLength, LocalReadReply::Length(measured)) => {
                &&& next == self.at(next.step)
                &&& match measured {
                    Err(detail) => next.step == (LocalReadStep::Failed {
                        error: LocalBlobError::Io(detail),
                    }),
                    Ok(actual) => if actual == self.expected_size {
                        next.step is ReadFile
                    } else {
                        next.step matches LocalReadStep::Failed { error: LocalBlobError::Io(detail) }
                            && detail@ == length_text(self.path@, actual, self.expected_size)
                    },
                }
            },
            (LocalReadStep::ReadFile, LocalReadReply::Bytes(done)) => next == (match done {
                Err(detail) => self.at(LocalReadStep::Failed { error: LocalBlobError::Io(detail) }),
                Ok(_) => self.at(LocalReadStep::Done { found: true }),
            }),
            _ => next == self,
        }
    }

    fn go(self, step: LocalReadStep) -> (next: LocalRead)
        ensures
            next == self.at(step),
    {
        LocalRead { step, ..self }
    }

    /// Takes the reply to the present step and decides the next one.
    pub fn next(self, reply: LocalReadReply) -> (next: LocalRead)
        ensures
            self.follows(reply, next),
    {
        let LocalRead { path, expected_size, range, step } = self;
        let here = LocalRead { path, expected_size, range, step: LocalReadStep::Probe };
        match (step, reply) {
            (LocalReadStep::Probe, LocalReadReply::Exists(found)) => match found {
                Err(detail) => here.go(LocalReadStep::Failed { error: LocalBlobError::Io(detail) }),
                Ok(true) => here.go(LocalReadStep::MeasureLength),
                Ok(false) => here.go(LocalReadStep::Done { found: false }),
            },
            (LocalReadStep::MeasureLength, LocalReadReply::Length(measured)) => match measured {
                Err(detail) => here.go(LocalReadStep::Failed { error: LocalBlobError::Io(detail) }),
                Ok(actual) => if actual == expected_size {
                    here.go(LocalReadStep::ReadFile)
                } else {
                    let detail = "local blob ".to_owned().concat(here.path.as_str()).concat(
                        " has ",
                    ).concat(decimal_text(actual).as_str()).concat(" bytes, expected ").concat(
                        decimal_text(expected_size).as_str(),
                    );
                    here.go(LocalReadStep::Failed { error: LocalBlobError::Io(detail) })
                },
            },
            (LocalReadStep::ReadFile, LocalReadReply::Bytes(done)) => match done {
                Err(detail) => here.go(LocalReadStep::Failed { error: LocalBlobError::Io(detail) }),
                Ok(_) => here.go(LocalReadStep::Done { found: true }),
            },
            (step, _) => here.go(step),
        }
    }
}

/// Only a file of exactly the declared length is read.
pub proof fn law_only_whole_files_are_read(
    before: LocalRead,
    reply: LocalReadReply,
    after: LocalRead,
)
    requires
        before.follows(reply, after),
        after.step is ReadFile,
        !(before.step is ReadFile),
    ensures
        reply == LocalReadReply::Length(Ok(before.expected_size)),
{
}

} // verus!
