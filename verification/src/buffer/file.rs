//! What reading and writing a file of lines can come to, and how the
//! outcome of either is reported.
//!
//! The library does not touch the file system. Its caller reads or writes
//! and hands in what happened; the functions here decide what that means.

use crate::error::EditError;
use vstd::prelude::*;

verus! {

/// Why the file system refused a read or a write.
#[derive(Clone, Copy, Debug, PartialEq, Eq, Hash, Structural)]
pub enum IoFailure {
    /// The caller may not access the file.
    PermissionDenied,
    /// The file, or a directory on the way to it, does not exist.
    NotFound,
    /// Anything else.
    Other,
}

impl IoFailure {
    /// The error that stands for this failure.
    pub open spec fn error(self) -> EditError {
        match self {
            IoFailure::PermissionDenied => EditError::PermissionDenied,
            IoFailure::NotFound => EditError::NotFound,
            IoFailure::Other => EditError::Unknown,
        }
    }

    /// The error that stands for this failure.
    pub fn to_error(self) -> (e: EditError)
        ensures
            e == self.error(),
    {
        match self {
            IoFailure::PermissionDenied => EditError::PermissionDenied,
            IoFailure::NotFound => EditError::NotFound,
            IoFailure::Other => EditError::Unknown,
        }
    }
}

/// Whether an attempt to read a file amounts to lines, and to which error
/// if not.
pub open spec fn read_fault(attempt: Result<Vec<String>, IoFailure>, must_exist: bool) -> Option<
    EditError,
> {
    match attempt {
        Ok(_) => None,
        Err(IoFailure::NotFound) => if must_exist {
            Some(EditError::NotFound)
        } else {
            None
        },
        Err(failure) => Some(failure.error()),
    }
}

/// The texts that an attempt to read a file amounts to where it is not at
/// fault: those read, or none for a missing file.
pub open spec fn read_texts(attempt: Result<Vec<String>, IoFailure>) -> Seq<Seq<char>> {
    match attempt {
        Ok(lines) => crate::text::views(lines@),
        Err(_) => Seq::empty(),
    }
}

/// Turns an attempt to read a file's lines into the lines to use.
///
/// Lines that were read are handed on as they are. A missing file yields no
/// lines, or `NotFound` if it `must_exist`; every other failure is reported
/// by its kind.
pub fn read_file(attempt: Result<Vec<String>, IoFailure>, must_exist: bool) -> (r: Result<
    Vec<String>,
    EditError,
>)
    ensures
        match r {
            Ok(lines) => read_fault(attempt, must_exist) is None && crate::text::views(lines@)
                == read_texts(attempt),
            Err(e) => read_fault(attempt, must_exist) == Some(e),
        },
        attempt is Ok ==> r == Ok::<Vec<String>, EditError>(attempt->Ok_0),
{
    match attempt {
        Ok(lines) => Ok(lines),
        Err(IoFailure::NotFound) => {
            if must_exist {
                Err(EditError::NotFound)
            } else {
                let none: Vec<String> = Vec::with_capacity(0);
                assert(crate::text::views(none@) =~= Seq::<Seq<char>>::empty());
                Ok(none)
            }
        },
        Err(failure) => Err(failure.to_error()),
    }
}

/// The result of an attempt to write a file.
pub open spec fn write_result(attempt: Result<(), IoFailure>) -> Result<(), EditError> {
    match attempt {
        Ok(()) => Ok(()),
        Err(failure) => Err(failure.error()),
    }
}

/// Turns an attempt to write a file into its result: success, or the kind
/// of the failure.
pub fn write_file(attempt: Result<(), IoFailure>) -> (r: Result<(), EditError>)
    ensures
        r == write_result(attempt),
{
    match attempt {
        Ok(()) => Ok(()),
        Err(failure) => Err(failure.to_error()),
    }
}

} // verus!
