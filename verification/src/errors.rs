//! The failure taxonomy shared by every fallible operation in the crate.

use vstd::prelude::*;

verus! {

/// A closed enumeration of the failure kinds of the utility.
///
/// `Io`, `Codec` and `Transport` carry the rendering of the underlying cause
/// (a filesystem error, a malformed record, a failed HTTP exchange);
/// `DataTooOld` marks a cache file whose modification time lies outside the
/// freshness window.
#[derive(Debug)]
pub enum ErrorExt {
    Io(String),
    Codec(String),
    Transport(String),
    DataTooOld,
}

impl ErrorExt {
    /// The short, fixed category name of the failure.
    pub open spec fn spec_description(&self) -> Seq<char> {
        match self {
            ErrorExt::Io(_) => "I/O error"@,
            ErrorExt::Codec(_) => "codec error"@,
            ErrorExt::Transport(_) => "transport error"@,
            ErrorExt::DataTooOld => "data too old"@,
        }
    }

    /// The rendering of the underlying cause, when one is carried.
    pub open spec fn spec_cause(&self) -> Option<Seq<char>> {
        match self {
            ErrorExt::Io(c) => Some(c@),
            ErrorExt::Codec(c) => Some(c@),
            ErrorExt::Transport(c) => Some(c@),
            ErrorExt::DataTooOld => None,
        }
    }

    pub fn description(&self) -> (r: &'static str)
        ensures
            r@ == self.spec_description(),
    {
        match self {
            ErrorExt::Io(_) => "I/O error",
            ErrorExt::Codec(_) => "codec error",
            ErrorExt::Transport(_) => "transport error",
            ErrorExt::DataTooOld => "data too old",
        }
    }

    pub fn cause(&self) -> (r: Option<&String>)
        ensures
            match r {
                Some(c) => self.spec_cause() == Some(c@),
                None => self.spec_cause() is None,
            },
    {
        match self {
            ErrorExt::Io(c) => Some(c),
            ErrorExt::Codec(c) => Some(c),
            ErrorExt::Transport(c) => Some(c),
            ErrorExt::DataTooOld => None,
        }
    }
}

} // verus!
