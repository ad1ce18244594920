//! The loader's error taxonomy. Every parse failure is reported to the
//! caller as a structured value; the loader never aborts the process.

use vstd::prelude::*;

verus! {

/// Mathematical image of an [`ObjError`]: payloads are sequences instead of
/// vectors, so the functional model of the parse can speak of errors.
pub enum ErrModel {
    /// Input could not be obtained; produced only by I/O collaborators,
    /// never by the loader itself.
    IOError,
    /// A numeric attribute token failed to parse as a float literal.
    MalformedNumber { line: Seq<u8>, token: Seq<u8> },
    /// A face index sub-token failed to parse as an unsigned integer.
    MalformedIndex { line: Seq<u8>, token: Seq<u8> },
    /// A face line declares fewer than three vertices.
    DegenerateFace { line: Seq<u8> },
    /// A normalized index falls outside its pool's bounds, or a
    /// negative/relative or zero file index was supplied.
    IndexOutOfRange,
    /// Some faces supply texture-coordinate indices and others do not,
    /// within the same file.
    InconsistentTexcoords,
    /// Internal defect signal: the resolution pass could not resolve a key
    /// the discovery pass should have registered. Verification shows the
    /// loader never produces it.
    DedupInvariantBroken,
}

/// A structured parse failure, returned to the caller.
#[derive(Debug)]
pub enum ObjError {
    /// Input could not be obtained; for the use of I/O collaborators.
    IOError,
    /// A numeric attribute token failed to parse as a float literal.
    MalformedNumber { line: Vec<u8>, token: Vec<u8> },
    /// A face index sub-token failed to parse as an unsigned integer.
    MalformedIndex { line: Vec<u8>, token: Vec<u8> },
    /// A face line declares fewer than three vertices.
    DegenerateFace { line: Vec<u8> },
    /// An index falls outside its pool, or is negative, relative or zero.
    IndexOutOfRange,
    /// Texture-coordinate indices are present on some face vertices and
    /// absent on others.
    InconsistentTexcoords,
    /// Internal defect signal; never produced by this loader.
    DedupInvariantBroken,
}

impl View for ObjError {
    type V = ErrModel;

    open spec fn view(&self) -> ErrModel {
        match self {
            ObjError::IOError => ErrModel::IOError,
            ObjError::MalformedNumber { line, token } => ErrModel::MalformedNumber {
                line: line@,
                token: token@,
            },
            ObjError::MalformedIndex { line, token } => ErrModel::MalformedIndex {
                line: line@,
                token: token@,
            },
            ObjError::DegenerateFace { line } => ErrModel::DegenerateFace { line: line@ },
            ObjError::IndexOutOfRange => ErrModel::IndexOutOfRange,
            ObjError::InconsistentTexcoords => ErrModel::InconsistentTexcoords,
            ObjError::DedupInvariantBroken => ErrModel::DedupInvariantBroken,
        }
    }
}

impl ObjError {
    /// A short human-readable name of the error kind, for diagnostics.
    pub fn kind_name(&self) -> (r: &'static str)
        ensures
            r@ == self.spec_kind_name(),
    {
        match self {
            ObjError::IOError => "io error",
            ObjError::MalformedNumber { .. } => "malformed number",
            ObjError::MalformedIndex { .. } => "malformed index",
            ObjError::DegenerateFace { .. } => "degenerate face",
            ObjError::IndexOutOfRange => "index out of range",
            ObjError::InconsistentTexcoords => "inconsistent texcoords",
            ObjError::DedupInvariantBroken => "dedup invariant broken",
        }
    }

    /// What [`ObjError::kind_name`] returns, as a sequence of characters.
    pub open spec fn spec_kind_name(&self) -> Seq<char> {
        match self {
            ObjError::IOError => "io error"@,
            ObjError::MalformedNumber { .. } => "malformed number"@,
            ObjError::MalformedIndex { .. } => "malformed index"@,
            ObjError::DegenerateFace { .. } => "degenerate face"@,
            ObjError::IndexOutOfRange => "index out of range"@,
            ObjError::InconsistentTexcoords => "inconsistent texcoords"@,
            ObjError::DedupInvariantBroken => "dedup invariant broken"@,
        }
    }
}

} // verus!
