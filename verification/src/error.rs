use vstd::prelude::*;

verus! {

/// The typed failures an operation can report. Every operation either fully
/// commits or reports exactly one of these and commits nothing.
#[derive(Clone, Copy, Debug, PartialEq, Eq, Structural)]
pub enum ErrorCode {
    /// A record was created twice at one address: a duplicate `initialize`,
    /// or the losing side of a race on a record's first creation.
    AlreadyExists,
    /// A read or reset named a record that was never created.
    NotFound,
    /// An admin-gated operation ran before any successful `initialize`.
    NotInitialized,
    /// `admin_reset_favorite_number` was called by an identity other than the
    /// recorded admin.
    Unauthorized,
    /// A blob handed to the record store does not match the record's fixed
    /// layout width.
    SizeMismatch,
}

} // verus!
