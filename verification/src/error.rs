//! What can go wrong for a client of the store, in detail and by class.

use vstd::prelude::*;
use vstd::string::StringExecFns;

verus! {

/// The two classes of failure that a client reports.
#[derive(Clone, Copy, Debug, PartialEq, Eq, Structural)]
pub enum PostlyError {
    /// An item record could not be read, written or submitted.
    PostError,
    /// The index record could not be located, read, provisioned or updated.
    AccountError,
}

impl PostlyError {
    /// The text shown for this class.
    pub open spec fn spec_message(&self) -> Seq<char> {
        match self {
            PostlyError::PostError => "Post Error"@,
            PostlyError::AccountError => "Account Error"@,
        }
    }

    /// The text shown for this class: `Post Error` or `Account Error`.
    pub fn message(&self) -> (text: String)
        ensures
            text@ == self.spec_message(),
    {
        match self {
            PostlyError::PostError => String::from_str("Post Error"),
            PostlyError::AccountError => String::from_str("Account Error"),
        }
    }
}

/// Why an operation of the store failed.
#[derive(Clone, Copy, Debug, PartialEq, Eq, Structural)]
pub enum StoreError {
    /// The namespace identity cannot own derived locations.
    IllegalNamespace,
    /// The owner has no index record.
    NotFound,
    /// The index location holds something that is not an index record.
    CorruptIndex,
    /// The item with this sequence id is absent or is not an item record.
    MissingItem(u32),
    /// The text is too long to be stored as one item record.
    TooLong,
    /// The ledger refused to allocate the index record.
    ProvisionRejected,
    /// The ledger refused the submission that appends the item.
    SubmitRejected,
    /// The event does not answer the request that is pending.
    OutOfTurn,
}

impl StoreError {
    /// The class under which this failure is reported.
    pub open spec fn spec_class(&self) -> PostlyError {
        match self {
            StoreError::MissingItem(_) => PostlyError::PostError,
            StoreError::SubmitRejected => PostlyError::PostError,
            _ => PostlyError::AccountError,
        }
    }

    /// The class under which this failure is reported: failures about an
    /// item record are post errors, all others account errors.
    pub fn class(&self) -> (class: PostlyError)
        ensures
            class == self.spec_class(),
    {
        match self {
            StoreError::MissingItem(_) => PostlyError::PostError,
            StoreError::SubmitRejected => PostlyError::PostError,
            _ => PostlyError::AccountError,
        }
    }
}

} // verus!
