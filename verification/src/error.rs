//! Why a block was not found valid.

use vstd::prelude::*;

verus! {

/// How the chain refuses what a block holds.
#[derive(Clone, Debug)]
pub enum ChainCommitStateError {
    DuplicateBatch(String),
    DuplicateTransaction(String),
    MissingDependency(String),
    Error(String),
}

/// The failure of a service that a validation asks, in both of its renderings.
#[derive(Clone, Debug)]
pub struct ServiceError {
    /// For users.
    pub display: String,
    /// For developers.
    pub debug: String,
}

/// Why a block was not found valid.
#[derive(Debug, Clone, PartialEq)]
pub enum ValidationError {
    /// The block is invalid.
    BlockValidationFailure(String),
    /// The block could not be judged.
    BlockValidationError(String),
}

/// Mathematical content of a [`ValidationError`].
pub enum ErrorView {
    BlockValidationFailure(Seq<char>),
    BlockValidationError(Seq<char>),
}

impl View for ValidationError {
    type V = ErrorView;

    open spec fn view(&self) -> ErrorView {
        match *self {
            ValidationError::BlockValidationFailure(reason) => {
                ErrorView::BlockValidationFailure(reason@)
            },
            ValidationError::BlockValidationError(reason) => {
                ErrorView::BlockValidationError(reason@)
            },
        }
    }
}

/// What a check without a value of its own came to.
pub open spec fn verdict(result: Result<(), ValidationError>) -> Result<(), ErrorView> {
    match result {
        Ok(()) => Ok(()),
        Err(error) => Err(error@),
    }
}

/// The verdict on a block whose contents the chain refuses: a duplicate or a
/// missing dependency makes the block invalid, any other trouble leaves it
/// unjudged.
pub open spec fn refusal(error: ChainCommitStateError) -> ErrorView {
    match error {
        ChainCommitStateError::DuplicateBatch(batch_id) => ErrorView::BlockValidationFailure(
            "Validation failure, duplicate batch "@ + batch_id@,
        ),
        ChainCommitStateError::DuplicateTransaction(txn_id) => ErrorView::BlockValidationFailure(
            "Validation failure, duplicate transaction "@ + txn_id@,
        ),
        ChainCommitStateError::MissingDependency(txn_id) => ErrorView::BlockValidationFailure(
            "Validation failure, missing dependency "@ + txn_id@,
        ),
        ChainCommitStateError::Error(reason) => ErrorView::BlockValidationError(reason@),
    }
}

impl From<ChainCommitStateError> for ValidationError {
    fn from(other: ChainCommitStateError) -> (error: Self)
        ensures
            error@ == refusal(other),
    {
        match other {
            ChainCommitStateError::DuplicateBatch(batch_id) => {
                ValidationError::BlockValidationFailure(
                    "Validation failure, duplicate batch ".to_owned().concat(batch_id.as_str()),
                )
            },
            ChainCommitStateError::DuplicateTransaction(txn_id) => {
                ValidationError::BlockValidationFailure(
                    "Validation failure, duplicate transaction ".to_owned().concat(txn_id.as_str()),
                )
            },
            ChainCommitStateError::MissingDependency(txn_id) => {
                ValidationError::BlockValidationFailure(
                    "Validation failure, missing dependency ".to_owned().concat(txn_id.as_str()),
                )
            },
            ChainCommitStateError::Error(reason) => ValidationError::BlockValidationError(reason),
        }
    }
}

/// The exact result is the content stated by `from` itself: a `String` is not
/// determined by its characters in the logic, so no value is named here.
impl vstd::std_specs::convert::FromSpecImpl<ChainCommitStateError> for ValidationError {
    open spec fn obeys_from_spec() -> bool {
        false
    }

    open spec fn from_spec(v: ChainCommitStateError) -> Self {
        arbitrary()
    }
}

} // verus!
