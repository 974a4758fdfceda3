//! The error taxonomy of the ledger. Every failing operation reports exactly
//! one of these, and no operation mutates state when it fails.

use vstd::prelude::*;

verus! {

#[derive(Clone, Copy, Debug, PartialEq, Eq, Structural)]
pub enum ContractError {
    /// A token, operator grant or approval that was asked for is absent.
    NotFound,
    /// The caller lacks the role or approval that the operation demands.
    Unauthorized,
    /// A mint named a token id that is already taken.
    AlreadyExists,
    /// A malformed input value, such as an empty identity.
    InvalidInput,
    /// The collection description may not be empty.
    CollectionDescriptionEmpty,
    /// The collection description exceeds the maximum length.
    CollectionDescriptionTooLong,
    /// An image or external-link field does not parse as a URL.
    InvalidUrl,
    /// A royalty share above the absolute ceiling was proposed.
    RoyaltyShareTooHigh,
    /// A royalty share increase above the per-update delta cap was proposed.
    RoyaltyShareDeltaTooBig,
    /// The token count would fall below zero: a fatal consistency breach.
    Underflow,
    /// An expiration rule was not met, such as the minimum expiration window
    /// at instantiation or an expired ownership proposal.
    ExpirationPolicy,
}

impl ContractError {
    /// The human-readable reason for the error.
    pub open spec fn message_spec(&self) -> Seq<char> {
        match self {
            ContractError::NotFound => "not found"@,
            ContractError::Unauthorized => "unauthorized"@,
            ContractError::AlreadyExists => "token id already claimed"@,
            ContractError::InvalidInput => "invalid input"@,
            ContractError::CollectionDescriptionEmpty => "collection description is empty"@,
            ContractError::CollectionDescriptionTooLong => (
            "collection description is longer than 512 characters"@),
            ContractError::InvalidUrl => "invalid url"@,
            ContractError::RoyaltyShareTooHigh => "share cannot be greater than 10%"@,
            ContractError::RoyaltyShareDeltaTooBig => (
            "share increase cannot be greater than 2%"@),
            ContractError::Underflow => "token count underflow"@,
            ContractError::ExpirationPolicy => "expiration rule not met"@,
        }
    }

    pub fn message(&self) -> (r: String)
        ensures
            r@ == self.message_spec(),
    {
        match self {
            ContractError::NotFound => "not found".to_owned(),
            ContractError::Unauthorized => "unauthorized".to_owned(),
            ContractError::AlreadyExists => "token id already claimed".to_owned(),
            ContractError::InvalidInput => "invalid input".to_owned(),
            ContractError::CollectionDescriptionEmpty => (
            "collection description is empty".to_owned()),
            ContractError::CollectionDescriptionTooLong => (
            "collection description is longer than 512 characters".to_owned()),
            ContractError::InvalidUrl => "invalid url".to_owned(),
            ContractError::RoyaltyShareTooHigh => "share cannot be greater than 10%".to_owned(),
            ContractError::RoyaltyShareDeltaTooBig => (
            "share increase cannot be greater than 2%".to_owned()),
            ContractError::Underflow => "token count underflow".to_owned(),
            ContractError::ExpirationPolicy => "expiration rule not met".to_owned(),
        }
    }
}

} // verus!
