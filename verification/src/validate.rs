//! The validation side of the metadata engine: domain invariants on
//! collection extensions and royalty terms, checked before any value is
//! persisted.

use vstd::prelude::*;
use crate::errors::ContractError;
use crate::types::{
    CollectionInfoExtension,
    EmptyExtension,
    RoyaltyInfo,
    BPS_PER_PCT,
    MAX_DESCRIPTION_LENGTH,
    MAX_ROYALTY_SHARE_PCT,
    MAX_SHARE_DELTA_PCT,
};

verus! {

/// Whether a string parses as an absolute URL.
pub uninterp spec fn is_parsable_url(s: Seq<char>) -> bool;

/// Relies on `url::Url::parse`: whether a string parses as an absolute URL
/// under the default options is a function of the string alone.
#[verifier::external_body]
pub(crate) fn url_is_valid(s: &str) -> (r: bool)
    ensures
        r == is_parsable_url(s@),
{
    url::Url::parse(s).is_ok()
}

/// A metadata shape that the engine can check before persisting.
pub trait Validate {
    /// Whether the value meets its domain invariants.
    spec fn valid(&self) -> bool;

    /// The error reported when it does not.
    spec fn invalid_err(&self) -> ContractError;

    fn validate(&self) -> (r: Result<(), ContractError>)
        ensures
            match r {
                Ok(()) => self.valid(),
                Err(e) => !self.valid() && e == self.invalid_err(),
            },
    ;
}

impl Validate for EmptyExtension {
    open spec fn valid(&self) -> bool {
        true
    }

    open spec fn invalid_err(&self) -> ContractError {
        ContractError::NotFound
    }

    fn validate(&self) -> (r: Result<(), ContractError>) {
        Ok(())
    }
}

impl Validate for Option<EmptyExtension> {
    open spec fn valid(&self) -> bool {
        true
    }

    open spec fn invalid_err(&self) -> ContractError {
        ContractError::NotFound
    }

    fn validate(&self) -> (r: Result<(), ContractError>) {
        match self {
            Some(_) => Ok(()),
            None => Ok(()),
        }
    }
}

impl RoyaltyInfo {
    /// The error, if any, of moving a royalty share from `prior` to `proposed`
    /// (both in basis points): an increase may not exceed the delta cap, and
    /// the proposed share may not exceed the absolute ceiling. The delta rule
    /// is checked first, so an update breaking both reports the delta breach.
    pub open spec fn share_update_err(prior: u64, proposed: u64) -> Option<ContractError> {
        if prior < proposed && proposed - prior > MAX_SHARE_DELTA_PCT * BPS_PER_PCT {
            Some(ContractError::RoyaltyShareDeltaTooBig)
        } else if proposed > MAX_ROYALTY_SHARE_PCT * BPS_PER_PCT {
            Some(ContractError::RoyaltyShareTooHigh)
        } else {
            None
        }
    }

    /// The error, if any, of validating these royalty terms against an
    /// optional replacement: with a replacement, its share is judged with the
    /// current share as the baseline; without one, the current share is only
    /// held to the ceiling.
    pub open spec fn validate_err(&self, proposed: &Option<RoyaltyInfo>) -> Option<ContractError> {
        match proposed {
            Some(new_royalty) => RoyaltyInfo::share_update_err(self.share, new_royalty.share),
            None => if self.share > MAX_ROYALTY_SHARE_PCT * BPS_PER_PCT {
                Some(ContractError::RoyaltyShareTooHigh)
            } else {
                None
            },
        }
    }

    /// Validates a proposed royalty update against the current terms.
    pub fn validate(&self, new_royalty_info: &Option<RoyaltyInfo>) -> (r: Result<
        (),
        ContractError,
    >)
        ensures
            match r {
                Ok(()) => self.validate_err(new_royalty_info) is None,
                Err(e) => self.validate_err(new_royalty_info) == Some(e),
            },
    {
        match new_royalty_info {
            Some(new_royalty) => {
                if self.share < new_royalty.share {
                    let share_delta = new_royalty.share - self.share;
                    if share_delta > MAX_SHARE_DELTA_PCT * BPS_PER_PCT {
                        return Err(ContractError::RoyaltyShareDeltaTooBig);
                    }
                }
                if new_royalty.share > MAX_ROYALTY_SHARE_PCT * BPS_PER_PCT {
                    return Err(ContractError::RoyaltyShareTooHigh);
                }
                Ok(())
            },
            None => {
                if self.share > MAX_ROYALTY_SHARE_PCT * BPS_PER_PCT {
                    return Err(ContractError::RoyaltyShareTooHigh);
                }
                Ok(())
            },
        }
    }
}

impl CollectionInfoExtension {
    /// The description invariant: non-empty and at most
    /// `MAX_DESCRIPTION_LENGTH` characters.
    pub open spec fn description_ok(&self) -> bool {
        0 < self.description@.len() <= MAX_DESCRIPTION_LENGTH
    }

    /// The URL invariants: the image, and the external link when present,
    /// parse as URLs.
    pub open spec fn urls_ok(&self) -> bool {
        &&& is_parsable_url(self.image@)
        &&& match self.external_link {
            Some(link) => is_parsable_url(link@),
            None => true,
        }
    }
}

impl Validate for CollectionInfoExtension {
    /// Validates only the extension itself, not its royalty terms.
    open spec fn valid(&self) -> bool {
        self.description_ok() && self.urls_ok()
    }

    open spec fn invalid_err(&self) -> ContractError {
        if self.description@.len() == 0 {
            ContractError::CollectionDescriptionEmpty
        } else if self.description@.len() > MAX_DESCRIPTION_LENGTH {
            ContractError::CollectionDescriptionTooLong
        } else {
            ContractError::InvalidUrl
        }
    }

    fn validate(&self) -> (r: Result<(), ContractError>) {
        if self.description.as_str().unicode_len() == 0 {
            return Err(ContractError::CollectionDescriptionEmpty);
        }
        if self.description.as_str().unicode_len() > MAX_DESCRIPTION_LENGTH as usize {
            return Err(ContractError::CollectionDescriptionTooLong);
        }
        if !url_is_valid(self.image.as_str()) {
            return Err(ContractError::InvalidUrl);
        }
        if let Some(link) = &self.external_link {
            if !url_is_valid(link.as_str()) {
                return Err(ContractError::InvalidUrl);
            }
        }
        Ok(())
    }
}

impl Validate for Option<CollectionInfoExtension> {
    /// An absent extension is trivially valid; a present one must meet the
    /// extension invariants and hold its royalty share under the ceiling.
    open spec fn valid(&self) -> bool {
        match self {
            Some(ext) => ext.valid() && match ext.royalty_info {
                Some(royalty) => royalty.validate_err(&None) is None,
                None => true,
            },
            None => true,
        }
    }

    open spec fn invalid_err(&self) -> ContractError {
        match self {
            Some(ext) => if !ext.valid() {
                ext.invalid_err()
            } else {
                ContractError::RoyaltyShareTooHigh
            },
            None => ContractError::NotFound,
        }
    }

    fn validate(&self) -> (r: Result<(), ContractError>) {
        match self {
            Some(ext) => {
                ext.validate()?;
                match &ext.royalty_info {
                    Some(royalty) => royalty.validate(&None),
                    None => Ok(()),
                }
            },
            None => Ok(()),
        }
    }
}

} // verus!
