//! The update side of the metadata engine: partial-update messages are merged
//! over the current value, and the merged result is re-validated before it is
//! returned — an update that would break an invariant is rejected in full.

use vstd::prelude::*;
use crate::errors::ContractError;
use crate::types::{
    clone_opt_royalty,
    clone_opt_string,
    CollectionInfoExtension,
    CollectionInfoExtensionMsg,
    EmptyExtension,
    EmptyMsg,
    RoyaltyInfo,
    BPS_PER_PCT,
    MAX_ROYALTY_SHARE_PCT,
};
use crate::validate::Validate;

verus! {

/// A metadata shape that the engine can merge a partial message into.
pub trait Update<TMsg>: Sized {
    /// What the merge yields: either the fully merged and re-validated value,
    /// or the error that rejects the whole update.
    spec fn update_result(&self, msg: &TMsg) -> Result<Self, ContractError>;

    fn update(&self, msg: &TMsg) -> (r: Result<Self, ContractError>)
        ensures
            r == self.update_result(msg),
    ;
}

impl Update<EmptyMsg> for EmptyExtension {
    open spec fn update_result(&self, msg: &EmptyMsg) -> Result<Self, ContractError> {
        Ok(EmptyExtension)
    }

    fn update(&self, msg: &EmptyMsg) -> (r: Result<Self, ContractError>) {
        Ok(EmptyExtension)
    }
}

impl Update<EmptyMsg> for Option<EmptyExtension> {
    open spec fn update_result(&self, msg: &EmptyMsg) -> Result<Self, ContractError> {
        Ok(Some(EmptyExtension))
    }

    fn update(&self, msg: &EmptyMsg) -> (r: Result<Self, ContractError>) {
        match self {
            Some(ext) => Ok(Some(*ext)),
            None => Ok(Some(EmptyExtension)),
        }
    }
}

/// The error, if any, of bringing royalty terms from `current` to what an
/// update proposes: a present baseline judges the proposal by the delta and
/// ceiling rules; a proposal without a baseline is held to the ceiling alone.
pub open spec fn royalty_merge_err(
    current: &Option<RoyaltyInfo>,
    proposed: &Option<RoyaltyInfo>,
) -> Option<ContractError> {
    match (current, proposed) {
        (Some(cur), _) => cur.validate_err(proposed),
        (None, Some(new_royalty)) => if new_royalty.share > MAX_ROYALTY_SHARE_PCT * BPS_PER_PCT {
            Some(ContractError::RoyaltyShareTooHigh)
        } else {
            None
        },
        (None, None) => None,
    }
}

/// Checks proposed royalty terms against the current ones.
pub fn royalty_merge_check(
    current: &Option<RoyaltyInfo>,
    proposed: &Option<RoyaltyInfo>,
) -> (r: Result<(), ContractError>)
    ensures
        match r {
            Ok(()) => royalty_merge_err(current, proposed) is None,
            Err(e) => royalty_merge_err(current, proposed) == Some(e),
        },
{
    match current {
        Some(cur) => cur.validate(proposed),
        None => match proposed {
            Some(new_royalty) => {
                if new_royalty.share > MAX_ROYALTY_SHARE_PCT * BPS_PER_PCT {
                    Err(ContractError::RoyaltyShareTooHigh)
                } else {
                    Ok(())
                }
            },
            None => Ok(()),
        },
    }
}

impl CollectionInfoExtension {
    /// The merge of a partial message over this extension: a field named by
    /// the message replaces the current one, an omitted field keeps it.
    pub open spec fn merged_with(&self, msg: &CollectionInfoExtensionMsg) -> CollectionInfoExtension {
        CollectionInfoExtension {
            description: if msg.description is Some {
                msg.description->0
            } else {
                self.description
            },
            image: if msg.image is Some {
                msg.image->0
            } else {
                self.image
            },
            external_link: if msg.external_link is Some {
                msg.external_link
            } else {
                self.external_link
            },
            explicit_content: if msg.explicit_content is Some {
                msg.explicit_content
            } else {
                self.explicit_content
            },
            start_trading_time: if msg.start_trading_time is Some {
                msg.start_trading_time
            } else {
                self.start_trading_time
            },
            royalty_info: if msg.royalty_info is Some {
                msg.royalty_info
            } else {
                self.royalty_info
            },
        }
    }

    /// The error, if any, that rejects merging the message over this
    /// extension: first the royalty rules against the current baseline, then
    /// the description and URL invariants of the merged value.
    pub open spec fn update_err(&self, msg: &CollectionInfoExtensionMsg) -> Option<ContractError> {
        match royalty_merge_err(&self.royalty_info, &msg.royalty_info) {
            Some(e) => Some(e),
            None => {
                let merged = self.merged_with(msg);
                if !merged.valid() {
                    Some(merged.invalid_err())
                } else {
                    None
                }
            },
        }
    }
}

impl Update<CollectionInfoExtensionMsg> for CollectionInfoExtension {
    open spec fn update_result(&self, msg: &CollectionInfoExtensionMsg) -> Result<
        Self,
        ContractError,
    > {
        match self.update_err(msg) {
            Some(e) => Err(e),
            None => Ok(self.merged_with(msg)),
        }
    }

    fn update(&self, msg: &CollectionInfoExtensionMsg) -> (r: Result<Self, ContractError>) {
        royalty_merge_check(&self.royalty_info, &msg.royalty_info)?;
        let merged = CollectionInfoExtension {
            description: match &msg.description {
                Some(d) => d.clone(),
                None => self.description.clone(),
            },
            image: match &msg.image {
                Some(i) => i.clone(),
                None => self.image.clone(),
            },
            external_link: if msg.external_link.is_some() {
                clone_opt_string(&msg.external_link)
            } else {
                clone_opt_string(&self.external_link)
            },
            explicit_content: if msg.explicit_content.is_some() {
                msg.explicit_content
            } else {
                self.explicit_content
            },
            start_trading_time: if msg.start_trading_time.is_some() {
                msg.start_trading_time
            } else {
                self.start_trading_time
            },
            royalty_info: if msg.royalty_info.is_some() {
                clone_opt_royalty(&msg.royalty_info)
            } else {
                clone_opt_royalty(&self.royalty_info)
            },
        };
        merged.validate()?;
        Ok(merged)
    }
}

impl Update<CollectionInfoExtensionMsg> for Option<CollectionInfoExtension> {
    /// Merging into a present extension follows the extension's own rules.
    /// Merging into an absent one creates the extension from the message
    /// alone, so the message must carry a valid description and image; the
    /// created value is re-validated like any other update result.
    open spec fn update_result(&self, msg: &CollectionInfoExtensionMsg) -> Result<
        Self,
        ContractError,
    > {
        match self {
            Some(ext) => match ext.update_result(msg) {
                Ok(updated) => Ok(Some(updated)),
                Err(e) => Err(e),
            },
            None => {
                if msg.description is None || msg.description->0@.len() == 0 {
                    Err(ContractError::CollectionDescriptionEmpty)
                } else if msg.description->0@.len() > crate::types::MAX_DESCRIPTION_LENGTH {
                    Err(ContractError::CollectionDescriptionTooLong)
                } else if msg.image is None || !crate::validate::is_parsable_url(msg.image->0@) {
                    Err(ContractError::InvalidUrl)
                } else if msg.external_link is Some && !crate::validate::is_parsable_url(
                    msg.external_link->0@,
                ) {
                    Err(ContractError::InvalidUrl)
                } else if msg.royalty_info is Some && msg.royalty_info->0.share
                    > MAX_ROYALTY_SHARE_PCT * BPS_PER_PCT {
                    Err(ContractError::RoyaltyShareTooHigh)
                } else {
                    Ok(
                        Some(
                            CollectionInfoExtension {
                                description: msg.description->0,
                                image: msg.image->0,
                                external_link: msg.external_link,
                                explicit_content: msg.explicit_content,
                                start_trading_time: msg.start_trading_time,
                                royalty_info: msg.royalty_info,
                            },
                        ),
                    )
                }
            },
        }
    }

    fn update(&self, msg: &CollectionInfoExtensionMsg) -> (r: Result<Self, ContractError>) {
        match self {
            Some(ext) => {
                let updated = ext.update(msg)?;
                Ok(Some(updated))
            },
            None => {
                let description = match &msg.description {
                    Some(d) => d.clone(),
                    None => return Err(ContractError::CollectionDescriptionEmpty),
                };
                let d_len = description.as_str().unicode_len();
                if d_len == 0 {
                    return Err(ContractError::CollectionDescriptionEmpty);
                }
                if d_len > crate::types::MAX_DESCRIPTION_LENGTH as usize {
                    return Err(ContractError::CollectionDescriptionTooLong);
                }
                let image = match &msg.image {
                    Some(i) => i.clone(),
                    None => return Err(ContractError::InvalidUrl),
                };
                if !crate::validate::url_is_valid(image.as_str()) {
                    return Err(ContractError::InvalidUrl);
                }
                if let Some(link) = &msg.external_link {
                    if !crate::validate::url_is_valid(link.as_str()) {
                        return Err(ContractError::InvalidUrl);
                    }
                }
                if let Some(royalty) = &msg.royalty_info {
                    if royalty.share > MAX_ROYALTY_SHARE_PCT * BPS_PER_PCT {
                        return Err(ContractError::RoyaltyShareTooHigh);
                    }
                }
                Ok(
                    Some(
                        CollectionInfoExtension {
                            description,
                            image,
                            external_link: clone_opt_string(&msg.external_link),
                            explicit_content: msg.explicit_content,
                            start_trading_time: msg.start_trading_time,
                            royalty_info: clone_opt_royalty(&msg.royalty_info),
                        },
                    ),
                )
            },
        }
    }
}

} // verus!
