//! The value types of the ledger: token records, approvals, collection
//! metadata, royalty terms, and the ownership singletons.

use vstd::prelude::*;

verus! {

/// Maximum length of the collection description, in characters.
pub const MAX_DESCRIPTION_LENGTH: u32 = 512;

/// Maximum increase of the royalty share in a single update, in percent.
pub const MAX_SHARE_DELTA_PCT: u64 = 2;

/// Maximum royalty share, in percent.
pub const MAX_ROYALTY_SHARE_PCT: u64 = 10;

/// Basis points per percent: royalty shares are stored in basis points.
pub const BPS_PER_PCT: u64 = 100;

/// The point after which a grant no longer applies: at a block height, at a
/// timestamp (nanoseconds), or never.
#[derive(Clone, Copy, Debug, PartialEq, Eq, Structural)]
pub enum Expiration {
    AtHeight(u64),
    AtTime(u64),
    Never,
}

/// The height and time (nanoseconds) of the block at which the engine runs.
#[derive(Clone, Copy, Debug, PartialEq, Eq, Structural)]
pub struct BlockInfo {
    pub height: u64,
    pub time: u64,
}

impl Expiration {
    /// Whether this expiration has passed at the given block. A height
    /// expiration passes once the block height reaches it; a time expiration
    /// once the block time reaches it; `Never` never passes.
    pub open spec fn is_expired_spec(&self, block: &BlockInfo) -> bool {
        match self {
            Expiration::AtHeight(height) => block.height >= *height,
            Expiration::AtTime(time) => block.time >= *time,
            Expiration::Never => false,
        }
    }

    pub fn is_expired(&self, block: &BlockInfo) -> (r: bool)
        ensures
            r == self.is_expired_spec(block),
    {
        match self {
            Expiration::AtHeight(height) => block.height >= *height,
            Expiration::AtTime(time) => block.time >= *time,
            Expiration::Never => false,
        }
    }
}

/// A grant that lets a non-owner act on one token until an expiration.
#[derive(Debug, PartialEq, Eq)]
pub struct Approval {
    /// Account that may transfer or send the token.
    pub spender: String,
    /// When the approval expires.
    pub expires: Expiration,
}

impl Approval {
    pub fn is_expired(&self, block: &BlockInfo) -> (r: bool)
        ensures
            r == self.expires.is_expired_spec(block),
    {
        self.expires.is_expired(block)
    }
}

/// An attribute of a token, shaped after common token-metadata schemas.
#[derive(Debug, PartialEq, Eq)]
pub struct Trait {
    pub display_type: Option<String>,
    pub trait_type: String,
    pub value: String,
}

/// Caller-supplied metadata attached to one token.
#[derive(Debug, PartialEq, Eq)]
pub struct Metadata {
    pub image: Option<String>,
    pub image_data: Option<String>,
    pub external_url: Option<String>,
    pub description: Option<String>,
    pub name: Option<String>,
    pub attributes: Option<Vec<Trait>>,
    pub background_color: Option<String>,
    pub animation_url: Option<String>,
    pub youtube_url: Option<String>,
}

impl Metadata {
    /// Equality up to the view of the attribute list: two metadata records
    /// agree on every field, with the attribute vectors compared element-wise.
    pub open spec fn eqv(&self, other: &Metadata) -> bool {
        &&& self.image == other.image
        &&& self.image_data == other.image_data
        &&& self.external_url == other.external_url
        &&& self.description == other.description
        &&& self.name == other.name
        &&& match (self.attributes, other.attributes) {
            (Some(a), Some(b)) => a@ == b@,
            (None, None) => true,
            _ => false,
        }
        &&& self.background_color == other.background_color
        &&& self.animation_url == other.animation_url
        &&& self.youtube_url == other.youtube_url
    }
}

/// Equality of optional metadata, up to the view of the attribute list.
pub open spec fn opt_metadata_eqv(a: &Option<Metadata>, b: &Option<Metadata>) -> bool {
    match (a, b) {
        (Some(x), Some(y)) => x.eqv(y),
        (None, None) => true,
        _ => false,
    }
}

impl Default for Metadata {
    fn default() -> (r: Self)
        ensures
            r.image is None,
            r.image_data is None,
            r.external_url is None,
            r.description is None,
            r.name is None,
            r.attributes is None,
            r.background_color is None,
            r.animation_url is None,
            r.youtube_url is None,
    {
        Metadata {
            image: None,
            image_data: None,
            external_url: None,
            description: None,
            name: None,
            attributes: None,
            background_color: None,
            animation_url: None,
            youtube_url: None,
        }
    }
}

/// A metadata shape with no content: it trivially validates, and updating it
/// yields its only possible value.
#[derive(Clone, Copy, Debug, PartialEq, Eq, Structural)]
pub struct EmptyExtension;

/// The message that updates an `EmptyExtension`: it carries nothing.
pub type EmptyMsg = EmptyExtension;

/// One token's record: its owner, the active approvals on it, an optional
/// resource identifier and the caller-supplied metadata.
#[derive(Debug, PartialEq, Eq)]
pub struct NftInfo {
    /// The owner of the token.
    pub owner: String,
    /// Approvals are stored here, as they are all cleared upon transfer and
    /// so cannot accumulate.
    pub approvals: Vec<Approval>,
    /// Universal resource identifier for this token.
    pub token_uri: Option<String>,
    /// Caller-supplied metadata.
    pub extension: Option<Metadata>,
}

/// The owner-field extractor that feeds the owner index.
pub fn token_owner_idx(info: &NftInfo) -> (r: &String)
    ensures
        r@ == info.owner@,
{
    &info.owner
}

/// Royalty terms: who is paid, and which share of a sale, in basis points.
#[derive(Debug, PartialEq, Eq)]
pub struct RoyaltyInfo {
    pub payment_address: String,
    /// The share, in basis points (one hundredth of a percent).
    pub share: u64,
}

/// Validated collection-level metadata.
#[derive(Debug, PartialEq, Eq)]
pub struct CollectionInfoExtension {
    /// Non-empty, at most `MAX_DESCRIPTION_LENGTH` characters.
    pub description: String,
    /// Must parse as a URL.
    pub image: String,
    /// Must parse as a URL when present.
    pub external_link: Option<String>,
    pub explicit_content: Option<bool>,
    /// Nanosecond timestamp at which trading may start.
    pub start_trading_time: Option<u64>,
    pub royalty_info: Option<RoyaltyInfo>,
}

/// The collection singleton: name, symbol, extension and the time of the
/// last extension update (nanoseconds).
#[derive(Debug, PartialEq, Eq)]
pub struct CollectionInfo {
    pub name: String,
    pub symbol: String,
    pub extension: Option<CollectionInfoExtension>,
    pub updated_at: u64,
}

/// A partial update to the collection extension: only the fields that are
/// present are changed.
#[derive(Debug, PartialEq, Eq)]
pub struct CollectionInfoExtensionMsg {
    pub description: Option<String>,
    pub image: Option<String>,
    pub external_link: Option<String>,
    pub explicit_content: Option<bool>,
    pub start_trading_time: Option<u64>,
    pub royalty_info: Option<RoyaltyInfo>,
}

/// One of the two transferable roles (minter, creator), as a small state
/// machine: no holder, a holder, or a holder with a pending two-phase
/// transfer proposal.
#[derive(Debug, PartialEq, Eq)]
pub enum OwnershipState {
    /// The role was renounced or never assigned: nobody holds it.
    Unset,
    /// The role is held, with no transfer in flight.
    Held { owner: String },
    /// The holder proposed a transfer that the proposed holder has not yet
    /// accepted; the proposal may carry its own expiration.
    PendingTransfer { owner: String, pending: String, expiry: Option<Expiration> },
}

impl OwnershipState {
    /// Whether the caller currently holds the role.
    pub open spec fn is_held_by(&self, caller: Seq<char>) -> bool {
        match self {
            OwnershipState::Unset => false,
            OwnershipState::Held { owner } => owner@ == caller,
            OwnershipState::PendingTransfer { owner, .. } => owner@ == caller,
        }
    }

    pub fn held_by(&self, caller: &String) -> (r: bool)
        ensures
            r == self.is_held_by(caller@),
    {
        match self {
            OwnershipState::Unset => false,
            OwnershipState::Held { owner } => *owner == *caller,
            OwnershipState::PendingTransfer { owner, .. } => *owner == *caller,
        }
    }
}

/// A request to move a role along its two-phase transfer protocol.
#[derive(Debug, PartialEq, Eq)]
pub enum OwnershipAction {
    /// The holder proposes a new holder, optionally with a deadline.
    TransferOwnership { new_owner: String, expiry: Option<Expiration> },
    /// The proposed holder accepts an unexpired proposal.
    AcceptOwnership,
    /// The holder gives the role up for good.
    RenounceOwnership,
}

/// An edge of the derived owner index: the named owner holds the named token.
#[derive(Debug, PartialEq, Eq)]
pub struct OwnerEdge {
    pub owner: String,
    pub token_id: String,
}

/// A blanket grant: the operator may act on every token of the owner until
/// the expiration.
#[derive(Debug, PartialEq, Eq)]
pub struct OperatorGrant {
    pub owner: String,
    pub operator: String,
    pub expires: Expiration,
}

/// One slot of the primary map: a token id, the block time at which the
/// token was minted, and its record.
#[derive(Debug, PartialEq, Eq)]
pub struct TokenEntry {
    pub token_id: String,
    /// Block time of the mint (nanoseconds); tokens of a time-boxed
    /// collection expire this many days after it (see `LedgerState`).
    pub mint_time: u64,
    pub info: NftInfo,
}

/// The request that creates the ledger.
#[derive(Debug, PartialEq, Eq)]
pub struct InstantiateMsg {
    /// How many days after its mint a token is reported expired; at least 1.
    pub expiration_days: u16,
    /// Name of the collection.
    pub name: String,
    /// Symbol of the collection.
    pub symbol: String,
    /// Optional extension of the collection metadata.
    pub collection_info_extension: Option<CollectionInfoExtension>,
    /// The only account allowed to mint, defaulting to the caller.
    pub minter: Option<String>,
    /// The only account allowed to update collection metadata, defaulting to
    /// the caller.
    pub creator: Option<String>,
    pub withdraw_address: Option<String>,
}

/// A read-only request, as the host's transport layer hands it over: each
/// variant names one query of the query layer and carries its arguments.
/// Expiration-filter flags left unset read as `false`.
#[derive(Debug, PartialEq, Eq)]
pub enum QueryMsg {
    /// The owner of a token and its reported approvals.
    OwnerOf { token_id: String, include_expired: Option<bool>, include_expired_nft: Option<bool> },
    /// One spender's approval on a token.
    Approval {
        token_id: String,
        spender: String,
        include_expired: Option<bool>,
        include_expired_nft: Option<bool>,
    },
    /// Every reported approval on a token.
    Approvals { token_id: String, include_expired: Option<bool>, include_expired_nft: Option<bool> },
    /// A token's stored record.
    NftInfo { token_id: String, include_expired_nft: Option<bool> },
    /// Ownership and record of a token in one answer.
    AllNftInfo {
        token_id: String,
        include_expired: Option<bool>,
        include_expired_nft: Option<bool>,
    },
    /// The token ids of one owner, paginated.
    Tokens {
        owner: String,
        start_after: Option<String>,
        limit: Option<u32>,
        include_expired_nft: Option<bool>,
    },
    /// All token ids, paginated.
    AllTokens {
        start_after: Option<String>,
        limit: Option<u32>,
        include_expired_nft: Option<bool>,
    },
    /// One operator's blanket grant over an owner.
    Operator { owner: String, operator: String, include_expired: Option<bool> },
    /// Every operator of an owner, paginated.
    AllOperators {
        owner: String,
        include_expired: Option<bool>,
        start_after: Option<String>,
        limit: Option<u32>,
    },
    /// The number of stored tokens.
    NumTokens,
    /// The collection singleton.
    GetCollectionInfo,
    /// The state of the minter role.
    GetMinterOwnership,
    /// The state of the creator role.
    GetCreatorOwnership,
    /// Echo query for a token-metadata shape.
    Extension { msg: Option<Metadata> },
    /// Echo query for a collection-extension shape.
    GetCollectionExtension { msg: Option<CollectionInfoExtension> },
    /// The withdraw-address singleton.
    GetWithdrawAddress,
}

/// Copies an optional string.
pub fn clone_opt_string(o: &Option<String>) -> (r: Option<String>)
    ensures
        r == *o,
{
    match o {
        Some(s) => Some(s.clone()),
        None => None,
    }
}

impl Clone for RoyaltyInfo {
    fn clone(&self) -> (r: Self)
        ensures
            r == *self,
    {
        RoyaltyInfo { payment_address: self.payment_address.clone(), share: self.share }
    }
}

/// Copies optional royalty terms.
pub fn clone_opt_royalty(o: &Option<RoyaltyInfo>) -> (r: Option<RoyaltyInfo>)
    ensures
        r == *o,
{
    match o {
        Some(ri) => Some(ri.clone()),
        None => None,
    }
}

impl Clone for Approval {
    fn clone(&self) -> (r: Self)
        ensures
            r == *self,
    {
        Approval { spender: self.spender.clone(), expires: self.expires }
    }
}

/// Copies a list of approvals.
pub fn clone_approvals(v: &Vec<Approval>) -> (r: Vec<Approval>)
    ensures
        r@ =~= v@,
{
    let mut out: Vec<Approval> = Vec::new();
    let mut i: usize = 0;
    while i < v.len()
        invariant
            i <= v.len(),
            out@.len() == i,
            forall|j: int| 0 <= j < i ==> out@[j] == v@[j],
        decreases v.len() - i,
    {
        out.push(v[i].clone());
        i = i + 1;
    }
    out
}

impl Clone for Trait {
    fn clone(&self) -> (r: Self)
        ensures
            r == *self,
    {
        Trait {
            display_type: clone_opt_string(&self.display_type),
            trait_type: self.trait_type.clone(),
            value: self.value.clone(),
        }
    }
}

/// Copies an optional list of attributes.
pub fn clone_opt_traits(o: &Option<Vec<Trait>>) -> (r: Option<Vec<Trait>>)
    ensures
        match (o, &r) {
            (Some(v), Some(w)) => v@ =~= w@,
            (None, None) => true,
            _ => false,
        },
{
    match o {
        Some(v) => {
            let mut out: Vec<Trait> = Vec::new();
            let mut i: usize = 0;
            while i < v.len()
                invariant
                    i <= v.len(),
                    out@.len() == i,
                    forall|j: int| 0 <= j < i ==> out@[j] == v@[j],
                decreases v.len() - i,
            {
                out.push(v[i].clone());
                i = i + 1;
            }
            Some(out)
        },
        None => None,
    }
}

impl Clone for Metadata {
    fn clone(&self) -> (r: Self)
        ensures
            r.eqv(self),
    {
        let attributes = clone_opt_traits(&self.attributes);
        Metadata {
            image: clone_opt_string(&self.image),
            image_data: clone_opt_string(&self.image_data),
            external_url: clone_opt_string(&self.external_url),
            description: clone_opt_string(&self.description),
            name: clone_opt_string(&self.name),
            attributes,
            background_color: clone_opt_string(&self.background_color),
            animation_url: clone_opt_string(&self.animation_url),
            youtube_url: clone_opt_string(&self.youtube_url),
        }
    }
}

/// Copies an optional metadata record.
pub fn clone_opt_metadata(o: &Option<Metadata>) -> (r: Option<Metadata>)
    ensures
        opt_metadata_eqv(&r, o),
{
    match o {
        Some(m) => Some(m.clone()),
        None => None,
    }
}

impl NftInfo {
    /// Equality up to the views of the contained vectors.
    pub open spec fn eqv(&self, other: &NftInfo) -> bool {
        &&& self.owner == other.owner
        &&& self.approvals@ == other.approvals@
        &&& self.token_uri == other.token_uri
        &&& opt_metadata_eqv(&self.extension, &other.extension)
    }
}

impl Clone for NftInfo {
    fn clone(&self) -> (r: Self)
        ensures
            r.eqv(self),
    {
        NftInfo {
            owner: self.owner.clone(),
            approvals: clone_approvals(&self.approvals),
            token_uri: clone_opt_string(&self.token_uri),
            extension: clone_opt_metadata(&self.extension),
        }
    }
}

impl Clone for CollectionInfoExtension {
    fn clone(&self) -> (r: Self)
        ensures
            r == *self,
    {
        CollectionInfoExtension {
            description: self.description.clone(),
            image: self.image.clone(),
            external_link: clone_opt_string(&self.external_link),
            explicit_content: self.explicit_content,
            start_trading_time: self.start_trading_time,
            royalty_info: clone_opt_royalty(&self.royalty_info),
        }
    }
}

/// Copies an optional collection extension.
pub fn clone_opt_extension(o: &Option<CollectionInfoExtension>) -> (r: Option<
    CollectionInfoExtension,
>)
    ensures
        r == *o,
{
    match o {
        Some(e) => Some(e.clone()),
        None => None,
    }
}

impl Clone for CollectionInfo {
    fn clone(&self) -> (r: Self)
        ensures
            r == *self,
    {
        CollectionInfo {
            name: self.name.clone(),
            symbol: self.symbol.clone(),
            extension: clone_opt_extension(&self.extension),
            updated_at: self.updated_at,
        }
    }
}

impl Clone for OwnershipState {
    fn clone(&self) -> (r: Self)
        ensures
            r == *self,
    {
        match self {
            OwnershipState::Unset => OwnershipState::Unset,
            OwnershipState::Held { owner } => OwnershipState::Held { owner: owner.clone() },
            OwnershipState::PendingTransfer { owner, pending, expiry } => (
            OwnershipState::PendingTransfer {
                owner: owner.clone(),
                pending: pending.clone(),
                expiry: *expiry,
            }),
        }
    }
}

impl Clone for OperatorGrant {
    fn clone(&self) -> (r: Self)
        ensures
            r == *self,
    {
        OperatorGrant {
            owner: self.owner.clone(),
            operator: self.operator.clone(),
            expires: self.expires,
        }
    }
}

impl Clone for OwnerEdge {
    fn clone(&self) -> (r: Self)
        ensures
            r == *self,
    {
        OwnerEdge { owner: self.owner.clone(), token_id: self.token_id.clone() }
    }
}

} // verus!
