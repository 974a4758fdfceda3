//! The read-only query layer: ownership lookups, approval and operator
//! queries filtered by a point-in-time "now", and paginated enumeration in
//! ascending key order with an exclusive "start after" cursor.

use vstd::prelude::*;
use crate::errors::ContractError;
use crate::order::{lex_lt, str_lt};
use crate::state::{
    grant_at,
    has_grant,
    has_token,
    lemma_grant_index_unique,
    lemma_token_index_unique,
    token_at,
    LedgerState,
};
use crate::types::{
    clone_opt_metadata,
    clone_opt_string,
    opt_metadata_eqv,
    Approval,
    BlockInfo,
    CollectionInfo,
    Metadata,
    OperatorGrant,
    OwnerEdge,
    OwnershipState,
    TokenEntry,
};

verus! {

/// Page size used when a query names none.
pub const DEFAULT_LIMIT: u32 = 10;

/// The cap every requested page size is clamped to.
pub const MAX_LIMIT: u32 = 1000;

/// The page size a query with the given limit uses.
pub open spec fn effective_limit(limit: Option<u32>) -> u32 {
    match limit {
        Some(l) => if l > MAX_LIMIT {
            MAX_LIMIT
        } else {
            l
        },
        None => DEFAULT_LIMIT,
    }
}

fn clamp_limit(limit: Option<u32>) -> (r: u32)
    ensures
        r == effective_limit(limit),
{
    match limit {
        Some(l) => if l > MAX_LIMIT {
            MAX_LIMIT
        } else {
            l
        },
        None => DEFAULT_LIMIT,
    }
}

/// Whether a key lies strictly after an exclusive cursor.
pub open spec fn after_cursor(after: Option<Seq<char>>, key: Seq<char>) -> bool {
    match after {
        Some(a) => lex_lt(a, key),
        None => true,
    }
}

pub open spec fn min_nat(a: nat, b: nat) -> nat {
    if a <= b {
        a
    } else {
        b
    }
}

/// The approvals that a read with the given flag reports: all of them, or
/// only those whose expiration has not passed at the given block.
pub open spec fn approvals_filtered(
    apprs: Seq<Approval>,
    include_expired: bool,
    block: &BlockInfo,
) -> Seq<Approval>
    decreases apprs.len(),
{
    if apprs.len() == 0 {
        Seq::empty()
    } else {
        let rest = approvals_filtered(apprs.drop_first(), include_expired, block);
        if include_expired || !apprs[0].expires.is_expired_spec(block) {
            seq![apprs[0]] + rest
        } else {
            rest
        }
    }
}

/// What a filtered read reports: exactly the approvals that pass the
/// expiration filter, in order.
pub proof fn lemma_approvals_filtered(apprs: Seq<Approval>, include_expired: bool, block: &BlockInfo)
    ensures
        forall|k: int|
            0 <= k < approvals_filtered(apprs, include_expired, block).len() ==> (include_expired
                || !(#[trigger] approvals_filtered(apprs, include_expired, block)[k]).expires.is_expired_spec(block))
                && apprs.contains(approvals_filtered(apprs, include_expired, block)[k]),
        forall|k: int|
            0 <= k < apprs.len() && (include_expired || !(#[trigger] apprs[k]).expires.is_expired_spec(
                block,
            )) ==> approvals_filtered(apprs, include_expired, block).contains(apprs[k]),
    decreases apprs.len(),
{
    let f = approvals_filtered(apprs, include_expired, block);
    if apprs.len() == 0 {
    } else {
        let tail = apprs.drop_first();
        lemma_approvals_filtered(tail, include_expired, block);
        let rest = approvals_filtered(tail, include_expired, block);
        assert forall|k: int| 0 <= k < tail.len() implies #[trigger] tail[k] == apprs[k + 1] by {}
        let kept = include_expired || !apprs[0].expires.is_expired_spec(block);
        assert forall|k: int| 0 <= k < f.len() implies (include_expired
            || !(#[trigger] f[k]).expires.is_expired_spec(block)) && apprs.contains(f[k]) by {
            if kept && k == 0 {
                assert(f[0] == apprs[0]);
            } else {
                let k2 = if kept {
                    k - 1
                } else {
                    k
                };
                assert(f[k] == rest[k2]);
                let j = choose|j: int| 0 <= j < tail.len() && tail[j] == rest[k2];
                assert(apprs[j + 1] == rest[k2]);
            }
        }
        assert forall|k: int|
            0 <= k < apprs.len() && (include_expired || !(#[trigger] apprs[k]).expires.is_expired_spec(
                block,
            )) implies f.contains(apprs[k]) by {
            if k == 0 {
                assert(f[0] == apprs[0]);
            } else {
                assert(tail[k - 1] == apprs[k]);
                assert(rest.contains(apprs[k]));
                let j = choose|j: int| 0 <= j < rest.len() && rest[j] == apprs[k];
                if kept {
                    assert(f[j + 1] == apprs[k]);
                } else {
                    assert(f[j] == apprs[k]);
                }
            }
        }
    }
}

/// Copies the approvals that pass the expiration filter, in order.
fn filter_approvals(apprs: &Vec<Approval>, include_expired: bool, block: &BlockInfo) -> (r: Vec<
    Approval,
>)
    ensures
        r@ == approvals_filtered(apprs@, include_expired, block),
{
    let mut out: Vec<Approval> = Vec::new();
    let mut i: usize = 0;
    proof {
        assert(apprs@.skip(0) =~= apprs@);
    }
    while i < apprs.len()
        invariant
            i <= apprs@.len(),
            approvals_filtered(apprs@, include_expired, block) =~= out@ + approvals_filtered(
                apprs@.skip(i as int),
                include_expired,
                block,
            ),
        decreases apprs@.len() - i,
    {
        let ghost pre_out = out@;
        let ghost suffix = apprs@.skip(i as int);
        proof {
            assert(suffix[0] == apprs@[i as int]);
            assert(suffix.drop_first() =~= apprs@.skip(i as int + 1));
        }
        let a = &apprs[i];
        if include_expired || !a.is_expired(block) {
            out.push(a.clone());
            proof {
                assert(approvals_filtered(suffix, include_expired, block) =~= seq![
                    apprs@[i as int]] + approvals_filtered(
                    apprs@.skip(i as int + 1),
                    include_expired,
                    block,
                ));
                assert(out@ =~= pre_out.push(apprs@[i as int]));
                assert(out@ + approvals_filtered(apprs@.skip(i as int + 1), include_expired, block)
                    =~= pre_out + approvals_filtered(suffix, include_expired, block));
            }
        } else {
            proof {
                assert(approvals_filtered(suffix, include_expired, block) =~= approvals_filtered(
                    apprs@.skip(i as int + 1),
                    include_expired,
                    block,
                ));
            }
        }
        i = i + 1;
    }
    proof {
        assert(apprs@.skip(apprs@.len() as int) =~= Seq::<Approval>::empty());
        assert(out@ + Seq::<Approval>::empty() =~= out@);
    }
    out
}

/// The view of an optional cursor string.
pub open spec fn opt_view(o: &Option<String>) -> Option<Seq<char>> {
    match o {
        Some(s) => Some(s@),
        None => None,
    }
}

/// The full enumeration of the owner's token ids through the given slice of
/// the owner index: every edge of the owner whose id lies after the cursor
/// and whose token passes the expiration filter, in index order.
pub open spec fn owner_tokens_all(
    s: &LedgerState,
    edges: Seq<OwnerEdge>,
    owner: Seq<char>,
    after: Option<Seq<char>>,
    include_expired_nft: bool,
    block: &BlockInfo,
) -> Seq<String>
    decreases edges.len(),
{
    if edges.len() == 0 {
        Seq::empty()
    } else {
        let rest = owner_tokens_all(s, edges.drop_first(), owner, after, include_expired_nft, block);
        if edges[0].owner@ == owner && after_cursor(after, edges[0].token_id@) && (
        include_expired_nft || !s.token_expired_spec(
            token_at(s.tokens@, edges[0].token_id@),
            block,
        )) {
            seq![edges[0].token_id] + rest
        } else {
            rest
        }
    }
}

/// The full enumeration of token ids through the given slice of the primary
/// map: every id after the cursor whose token passes the expiration filter,
/// in id order.
pub open spec fn all_tokens_list(
    s: &LedgerState,
    toks: Seq<TokenEntry>,
    after: Option<Seq<char>>,
    include_expired_nft: bool,
    block: &BlockInfo,
) -> Seq<String>
    decreases toks.len(),
{
    if toks.len() == 0 {
        Seq::empty()
    } else {
        let rest = all_tokens_list(s, toks.drop_first(), after, include_expired_nft, block);
        if after_cursor(after, toks[0].token_id@) && (include_expired_nft
            || !s.token_expired_spec(toks[0], block)) {
            seq![toks[0].token_id] + rest
        } else {
            rest
        }
    }
}

/// The full list of the owner's operator grants, reported as approvals:
/// every grant of the owner whose operator lies after the cursor and which
/// passes the expiration filter, in grant order.
pub open spec fn operator_list(
    grants: Seq<OperatorGrant>,
    owner: Seq<char>,
    include_expired: bool,
    after: Option<Seq<char>>,
    block: &BlockInfo,
) -> Seq<Approval>
    decreases grants.len(),
{
    if grants.len() == 0 {
        Seq::empty()
    } else {
        let rest = operator_list(grants.drop_first(), owner, include_expired, after, block);
        if grants[0].owner@ == owner && after_cursor(after, grants[0].operator@) && (include_expired
            || !grants[0].expires.is_expired_spec(block)) {
            seq![Approval { spender: grants[0].operator, expires: grants[0].expires }] + rest
        } else {
            rest
        }
    }
}

/// Whether the approvals list holds an entry for the spender.
pub open spec fn has_approval(apprs: Seq<Approval>, spender: Seq<char>) -> bool {
    exists|i: int| 0 <= i < apprs.len() && (#[trigger] apprs[i]).spender@ == spender
}

/// The approval of the spender; meaningful when `has_approval` and the list
/// names no spender twice.
pub open spec fn approval_of(apprs: Seq<Approval>, spender: Seq<char>) -> Approval {
    apprs[choose|i: int| 0 <= i < apprs.len() && (#[trigger] apprs[i]).spender@ == spender]
}

/// The owner of a token together with its reported approvals.
#[derive(Debug)]
pub struct OwnerOfResponse {
    pub owner: String,
    pub approvals: Vec<Approval>,
}

/// One approval, as reported by an approval query.
#[derive(Debug)]
pub struct ApprovalResponse {
    pub approval: Approval,
}

#[derive(Debug)]
pub struct ApprovalsResponse {
    pub approvals: Vec<Approval>,
}

/// One operator grant, reported as an approval over the owner's tokens.
#[derive(Debug)]
pub struct OperatorResponse {
    pub approval: Approval,
}

#[derive(Debug)]
pub struct OperatorsResponse {
    pub operators: Vec<Approval>,
}

#[derive(Debug)]
pub struct NumTokensResponse {
    pub count: u64,
}

#[derive(Debug)]
pub struct TokensResponse {
    pub tokens: Vec<String>,
}

#[derive(Debug)]
pub struct NftInfoResponse {
    pub token_uri: Option<String>,
    pub extension: Option<Metadata>,
}

#[derive(Debug)]
pub struct AllNftInfoResponse {
    pub access: OwnerOfResponse,
    pub info: NftInfoResponse,
}

impl LedgerState {
    /// Whether a token visible to the query exists: stored, and not hidden by
    /// the expiration filter.
    pub open spec fn token_visible(
        &self,
        token_id: Seq<char>,
        include_expired_nft: bool,
        block: &BlockInfo,
    ) -> bool {
        has_token(self.tokens@, token_id) && (include_expired_nft || !self.token_expired_spec(
            token_at(self.tokens@, token_id),
            block,
        ))
    }

    /// Looks a token's slot up and applies the expiration filter; the common
    /// opening of every point query.
    fn visible_token_index(
        &self,
        token_id: &String,
        include_expired_nft: bool,
        block: &BlockInfo,
    ) -> (r: Result<usize, ContractError>)
        requires
            self.wf(),
        ensures
            match r {
                Ok(i) => {
                    &&& self.token_visible(token_id@, include_expired_nft, block)
                    &&& i < self.tokens@.len()
                    &&& self.tokens@[i as int] == token_at(self.tokens@, token_id@)
                },
                Err(e) => {
                    &&& !self.token_visible(token_id@, include_expired_nft, block)
                    &&& e == ContractError::NotFound
                },
            },
    {
        let idx = match self.find_token(token_id) {
            Some(i) => i,
            None => {
                return Err(ContractError::NotFound);
            },
        };
        proof {
            lemma_token_index_unique(self.tokens@, idx as int);
        }
        if !include_expired_nft && self.token_expired(&self.tokens[idx], block) {
            return Err(ContractError::NotFound);
        }
        Ok(idx)
    }

    /// Reports the owner of a token and the approvals the expiration filter
    /// lets through. A token hidden by the token-expiration filter reads as
    /// absent.
    pub fn owner_of(
        &self,
        token_id: &String,
        include_expired: bool,
        include_expired_nft: bool,
        block: &BlockInfo,
    ) -> (r: Result<OwnerOfResponse, ContractError>)
        requires
            self.wf(),
        ensures
            match r {
                Ok(resp) => {
                    &&& self.token_visible(token_id@, include_expired_nft, block)
                    &&& resp.owner == token_at(self.tokens@, token_id@).info.owner
                    &&& resp.approvals@ == approvals_filtered(
                        token_at(self.tokens@, token_id@).info.approvals@,
                        include_expired,
                        block,
                    )
                },
                Err(e) => {
                    &&& !self.token_visible(token_id@, include_expired_nft, block)
                    &&& e == ContractError::NotFound
                },
            },
    {
        let idx = self.visible_token_index(token_id, include_expired_nft, block)?;
        let info = &self.tokens[idx].info;
        Ok(
            OwnerOfResponse {
                owner: info.owner.clone(),
                approvals: filter_approvals(&info.approvals, include_expired, block),
            },
        )
    }

    /// Reports the spender's approval on a token; an approval hidden by the
    /// expiration filter, like an absent one, reads as not found.
    pub fn approval(
        &self,
        token_id: &String,
        spender: &String,
        include_expired: bool,
        include_expired_nft: bool,
        block: &BlockInfo,
    ) -> (r: Result<ApprovalResponse, ContractError>)
        requires
            self.wf(),
        ensures
            match r {
                Ok(resp) => {
                    &&& self.token_visible(token_id@, include_expired_nft, block)
                    &&& has_approval(token_at(self.tokens@, token_id@).info.approvals@, spender@)
                    &&& resp.approval == approval_of(
                        token_at(self.tokens@, token_id@).info.approvals@,
                        spender@,
                    )
                    &&& (include_expired || !resp.approval.expires.is_expired_spec(block))
                },
                Err(e) => {
                    &&& e == ContractError::NotFound
                    &&& !(self.token_visible(token_id@, include_expired_nft, block) && has_approval(
                        token_at(self.tokens@, token_id@).info.approvals@,
                        spender@,
                    ) && (include_expired || !approval_of(
                        token_at(self.tokens@, token_id@).info.approvals@,
                        spender@,
                    ).expires.is_expired_spec(block)))
                },
            },
    {
        let idx = self.visible_token_index(token_id, include_expired_nft, block)?;
        let apprs = &self.tokens[idx].info.approvals;
        let ghost aseq = token_at(self.tokens@, token_id@).info.approvals@;
        let mut i: usize = 0;
        while i < apprs.len()
            invariant
                self.wf(),
                self.token_visible(token_id@, include_expired_nft, block),
                idx < self.tokens@.len(),
                self.tokens@[idx as int] == token_at(self.tokens@, token_id@),
                apprs == &token_at(self.tokens@, token_id@).info.approvals,
                apprs@ == aseq,
                i <= apprs@.len(),
                forall|j: int| 0 <= j < i ==> (#[trigger] apprs@[j]).spender@ != spender@,
            decreases apprs@.len() - i,
        {
            let a = &apprs[i];
            if a.spender == *spender {
                proof {
                    assert(crate::state::entry_valid(self.tokens@[idx as int]));
                    assert(aseq[i as int].spender@ == spender@);
                    let k = choose|k: int|
                        0 <= k < aseq.len() && (#[trigger] aseq[k]).spender@ == spender@;
                    if k < i as int {
                        assert(aseq[k].spender@ != aseq[i as int].spender@);
                    } else if k > i as int {
                        assert(aseq[i as int].spender@ != aseq[k].spender@);
                    }
                    assert(approval_of(aseq, spender@) == aseq[i as int]);
                }
                if include_expired || !a.is_expired(block) {
                    return Ok(ApprovalResponse { approval: a.clone() });
                } else {
                    return Err(ContractError::NotFound);
                }
            }
            i = i + 1;
        }
        Err(ContractError::NotFound)
    }

    /// Reports every approval on a token that the expiration filter lets
    /// through.
    pub fn approvals(
        &self,
        token_id: &String,
        include_expired: bool,
        include_expired_nft: bool,
        block: &BlockInfo,
    ) -> (r: Result<ApprovalsResponse, ContractError>)
        requires
            self.wf(),
        ensures
            match r {
                Ok(resp) => {
                    &&& self.token_visible(token_id@, include_expired_nft, block)
                    &&& resp.approvals@ == approvals_filtered(
                        token_at(self.tokens@, token_id@).info.approvals@,
                        include_expired,
                        block,
                    )
                },
                Err(e) => {
                    &&& !self.token_visible(token_id@, include_expired_nft, block)
                    &&& e == ContractError::NotFound
                },
            },
    {
        let idx = self.visible_token_index(token_id, include_expired_nft, block)?;
        Ok(
            ApprovalsResponse {
                approvals: filter_approvals(&self.tokens[idx].info.approvals, include_expired, block),
            },
        )
    }

    /// Reports a token's stored record: its resource identifier and metadata.
    pub fn nft_info(
        &self,
        token_id: &String,
        include_expired_nft: bool,
        block: &BlockInfo,
    ) -> (r: Result<NftInfoResponse, ContractError>)
        requires
            self.wf(),
        ensures
            match r {
                Ok(resp) => {
                    &&& self.token_visible(token_id@, include_expired_nft, block)
                    &&& resp.token_uri == token_at(self.tokens@, token_id@).info.token_uri
                    &&& opt_metadata_eqv(
                        &resp.extension,
                        &token_at(self.tokens@, token_id@).info.extension,
                    )
                },
                Err(e) => {
                    &&& !self.token_visible(token_id@, include_expired_nft, block)
                    &&& e == ContractError::NotFound
                },
            },
    {
        let idx = self.visible_token_index(token_id, include_expired_nft, block)?;
        let info = &self.tokens[idx].info;
        Ok(
            NftInfoResponse {
                token_uri: clone_opt_string(&info.token_uri),
                extension: clone_opt_metadata(&info.extension),
            },
        )
    }

    /// Reports ownership and record of a token in one query.
    pub fn all_nft_info(
        &self,
        token_id: &String,
        include_expired: bool,
        include_expired_nft: bool,
        block: &BlockInfo,
    ) -> (r: Result<AllNftInfoResponse, ContractError>)
        requires
            self.wf(),
        ensures
            match r {
                Ok(resp) => {
                    &&& self.token_visible(token_id@, include_expired_nft, block)
                    &&& resp.access.owner == token_at(self.tokens@, token_id@).info.owner
                    &&& resp.access.approvals@ == approvals_filtered(
                        token_at(self.tokens@, token_id@).info.approvals@,
                        include_expired,
                        block,
                    )
                    &&& resp.info.token_uri == token_at(self.tokens@, token_id@).info.token_uri
                    &&& opt_metadata_eqv(
                        &resp.info.extension,
                        &token_at(self.tokens@, token_id@).info.extension,
                    )
                },
                Err(e) => {
                    &&& !self.token_visible(token_id@, include_expired_nft, block)
                    &&& e == ContractError::NotFound
                },
            },
    {
        let access = self.owner_of(token_id, include_expired, include_expired_nft, block)?;
        let info = self.nft_info(token_id, include_expired_nft, block)?;
        Ok(AllNftInfoResponse { access, info })
    }

    /// Reports the operator's blanket grant over the owner; one hidden by the
    /// expiration filter, like an absent one, reads as not found.
    pub fn operator(
        &self,
        owner: &String,
        operator: &String,
        include_expired: bool,
        block: &BlockInfo,
    ) -> (r: Result<OperatorResponse, ContractError>)
        requires
            self.wf(),
        ensures
            match r {
                Ok(resp) => {
                    &&& has_grant(self.operators@, owner@, operator@)
                    &&& resp.approval.spender@ == operator@
                    &&& resp.approval.expires == grant_at(
                        self.operators@,
                        owner@,
                        operator@,
                    ).expires
                    &&& (include_expired || !resp.approval.expires.is_expired_spec(block))
                },
                Err(e) => {
                    &&& e == ContractError::NotFound
                    &&& !(has_grant(self.operators@, owner@, operator@) && (include_expired
                        || !grant_at(self.operators@, owner@, operator@).expires.is_expired_spec(
                        block,
                    )))
                },
            },
    {
        let idx = match self.find_grant(owner, operator) {
            Some(i) => i,
            None => {
                return Err(ContractError::NotFound);
            },
        };
        proof {
            lemma_grant_index_unique(self.operators@, idx as int);
        }
        let g = &self.operators[idx];
        if !include_expired && g.expires.is_expired(block) {
            return Err(ContractError::NotFound);
        }
        Ok(OperatorResponse { approval: Approval { spender: g.operator.clone(), expires: g.expires } })
    }

    /// Enumerates the token ids of one owner through the owner index, in
    /// ascending id order: those after the exclusive cursor that pass the
    /// token-expiration filter, up to the clamped page size.
    pub fn tokens(
        &self,
        owner: &String,
        start_after: &Option<String>,
        limit: Option<u32>,
        include_expired_nft: bool,
        block: &BlockInfo,
    ) -> (r: TokensResponse)
        requires
            self.wf(),
        ensures
            ({
                let full = owner_tokens_all(
                    self,
                    self.owner_index@,
                    owner@,
                    opt_view(start_after),
                    include_expired_nft,
                    block,
                );
                r.tokens@ == full.take(
                    min_nat(effective_limit(limit) as nat, full.len()) as int,
                )
            }),
    {
        let page = clamp_limit(limit) as usize;
        let ghost full = owner_tokens_all(
            self,
            self.owner_index@,
            owner@,
            opt_view(start_after),
            include_expired_nft,
            block,
        );
        let mut out: Vec<String> = Vec::new();
        let mut i: usize = 0;
        proof {
            assert(self.owner_index@.skip(0) =~= self.owner_index@);
        }
        while i < self.owner_index.len() && out.len() < page
            invariant
                self.wf(),
                i <= self.owner_index@.len(),
                out@.len() <= page,
                page == effective_limit(limit) as usize,
                full == owner_tokens_all(
                    self,
                    self.owner_index@,
                    owner@,
                    opt_view(start_after),
                    include_expired_nft,
                    block,
                ),
                full =~= out@ + owner_tokens_all(
                    self,
                    self.owner_index@.skip(i as int),
                    owner@,
                    opt_view(start_after),
                    include_expired_nft,
                    block,
                ),
            decreases self.owner_index@.len() - i,
        {
            let ghost pre_out = out@;
            let ghost suffix = self.owner_index@.skip(i as int);
            proof {
                assert(suffix[0] == self.owner_index@[i as int]);
                assert(suffix.drop_first() =~= self.owner_index@.skip(i as int + 1));
            }
            let edge = &self.owner_index[i];
            let matches_owner = edge.owner == *owner;
            let after_ok = match start_after {
                Some(a) => str_lt(a, edge.token_id_ref()),
                None => true,
            };
            let visible = if !matches_owner || !after_ok {
                false
            } else if include_expired_nft {
                true
            } else {
                let ti = match self.find_token(edge.token_id_ref()) {
                    Some(t) => t,
                    None => {
                        proof {
                            assert(has_token(self.tokens@, edge.token_id@));
                        }
                        return vstd::pervasive::unreached();
                    },
                };
                proof {
                    lemma_token_index_unique(self.tokens@, ti as int);
                }
                !self.token_expired(&self.tokens[ti], block)
            };
            if visible {
                out.push(edge.token_id_ref().clone());
                proof {
                    assert(owner_tokens_all(
                        self,
                        suffix,
                        owner@,
                        opt_view(start_after),
                        include_expired_nft,
                        block,
                    ) =~= seq![self.owner_index@[i as int].token_id] + owner_tokens_all(
                        self,
                        self.owner_index@.skip(i as int + 1),
                        owner@,
                        opt_view(start_after),
                        include_expired_nft,
                        block,
                    ));
                    assert(out@ =~= pre_out.push(self.owner_index@[i as int].token_id));
                    assert(out@ + owner_tokens_all(
                        self,
                        self.owner_index@.skip(i as int + 1),
                        owner@,
                        opt_view(start_after),
                        include_expired_nft,
                        block,
                    ) =~= pre_out + owner_tokens_all(
                        self,
                        suffix,
                        owner@,
                        opt_view(start_after),
                        include_expired_nft,
                        block,
                    ));
                }
            } else {
                proof {
                    assert(owner_tokens_all(
                        self,
                        suffix,
                        owner@,
                        opt_view(start_after),
                        include_expired_nft,
                        block,
                    ) =~= owner_tokens_all(
                        self,
                        self.owner_index@.skip(i as int + 1),
                        owner@,
                        opt_view(start_after),
                        include_expired_nft,
                        block,
                    ));
                }
            }
            i = i + 1;
        }
        proof {
            if i == self.owner_index@.len() {
                assert(self.owner_index@.skip(i as int) =~= Seq::<OwnerEdge>::empty());
                assert(full =~= out@);
                assert(full.take(min_nat(page as nat, full.len()) as int) =~= out@);
            } else {
                assert(out@.len() == page);
                assert(full.take(min_nat(page as nat, full.len()) as int) =~= out@);
            }
        }
        TokensResponse { tokens: out }
    }

    /// Enumerates all token ids, in ascending order: those after the
    /// exclusive cursor that pass the token-expiration filter, up to the
    /// clamped page size.
    pub fn all_tokens(
        &self,
        start_after: &Option<String>,
        limit: Option<u32>,
        include_expired_nft: bool,
        block: &BlockInfo,
    ) -> (r: TokensResponse)
        requires
            self.wf(),
        ensures
            ({
                let full = all_tokens_list(
                    self,
                    self.tokens@,
                    opt_view(start_after),
                    include_expired_nft,
                    block,
                );
                r.tokens@ == full.take(
                    min_nat(effective_limit(limit) as nat, full.len()) as int,
                )
            }),
    {
        let page = clamp_limit(limit) as usize;
        let ghost full = all_tokens_list(
            self,
            self.tokens@,
            opt_view(start_after),
            include_expired_nft,
            block,
        );
        let mut out: Vec<String> = Vec::new();
        let mut i: usize = 0;
        proof {
            assert(self.tokens@.skip(0) =~= self.tokens@);
        }
        while i < self.tokens.len() && out.len() < page
            invariant
                self.wf(),
                i <= self.tokens@.len(),
                out@.len() <= page,
                page == effective_limit(limit) as usize,
                full == all_tokens_list(
                    self,
                    self.tokens@,
                    opt_view(start_after),
                    include_expired_nft,
                    block,
                ),
                full =~= out@ + all_tokens_list(
                    self,
                    self.tokens@.skip(i as int),
                    opt_view(start_after),
                    include_expired_nft,
                    block,
                ),
            decreases self.tokens@.len() - i,
        {
            let ghost pre_out = out@;
            let ghost suffix = self.tokens@.skip(i as int);
            proof {
                assert(suffix[0] == self.tokens@[i as int]);
                assert(suffix.drop_first() =~= self.tokens@.skip(i as int + 1));
            }
            let entry = &self.tokens[i];
            let after_ok = match start_after {
                Some(a) => str_lt(a, entry.token_id()),
                None => true,
            };
            let visible = after_ok && (include_expired_nft || !self.token_expired(entry, block));
            if visible {
                out.push(entry.token_id().clone());
                proof {
                    assert(all_tokens_list(
                        self,
                        suffix,
                        opt_view(start_after),
                        include_expired_nft,
                        block,
                    ) =~= seq![self.tokens@[i as int].token_id] + all_tokens_list(
                        self,
                        self.tokens@.skip(i as int + 1),
                        opt_view(start_after),
                        include_expired_nft,
                        block,
                    ));
                    assert(out@ =~= pre_out.push(self.tokens@[i as int].token_id));
                    assert(out@ + all_tokens_list(
                        self,
                        self.tokens@.skip(i as int + 1),
                        opt_view(start_after),
                        include_expired_nft,
                        block,
                    ) =~= pre_out + all_tokens_list(
                        self,
                        suffix,
                        opt_view(start_after),
                        include_expired_nft,
                        block,
                    ));
                }
            } else {
                proof {
                    assert(all_tokens_list(
                        self,
                        suffix,
                        opt_view(start_after),
                        include_expired_nft,
                        block,
                    ) =~= all_tokens_list(
                        self,
                        self.tokens@.skip(i as int + 1),
                        opt_view(start_after),
                        include_expired_nft,
                        block,
                    ));
                }
            }
            i = i + 1;
        }
        proof {
            if i == self.tokens@.len() {
                assert(self.tokens@.skip(i as int) =~= Seq::<TokenEntry>::empty());
                assert(full =~= out@);
                assert(full.take(min_nat(page as nat, full.len()) as int) =~= out@);
            } else {
                assert(out@.len() == page);
                assert(full.take(min_nat(page as nat, full.len()) as int) =~= out@);
            }
        }
        TokensResponse { tokens: out }
    }

    /// Lists the operators holding a blanket grant over the owner, in
    /// ascending operator order: those after the exclusive cursor that pass
    /// the expiration filter, up to the clamped page size.
    pub fn operators(
        &self,
        owner: &String,
        include_expired: bool,
        start_after: &Option<String>,
        limit: Option<u32>,
        block: &BlockInfo,
    ) -> (r: OperatorsResponse)
        requires
            self.wf(),
        ensures
            ({
                let full = operator_list(
                    self.operators@,
                    owner@,
                    include_expired,
                    opt_view(start_after),
                    block,
                );
                r.operators@ == full.take(
                    min_nat(effective_limit(limit) as nat, full.len()) as int,
                )
            }),
    {
        let page = clamp_limit(limit) as usize;
        let ghost full = operator_list(
            self.operators@,
            owner@,
            include_expired,
            opt_view(start_after),
            block,
        );
        let mut out: Vec<Approval> = Vec::new();
        let mut i: usize = 0;
        proof {
            assert(self.operators@.skip(0) =~= self.operators@);
        }
        while i < self.operators.len() && out.len() < page
            invariant
                i <= self.operators@.len(),
                out@.len() <= page,
                page == effective_limit(limit) as usize,
                full == operator_list(
                    self.operators@,
                    owner@,
                    include_expired,
                    opt_view(start_after),
                    block,
                ),
                full =~= out@ + operator_list(
                    self.operators@.skip(i as int),
                    owner@,
                    include_expired,
                    opt_view(start_after),
                    block,
                ),
            decreases self.operators@.len() - i,
        {
            let ghost pre_out = out@;
            let ghost suffix = self.operators@.skip(i as int);
            proof {
                assert(suffix[0] == self.operators@[i as int]);
                assert(suffix.drop_first() =~= self.operators@.skip(i as int + 1));
            }
            let g = &self.operators[i];
            let after_ok = match start_after {
                Some(a) => str_lt(a, g.operator_ref()),
                None => true,
            };
            let visible = g.owner == *owner && after_ok && (include_expired || !g.expires.is_expired(
                block,
            ));
            if visible {
                out.push(Approval { spender: g.operator.clone(), expires: g.expires });
                proof {
                    let picked = Approval {
                        spender: self.operators@[i as int].operator,
                        expires: self.operators@[i as int].expires,
                    };
                    assert(operator_list(
                        suffix,
                        owner@,
                        include_expired,
                        opt_view(start_after),
                        block,
                    ) =~= seq![picked] + operator_list(
                        self.operators@.skip(i as int + 1),
                        owner@,
                        include_expired,
                        opt_view(start_after),
                        block,
                    ));
                    assert(out@ =~= pre_out.push(picked));
                    assert(out@ + operator_list(
                        self.operators@.skip(i as int + 1),
                        owner@,
                        include_expired,
                        opt_view(start_after),
                        block,
                    ) =~= pre_out + operator_list(
                        suffix,
                        owner@,
                        include_expired,
                        opt_view(start_after),
                        block,
                    ));
                }
            } else {
                proof {
                    assert(operator_list(
                        suffix,
                        owner@,
                        include_expired,
                        opt_view(start_after),
                        block,
                    ) =~= operator_list(
                        self.operators@.skip(i as int + 1),
                        owner@,
                        include_expired,
                        opt_view(start_after),
                        block,
                    ));
                }
            }
            i = i + 1;
        }
        proof {
            if i == self.operators@.len() {
                assert(self.operators@.skip(i as int) =~= Seq::<OperatorGrant>::empty());
                assert(full =~= out@);
                assert(full.take(min_nat(page as nat, full.len()) as int) =~= out@);
            } else {
                assert(out@.len() == page);
                assert(full.take(min_nat(page as nat, full.len()) as int) =~= out@);
            }
        }
        OperatorsResponse { operators: out }
    }

    /// Returns the collection singleton.
    pub fn get_collection_info(&self) -> (r: CollectionInfo)
        ensures
            r == self.collection_info,
    {
        self.collection_info.clone()
    }

    /// Returns the withdraw-address singleton.
    pub fn get_withdraw_address(&self) -> (r: Option<String>)
        ensures
            r == self.withdraw_address,
    {
        clone_opt_string(&self.withdraw_address)
    }

    /// Returns the state of the minter role.
    pub fn get_minter_ownership(&self) -> (r: OwnershipState)
        ensures
            r == self.minter,
    {
        self.minter.clone()
    }

    /// Returns the state of the creator role.
    pub fn get_creator_ownership(&self) -> (r: OwnershipState)
        ensures
            r == self.creator,
    {
        self.creator.clone()
    }
}

} // verus!
