//! The ledger's cross-cutting laws, stated and proved once over the spec
//! functions that the operations' contracts use.

use vstd::prelude::*;
use crate::ops::approvals_without;
use crate::order::{lemma_lex_lt_irreflexive, lex_lt, pair_lt};
use crate::query::{after_cursor, approvals_filtered, lemma_approvals_filtered, owner_tokens_all};
use crate::state::{has_edge, has_token, sorted_edges, token_at, LedgerState};
use crate::types::OwnerEdge;
use crate::types::{
    Approval,
    BlockInfo,
    RoyaltyInfo,
    BPS_PER_PCT,
    MAX_DESCRIPTION_LENGTH,
    MAX_ROYALTY_SHARE_PCT,
    MAX_SHARE_DELTA_PCT,
};

verus! {

/// The primary map and the owner index of a well-formed ledger are two views
/// of one relation: a token is stored if and only if the index holds the
/// (owner, id) edge of its owner, and every edge points back at a stored
/// token of that owner. Every operation ends in a well-formed state, so this
/// holds after every operation.
pub proof fn lemma_primary_index_sync(s: &LedgerState)
    requires
        s.wf(),
    ensures
        forall|id: Seq<char>|
            #[trigger] has_token(s.tokens@, id) ==> has_edge(
                s.owner_index@,
                token_at(s.tokens@, id).info.owner@,
                id,
            ),
        forall|o: Seq<char>, id: Seq<char>|
            #[trigger] has_edge(s.owner_index@, o, id) ==> has_token(s.tokens@, id) && token_at(
                s.tokens@,
                id,
            ).info.owner@ == o,
{
    assert forall|id: Seq<char>| #[trigger] has_token(s.tokens@, id) implies has_edge(
        s.owner_index@,
        token_at(s.tokens@, id).info.owner@,
        id,
    ) by {
        let i = crate::state::token_index(s.tokens@, id);
        assert(has_edge(s.owner_index@, s.tokens@[i].info.owner@, s.tokens@[i].token_id@));
    }
    assert forall|o: Seq<char>, id: Seq<char>| #[trigger] has_edge(s.owner_index@, o, id) implies
    has_token(s.tokens@, id) && token_at(s.tokens@, id).info.owner@ == o by {
        let k = choose|k: int|
            0 <= k < s.owner_index@.len() && s.owner_index@[k].owner@ == o
                && s.owner_index@[k].token_id@ == id;
        assert(has_token(s.tokens@, s.owner_index@[k].token_id@));
    }
}

/// The token count of a well-formed ledger always equals the number of
/// stored tokens; with mint raising the count by one and burn lowering it by
/// one, a run of mints and burns leaves the count at their difference, and a
/// burn can never drive it below zero.
pub proof fn lemma_token_count_is_len(s: &LedgerState)
    requires
        s.wf(),
    ensures
        s.token_count == s.tokens@.len(),
{
}

/// A royalty-share update is accepted exactly when the proposed share is
/// within the absolute ceiling and, for an increase, within the per-update
/// delta cap of the prior share; a share above the ceiling is rejected
/// whatever the delta.
pub proof fn lemma_royalty_share_caps(prior: u64, proposed: u64)
    ensures
        RoyaltyInfo::share_update_err(prior, proposed) is None <==> (proposed
            <= MAX_ROYALTY_SHARE_PCT * BPS_PER_PCT && (prior < proposed ==> proposed - prior
            <= MAX_SHARE_DELTA_PCT * BPS_PER_PCT)),
        proposed > MAX_ROYALTY_SHARE_PCT * BPS_PER_PCT ==> RoyaltyInfo::share_update_err(
            prior,
            proposed,
        ) is Some,
{
}

/// Whatever a collection-extension update returns, a returned extension
/// meets the description invariant: non-empty and at most the maximum
/// length. An update that would break it is rejected in full.
pub proof fn lemma_update_keeps_description_bounds(
    cur: &Option<crate::types::CollectionInfoExtension>,
    msg: &crate::types::CollectionInfoExtensionMsg,
)
    ensures
        ({
            let r = crate::update::Update::update_result(cur, msg);
            r matches Ok(Some(ext)) ==> 0 < ext.description@.len() <= MAX_DESCRIPTION_LENGTH
        }),
{
}

/// What walking a sorted slice of the owner index yields: only ids of edges
/// of the owner that pass cursor and filter, each of them, in strictly
/// ascending order.
proof fn lemma_owner_tokens_all_exact(
    s: &LedgerState,
    edges: Seq<OwnerEdge>,
    owner: Seq<char>,
    after: Option<Seq<char>>,
    include_expired_nft: bool,
    block: &crate::types::BlockInfo,
)
    requires
        sorted_edges(edges),
    ensures
        ({
            let full = owner_tokens_all(s, edges, owner, after, include_expired_nft, block);
            &&& forall|k: int|
                0 <= k < full.len() ==> has_edge(edges, owner, (#[trigger] full[k])@)
            &&& forall|i: int, j: int|
                0 <= i < j < full.len() ==> lex_lt((#[trigger] full[i])@, (#[trigger] full[j])@)
            &&& forall|k: int|
                0 <= k < edges.len() && (#[trigger] edges[k]).owner@ == owner && after_cursor(
                    after,
                    edges[k].token_id@,
                ) && (include_expired_nft || !s.token_expired_spec(
                    token_at(s.tokens@, edges[k].token_id@),
                    block,
                )) ==> exists|m: int| 0 <= m < full.len() && (#[trigger] full[m]) == edges[k].token_id
        }),
    decreases edges.len(),
{
    let full = owner_tokens_all(s, edges, owner, after, include_expired_nft, block);
    if edges.len() == 0 {
    } else {
        let tail = edges.drop_first();
        assert forall|k: int| 0 <= k < tail.len() implies #[trigger] tail[k] == edges[k + 1] by {}
        assert(sorted_edges(tail));
        lemma_owner_tokens_all_exact(s, tail, owner, after, include_expired_nft, block);
        let rest = owner_tokens_all(s, tail, owner, after, include_expired_nft, block);
        let head_kept = edges[0].owner@ == owner && after_cursor(after, edges[0].token_id@) && (
        include_expired_nft || !s.token_expired_spec(
            token_at(s.tokens@, edges[0].token_id@),
            block,
        ));
        assert forall|k: int| 0 <= k < full.len() implies has_edge(
            edges,
            owner,
            (#[trigger] full[k])@,
        ) by {
            if head_kept && k == 0 {
                assert(full[0] == edges[0].token_id);
            } else {
                let k2 = if head_kept {
                    k - 1
                } else {
                    k
                };
                assert(full[k] == rest[k2]);
                assert(has_edge(tail, owner, rest[k2]@));
                let j = choose|j: int|
                    0 <= j < tail.len() && tail[j].owner@ == owner && tail[j].token_id@ == rest[k2]@;
                assert(edges[j + 1].owner@ == owner && edges[j + 1].token_id@ == full[k]@);
            }
        }
        assert forall|i: int, j: int| 0 <= i < j < full.len() implies lex_lt(
            (#[trigger] full[i])@,
            (#[trigger] full[j])@,
        ) by {
            if head_kept && i == 0 {
                assert(full[j] == rest[j - 1]);
                assert(has_edge(tail, owner, rest[j - 1]@));
                let m = choose|m: int|
                    0 <= m < tail.len() && tail[m].owner@ == owner && tail[m].token_id@ == rest[j
                        - 1]@;
                assert(pair_lt(
                    edges[0].owner@,
                    edges[0].token_id@,
                    edges[m + 1].owner@,
                    edges[m + 1].token_id@,
                ));
                lemma_lex_lt_irreflexive(owner);
            } else {
                let i2 = if head_kept {
                    i - 1
                } else {
                    i
                };
                let j2 = if head_kept {
                    j - 1
                } else {
                    j
                };
                assert(full[i] == rest[i2] && full[j] == rest[j2]);
            }
        }
        assert forall|k: int|
            0 <= k < edges.len() && (#[trigger] edges[k]).owner@ == owner && after_cursor(
                after,
                edges[k].token_id@,
            ) && (include_expired_nft || !s.token_expired_spec(
                token_at(s.tokens@, edges[k].token_id@),
                block,
            )) implies exists|m: int|
            0 <= m < full.len() && (#[trigger] full[m]) == edges[k].token_id by {
            if k == 0 {
                assert(full[0] == edges[0].token_id);
            } else {
                assert(tail[k - 1] == edges[k]);
                let m2 = choose|m2: int|
                    0 <= m2 < rest.len() && (#[trigger] rest[m2]) == tail[k - 1].token_id;
                if head_kept {
                    assert(full[m2 + 1] == edges[k].token_id);
                } else {
                    assert(full[m2] == edges[k].token_id);
                }
            }
        }
    }
}

/// Enumerating an owner's tokens without cursor or filter walks exactly the
/// ids the owner holds in the primary map, in strictly ascending order: no
/// duplicates and no omissions. Pages of any size are prefixes of this list,
/// so their concatenation reproduces it.
pub proof fn lemma_owner_enumeration_exact(
    s: &LedgerState,
    owner: Seq<char>,
    block: &crate::types::BlockInfo,
)
    requires
        s.wf(),
    ensures
        ({
            let full = owner_tokens_all(s, s.owner_index@, owner, None, true, block);
            &&& forall|i: int, j: int|
                0 <= i < j < full.len() ==> lex_lt((#[trigger] full[i])@, (#[trigger] full[j])@)
            &&& forall|k: int|
                0 <= k < full.len() ==> has_token(s.tokens@, (#[trigger] full[k])@) && token_at(
                    s.tokens@,
                    full[k]@,
                ).info.owner@ == owner
            &&& forall|id: Seq<char>|
                #[trigger] has_token(s.tokens@, id) && token_at(s.tokens@, id).info.owner@ == owner
                    ==> exists|m: int|
                    0 <= m < owner_tokens_all(s, s.owner_index@, owner, None, true, block).len()
                        && (#[trigger] owner_tokens_all(
                        s,
                        s.owner_index@,
                        owner,
                        None,
                        true,
                        block,
                    )[m])@ == id
        }),
{
    lemma_owner_tokens_all_exact(s, s.owner_index@, owner, None, true, block);
    lemma_primary_index_sync(s);
    let full = owner_tokens_all(s, s.owner_index@, owner, None, true, block);
    assert forall|id: Seq<char>|
        #[trigger] has_token(s.tokens@, id) && token_at(s.tokens@, id).info.owner@ == owner implies
    exists|m: int| 0 <= m < full.len() && (#[trigger] full[m])@ == id by {
        assert(has_edge(s.owner_index@, owner, id));
        let k = choose|k: int|
            0 <= k < s.owner_index@.len() && s.owner_index@[k].owner@ == owner
                && s.owner_index@[k].token_id@ == id;
        let m = choose|m: int|
            0 <= m < full.len() && (#[trigger] full[m]) == s.owner_index@[k].token_id;
        assert(full[m]@ == id);
    }
}

/// An approval whose expiration already lies in the past is stored by the
/// approve operation all the same — it stands last in the stored list — but
/// every read that filters on the current block reports it as inactive.
pub proof fn lemma_expired_approval_reads_inactive(
    old_apprs: Seq<Approval>,
    granted: Approval,
    block: &BlockInfo,
)
    requires
        granted.expires.is_expired_spec(block),
    ensures
        ({
            let stored = approvals_without(old_apprs, granted.spender@).push(granted);
            stored[stored.len() - 1] == granted && stored.contains(granted)
                && !approvals_filtered(stored, false, block).contains(granted)
        }),
{
    let stored = approvals_without(old_apprs, granted.spender@).push(granted);
    assert(stored[stored.len() - 1] == granted);
    lemma_approvals_filtered(stored, false, block);
    if approvals_filtered(stored, false, block).contains(granted) {
        let k = choose|k: int|
            0 <= k < approvals_filtered(stored, false, block).len() && approvals_filtered(
                stored,
                false,
                block,
            )[k] == granted;
        assert(!approvals_filtered(stored, false, block)[k].expires.is_expired_spec(block));
    }
}

} // verus!
