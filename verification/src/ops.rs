//! The mutating ledger operations. Each one validates every precondition
//! before it touches the store, so a failing invocation leaves the state
//! exactly as it found it, and each re-establishes well-formedness.

use vstd::prelude::*;
use crate::errors::ContractError;
use crate::order::{lemma_lex_lt_connected, lemma_pair_lt_connected, lex_lt, pair_lt};
use crate::state::{
    entry_valid,
    grant_at,
    has_edge,
    has_grant,
    has_token,
    lemma_edge_insert,
    lemma_edge_remove,
    lemma_grant_index_unique,
    lemma_grant_insert,
    lemma_grant_remove,
    lemma_token_index_unique,
    lemma_token_insert,
    lemma_token_remove,
    lemma_token_update,
    token_at,
    LedgerState,
};
use crate::types::{
    Approval,
    BlockInfo,
    CollectionInfo,
    Expiration,
    InstantiateMsg,
    Metadata,
    NftInfo,
    OperatorGrant,
    OwnerEdge,
    OwnershipState,
    TokenEntry,
};
use crate::types::{CollectionInfoExtensionMsg, OwnershipAction};
use crate::update::Update;
use crate::validate::Validate;

verus! {

/// What a two-phase ownership action yields on a role: the next state of the
/// role, or the error that rejects the action. A holder may propose (or
/// re-propose) a transfer or renounce; only the proposed holder may accept,
/// and only while the proposal is unexpired.
pub open spec fn transition_result(
    state: &OwnershipState,
    caller: Seq<char>,
    action: &OwnershipAction,
    block: &BlockInfo,
) -> Result<OwnershipState, ContractError> {
    match action {
        OwnershipAction::TransferOwnership { new_owner, expiry } => {
            if !state.is_held_by(caller) {
                Err(ContractError::Unauthorized)
            } else {
                Ok(
                    OwnershipState::PendingTransfer {
                        owner: match state {
                            OwnershipState::Held { owner } => *owner,
                            OwnershipState::PendingTransfer { owner, .. } => *owner,
                            OwnershipState::Unset => *new_owner,
                        },
                        pending: *new_owner,
                        expiry: *expiry,
                    },
                )
            }
        },
        OwnershipAction::AcceptOwnership => match state {
            OwnershipState::PendingTransfer { owner, pending, expiry } => {
                if pending@ != caller {
                    Err(ContractError::Unauthorized)
                } else if expiry is Some && expiry->0.is_expired_spec(block) {
                    Err(ContractError::ExpirationPolicy)
                } else {
                    Ok(OwnershipState::Held { owner: *pending })
                }
            },
            _ => Err(ContractError::NotFound),
        },
        OwnershipAction::RenounceOwnership => {
            if !state.is_held_by(caller) {
                Err(ContractError::Unauthorized)
            } else {
                Ok(OwnershipState::Unset)
            }
        },
    }
}

/// Applies a two-phase ownership action to one role slot; on failure the slot
/// is untouched.
pub fn apply_ownership_action(
    slot: &mut OwnershipState,
    caller: &String,
    action: OwnershipAction,
    block: &BlockInfo,
) -> (r: Result<(), ContractError>)
    ensures
        match r {
            Ok(()) => transition_result(old(slot), caller@, &action, block) is Ok && *final(slot)
                == transition_result(old(slot), caller@, &action, block)->Ok_0,
            Err(e) => transition_result(old(slot), caller@, &action, block) == Err::<
                OwnershipState,
                ContractError,
            >(e) && *final(slot) == *old(slot),
        },
{
    match action {
        OwnershipAction::TransferOwnership { new_owner, expiry } => {
            if !slot.held_by(caller) {
                return Err(ContractError::Unauthorized);
            }
            let owner = match slot {
                OwnershipState::Held { owner } => owner.clone(),
                OwnershipState::PendingTransfer { owner, .. } => owner.clone(),
                OwnershipState::Unset => new_owner.clone(),
            };
            *slot = OwnershipState::PendingTransfer { owner, pending: new_owner, expiry };
            Ok(())
        },
        OwnershipAction::AcceptOwnership => {
            match slot {
                OwnershipState::PendingTransfer { owner, pending, expiry } => {
                    if !(*pending == *caller) {
                        return Err(ContractError::Unauthorized);
                    }
                    if let Some(x) = expiry {
                        if x.is_expired(block) {
                            return Err(ContractError::ExpirationPolicy);
                        }
                    }
                    let accepted = pending.clone();
                    *slot = OwnershipState::Held { owner: accepted };
                    Ok(())
                },
                _ => Err(ContractError::NotFound),
            }
        },
        OwnershipAction::RenounceOwnership => {
            if !slot.held_by(caller) {
                return Err(ContractError::Unauthorized);
            }
            *slot = OwnershipState::Unset;
            Ok(())
        },
    }
}

/// Whether the approvals list grants the spender an approval that is not yet
/// expired at the given block.
pub open spec fn has_active_approval(
    apprs: Seq<Approval>,
    spender: Seq<char>,
    block: &BlockInfo,
) -> bool {
    exists|i: int|
        0 <= i < apprs.len() && (#[trigger] apprs[i]).spender@ == spender
            && !apprs[i].expires.is_expired_spec(block)
}

/// Whether the operator holds an unexpired blanket grant over the owner.
pub open spec fn has_active_operator(
    grants: Seq<OperatorGrant>,
    owner: Seq<char>,
    operator: Seq<char>,
    block: &BlockInfo,
) -> bool {
    exists|i: int|
        0 <= i < grants.len() && (#[trigger] grants[i]).owner@ == owner && grants[i].operator@
            == operator && !grants[i].expires.is_expired_spec(block)
}

/// The admin gate of a restricted (non-transferable) deployment: with an
/// admin configured, only the admin may execute anything; without one, only
/// minting is open to callers.
pub open spec fn non_transferable_gate_spec(
    admin: &Option<String>,
    sender: Seq<char>,
    is_mint: bool,
) -> bool {
    match admin {
        Some(a) => a@ == sender,
        None => is_mint,
    }
}

pub fn non_transferable_gate(admin: &Option<String>, sender: &String, is_mint: bool) -> (r: bool)
    ensures
        r == non_transferable_gate_spec(admin, sender@, is_mint),
{
    match admin {
        Some(a) => *a == *sender,
        None => is_mint,
    }
}

/// The approvals list without every entry of the given spender.
pub open spec fn approvals_without(apprs: Seq<Approval>, spender: Seq<char>) -> Seq<Approval>
    decreases apprs.len(),
{
    if apprs.len() == 0 {
        Seq::empty()
    } else {
        let rest = approvals_without(apprs.drop_first(), spender);
        if apprs[0].spender@ == spender {
            rest
        } else {
            seq![apprs[0]] + rest
        }
    }
}

/// What `approvals_without` keeps: exactly the entries of other spenders, in
/// order, with uniqueness preserved.
pub proof fn lemma_approvals_without(apprs: Seq<Approval>, spender: Seq<char>)
    ensures
        approvals_without(apprs, spender).len() <= apprs.len(),
        forall|k: int|
            0 <= k < approvals_without(apprs, spender).len() ==> (#[trigger] approvals_without(
                apprs,
                spender,
            )[k]).spender@ != spender && apprs.contains(approvals_without(apprs, spender)[k]),
        forall|k: int|
            0 <= k < apprs.len() && (#[trigger] apprs[k]).spender@ != spender
                ==> approvals_without(apprs, spender).contains(apprs[k]),
        crate::state::approvals_unique(apprs) ==> crate::state::approvals_unique(
            approvals_without(apprs, spender),
        ),
    decreases apprs.len(),
{
    let w = approvals_without(apprs, spender);
    if apprs.len() == 0 {
    } else {
        let head = apprs[0];
        let tail = apprs.drop_first();
        lemma_approvals_without(tail, spender);
        let rest = approvals_without(tail, spender);
        assert forall|k: int| 0 <= k < tail.len() implies #[trigger] tail[k] == apprs[k + 1] by {}
        assert forall|k: int| 0 <= k < w.len() implies (#[trigger] w[k]).spender@ != spender
            && apprs.contains(w[k]) by {
            if head.spender@ == spender {
                assert(w[k] == rest[k]);
                let j = choose|j: int| 0 <= j < tail.len() && tail[j] == rest[k];
                assert(apprs[j + 1] == rest[k]);
            } else {
                if k == 0 {
                    assert(w[0] == head);
                    assert(apprs[0] == head);
                } else {
                    assert(w[k] == rest[k - 1]);
                    let j = choose|j: int| 0 <= j < tail.len() && tail[j] == rest[k - 1];
                    assert(apprs[j + 1] == rest[k - 1]);
                }
            }
        }
        assert forall|k: int|
            0 <= k < apprs.len() && (#[trigger] apprs[k]).spender@ != spender implies w.contains(
            apprs[k],
        ) by {
            if k == 0 {
                assert(w[0] == apprs[0]);
            } else {
                assert(tail[k - 1] == apprs[k]);
                assert(rest.contains(apprs[k]));
                let j = choose|j: int| 0 <= j < rest.len() && rest[j] == apprs[k];
                if head.spender@ == spender {
                    assert(w[j] == apprs[k]);
                } else {
                    assert(w[j + 1] == apprs[k]);
                }
            }
        }
        if crate::state::approvals_unique(apprs) {
            assert(crate::state::approvals_unique(tail));
            assert forall|i: int, j: int| 0 <= i < j < w.len() implies (#[trigger] w[i].spender@)
                != (#[trigger] w[j].spender@) by {
                if head.spender@ == spender {
                    assert(w[i] == rest[i] && w[j] == rest[j]);
                } else {
                    if i == 0 {
                        assert(w[j] == rest[j - 1]);
                        let p = choose|p: int| 0 <= p < tail.len() && tail[p] == rest[j - 1];
                        assert(apprs[p + 1] == w[j]);
                        assert(apprs[0].spender@ != apprs[p + 1].spender@);
                    } else {
                        assert(w[i] == rest[i - 1] && w[j] == rest[j - 1]);
                    }
                }
            }
        }
    }
}

/// Removes every approval of the given spender, keeping the rest in order.
fn remove_spender(apprs: &Vec<Approval>, spender: &String) -> (r: Vec<Approval>)
    ensures
        r@ == approvals_without(apprs@, spender@),
{
    let mut out: Vec<Approval> = Vec::new();
    let mut i: usize = 0;
    proof {
        assert(apprs@.skip(0) =~= apprs@);
    }
    while i < apprs.len()
        invariant
            i <= apprs@.len(),
            approvals_without(apprs@, spender@) =~= out@ + approvals_without(
                apprs@.skip(i as int),
                spender@,
            ),
        decreases apprs@.len() - i,
    {
        let ghost pre_out = out@;
        let ghost suffix = apprs@.skip(i as int);
        proof {
            assert(suffix.len() > 0);
            assert(suffix[0] == apprs@[i as int]);
            assert(suffix.drop_first() =~= apprs@.skip(i as int + 1));
        }
        let a = &apprs[i];
        if !(a.spender == *spender) {
            out.push(a.clone());
            proof {
                assert(approvals_without(suffix, spender@) =~= seq![apprs@[i as int]]
                    + approvals_without(apprs@.skip(i as int + 1), spender@));
                assert(out@ =~= pre_out.push(apprs@[i as int]));
                assert(out@ + approvals_without(apprs@.skip(i as int + 1), spender@) =~= pre_out
                    + approvals_without(suffix, spender@));
            }
        } else {
            proof {
                assert(approvals_without(suffix, spender@) =~= approvals_without(
                    apprs@.skip(i as int + 1),
                    spender@,
                ));
            }
        }
        i = i + 1;
    }
    proof {
        assert(apprs@.skip(apprs@.len() as int) =~= Seq::<Approval>::empty());
        assert(approvals_without(Seq::<Approval>::empty(), spender@) =~= Seq::<Approval>::empty());
        assert(out@ + Seq::<Approval>::empty() =~= out@);
    }
    out
}

impl LedgerState {
    /// The one authorization predicate for acting on a token: the caller is
    /// the owner, or holds an unexpired approval on the token, or holds an
    /// unexpired blanket grant over the owner. Mutating operations and
    /// read-only previews both use it.
    pub open spec fn can_send(&self, caller: Seq<char>, e: TokenEntry, block: &BlockInfo) -> bool {
        ||| e.info.owner@ == caller
        ||| has_active_approval(e.info.approvals@, caller, block)
        ||| has_active_operator(self.operators@, e.info.owner@, caller, block)
    }

    /// Decides `can_send` for the token in the given slot.
    fn check_can_send(&self, caller: &String, idx: usize, block: &BlockInfo) -> (r: bool)
        requires
            idx < self.tokens@.len(),
        ensures
            r == self.can_send(caller@, self.tokens@[idx as int], block),
    {
        let info = &self.tokens[idx].info;
        if info.owner == *caller {
            return true;
        }
        let mut i: usize = 0;
        while i < info.approvals.len()
            invariant
                i <= info.approvals@.len(),
                info == &self.tokens@[idx as int].info,
                forall|j: int|
                    0 <= j < i ==> !((#[trigger] info.approvals@[j]).spender@ == caller@
                        && !info.approvals@[j].expires.is_expired_spec(block)),
            decreases info.approvals@.len() - i,
        {
            let a = &info.approvals[i];
            if a.spender == *caller && !a.is_expired(block) {
                return true;
            }
            i = i + 1;
        }
        let mut k: usize = 0;
        while k < self.operators.len()
            invariant
                k <= self.operators@.len(),
                info == &self.tokens@[idx as int].info,
                forall|j: int|
                    0 <= j < k ==> !((#[trigger] self.operators@[j]).owner@ == info.owner@
                        && self.operators@[j].operator@ == caller@
                        && !self.operators@[j].expires.is_expired_spec(block)),
            decreases self.operators@.len() - k,
        {
            let g = &self.operators[k];
            if g.owner == info.owner && g.operator == *caller && !g.expires.is_expired(block) {
                return true;
            }
            k = k + 1;
        }
        false
    }

    /// Creates the ledger. The expiration window must be at least one day,
    /// and a supplied collection extension must meet its invariants. The
    /// minter and creator roles default to the caller.
    pub fn instantiate(msg: InstantiateMsg, sender: &String, block: &BlockInfo) -> (r: Result<
        LedgerState,
        ContractError,
    >)
        ensures
            match r {
                Ok(s) => {
                    &&& msg.expiration_days >= 1
                    &&& msg.collection_info_extension.valid()
                    &&& s.wf()
                    &&& s.tokens@.len() == 0
                    &&& s.owner_index@.len() == 0
                    &&& s.operators@.len() == 0
                    &&& s.token_count == 0
                    &&& s.collection_info.name == msg.name
                    &&& s.collection_info.symbol == msg.symbol
                    &&& s.collection_info.extension == msg.collection_info_extension
                    &&& s.collection_info.updated_at == block.time
                    &&& s.minter == (match msg.minter {
                        Some(m) => OwnershipState::Held { owner: m },
                        None => OwnershipState::Held { owner: *sender },
                    })
                    &&& s.creator == (match msg.creator {
                        Some(c) => OwnershipState::Held { owner: c },
                        None => OwnershipState::Held { owner: *sender },
                    })
                    &&& s.withdraw_address == msg.withdraw_address
                    &&& s.expiration_days == msg.expiration_days
                },
                Err(e) => {
                    &&& (msg.expiration_days == 0 || !msg.collection_info_extension.valid())
                    &&& e == (if msg.expiration_days == 0 {
                        ContractError::ExpirationPolicy
                    } else {
                        msg.collection_info_extension.invalid_err()
                    })
                },
            },
    {
        if msg.expiration_days == 0 {
            return Err(ContractError::ExpirationPolicy);
        }
        msg.collection_info_extension.validate()?;
        let minter = match msg.minter {
            Some(m) => OwnershipState::Held { owner: m },
            None => OwnershipState::Held { owner: sender.clone() },
        };
        let creator = match msg.creator {
            Some(c) => OwnershipState::Held { owner: c },
            None => OwnershipState::Held { owner: sender.clone() },
        };
        Ok(
            LedgerState {
                collection_info: CollectionInfo {
                    name: msg.name,
                    symbol: msg.symbol,
                    extension: msg.collection_info_extension,
                    updated_at: block.time,
                },
                token_count: 0,
                tokens: Vec::new(),
                owner_index: Vec::new(),
                operators: Vec::new(),
                withdraw_address: msg.withdraw_address,
                minter,
                creator,
                expiration_days: msg.expiration_days,
            },
        )
    }

    /// Everything a successful mint leaves untouched.
    pub open spec fn mint_frame(&self, pre: &LedgerState) -> bool {
        &&& self.operators == pre.operators
        &&& self.collection_info == pre.collection_info
        &&& self.minter == pre.minter
        &&& self.creator == pre.creator
        &&& self.withdraw_address == pre.withdraw_address
        &&& self.expiration_days == pre.expiration_days
    }

    /// Mints a token: the caller must hold the minter role, the owner must be
    /// a non-empty identity, and the id must be free. The new record starts
    /// with no approvals, the owner index gains its edge, and the token count
    /// grows by one.
    pub fn mint(
        &mut self,
        sender: &String,
        token_id: String,
        owner: String,
        token_uri: Option<String>,
        extension: Option<Metadata>,
        block: &BlockInfo,
    ) -> (r: Result<(), ContractError>)
        requires
            old(self).wf(),
        ensures
            final(self).wf(),
            match r {
                Ok(()) => {
                    &&& old(self).minter.is_held_by(sender@)
                    &&& owner@.len() > 0
                    &&& !has_token(old(self).tokens@, token_id@)
                    &&& final(self).tokens@.len() == old(self).tokens@.len() + 1
                    &&& final(self).token_count == old(self).token_count + 1
                    &&& has_token(final(self).tokens@, token_id@)
                    &&& token_at(final(self).tokens@, token_id@) == (TokenEntry {
                        token_id,
                        mint_time: block.time,
                        info: NftInfo {
                            owner,
                            approvals: token_at(final(self).tokens@, token_id@).info.approvals,
                            token_uri,
                            extension,
                        },
                    })
                    &&& token_at(final(self).tokens@, token_id@).info.approvals@.len() == 0
                    &&& forall|id: Seq<char>|
                        id != token_id@ ==> #[trigger] has_token(final(self).tokens@, id)
                            == has_token(old(self).tokens@, id)
                    &&& forall|id: Seq<char>|
                        id != token_id@ && has_token(old(self).tokens@, id) ==> #[trigger] token_at(
                            final(self).tokens@,
                            id,
                        ) == token_at(old(self).tokens@, id)
                    &&& has_edge(final(self).owner_index@, owner@, token_id@)
                    &&& forall|o: Seq<char>, id: Seq<char>|
                        !(o == owner@ && id == token_id@) ==> #[trigger] has_edge(
                            final(self).owner_index@,
                            o,
                            id,
                        ) == has_edge(old(self).owner_index@, o, id)
                    &&& final(self).mint_frame(old(self))
                },
                Err(e) => {
                    &&& *final(self) == *old(self)
                    &&& (!old(self).minter.is_held_by(sender@) || owner@.len() == 0 || has_token(
                        old(self).tokens@,
                        token_id@,
                    ))
                    &&& e == (if !old(self).minter.is_held_by(sender@) {
                        ContractError::Unauthorized
                    } else if owner@.len() == 0 {
                        ContractError::InvalidInput
                    } else {
                        ContractError::AlreadyExists
                    })
                },
            },
    {
        if !self.minter.held_by(sender) {
            return Err(ContractError::Unauthorized);
        }
        if owner.as_str().unicode_len() == 0 {
            return Err(ContractError::InvalidInput);
        }
        if self.find_token(&token_id).is_some() {
            return Err(ContractError::AlreadyExists);
        }
        let pos = self.token_insert_pos(&token_id);
        let epos = self.edge_insert_pos(&owner, &token_id);
        let edge = OwnerEdge { owner: owner.clone(), token_id: token_id.clone() };
        let entry = TokenEntry {
            token_id,
            mint_time: block.time,
            info: NftInfo { owner, approvals: Vec::new(), token_uri, extension },
        };
        proof {
            assert forall|j: int| pos <= j < self.tokens@.len() implies lex_lt(
                entry.token_id@,
                #[trigger] self.tokens@[j].token_id@,
            ) by {
                assert(self.tokens@[j].token_id@ != entry.token_id@);
                if !lex_lt(entry.token_id@, self.tokens@[j].token_id@) {
                    lemma_lex_lt_connected(self.tokens@[j].token_id@, entry.token_id@);
                }
            }
            lemma_token_insert(self.tokens@, pos as int, entry);
            assert forall|j: int| epos <= j < self.owner_index@.len() implies pair_lt(
                edge.owner@,
                edge.token_id@,
                #[trigger] self.owner_index@[j].owner@,
                self.owner_index@[j].token_id@,
            ) by {
                assert(has_token(self.tokens@, self.owner_index@[j].token_id@));
                assert(self.owner_index@[j].token_id@ != edge.token_id@);
                if !pair_lt(
                    edge.owner@,
                    edge.token_id@,
                    self.owner_index@[j].owner@,
                    self.owner_index@[j].token_id@,
                ) {
                    lemma_pair_lt_connected(
                        self.owner_index@[j].owner@,
                        self.owner_index@[j].token_id@,
                        edge.owner@,
                        edge.token_id@,
                    );
                }
            }
            lemma_edge_insert(self.owner_index@, epos as int, edge);
        }
        let ghost pre_tokens = self.tokens@;
        let ghost pre_index = self.owner_index@;
        self.tokens.insert(pos, entry);
        self.owner_index.insert(epos, edge);
        self.token_count = self.tokens.len() as u64;
        proof {
            assert(self.tokens@ == pre_tokens.insert(pos as int, entry));
            assert(self.owner_index@ == pre_index.insert(epos as int, edge));
            assert forall|i: int| 0 <= i < self.tokens@.len() implies entry_valid(
                #[trigger] self.tokens@[i],
            ) by {
                if i < pos {
                    assert(self.tokens@[i] == pre_tokens[i]);
                } else if i > pos {
                    assert(self.tokens@[i] == pre_tokens[i - 1]);
                } else {
                    assert(self.tokens@[i] == entry);
                }
            }
            assert forall|k: int| 0 <= k < self.owner_index@.len() implies has_token(
                self.tokens@,
                (#[trigger] self.owner_index@[k]).token_id@,
            ) && token_at(self.tokens@, self.owner_index@[k].token_id@).info.owner@
                == self.owner_index@[k].owner@ by {
                if k != epos {
                    let e2 = self.owner_index@[k];
                    assert(e2 == if k < epos {
                        pre_index[k]
                    } else {
                        pre_index[k - 1]
                    });
                    assert(e2.token_id@ != entry.token_id@);
                } else {
                    assert(self.owner_index@[k] == edge);
                }
            }
            assert forall|i: int| 0 <= i < self.tokens@.len() implies has_edge(
                self.owner_index@,
                (#[trigger] self.tokens@[i]).info.owner@,
                self.tokens@[i].token_id@,
            ) by {
                if i != pos {
                    let t2 = self.tokens@[i];
                    assert(t2 == if i < pos {
                        pre_tokens[i]
                    } else {
                        pre_tokens[i - 1]
                    });
                    assert(t2.token_id@ != entry.token_id@);
                    assert(has_edge(pre_index, t2.info.owner@, t2.token_id@));
                } else {
                    assert(self.tokens@[i] == entry);
                }
            }
            lemma_token_index_unique(self.tokens@, pos as int);
        }
        Ok(())
    }

    /// Everything a successful transfer leaves untouched.
    pub open spec fn transfer_frame(&self, pre: &LedgerState) -> bool {
        &&& self.operators == pre.operators
        &&& self.collection_info == pre.collection_info
        &&& self.minter == pre.minter
        &&& self.creator == pre.creator
        &&& self.withdraw_address == pre.withdraw_address
        &&& self.expiration_days == pre.expiration_days
        &&& self.token_count == pre.token_count
    }

    /// Transfers a token: the caller must be its owner or hold an unexpired
    /// approval or operator grant. The token's owner becomes the recipient,
    /// every approval on it is cleared, and the owner index trades the old
    /// edge for the new one.
    pub fn transfer_nft(
        &mut self,
        sender: &String,
        recipient: String,
        token_id: &String,
        block: &BlockInfo,
    ) -> (r: Result<(), ContractError>)
        requires
            old(self).wf(),
        ensures
            final(self).wf(),
            match r {
                Ok(()) => {
                    &&& has_token(old(self).tokens@, token_id@)
                    &&& recipient@.len() > 0
                    &&& old(self).can_send(sender@, token_at(old(self).tokens@, token_id@), block)
                    &&& has_token(final(self).tokens@, token_id@)
                    &&& token_at(final(self).tokens@, token_id@) == (TokenEntry {
                        token_id: token_at(old(self).tokens@, token_id@).token_id,
                        mint_time: token_at(old(self).tokens@, token_id@).mint_time,
                        info: NftInfo {
                            owner: recipient,
                            approvals: token_at(final(self).tokens@, token_id@).info.approvals,
                            token_uri: token_at(old(self).tokens@, token_id@).info.token_uri,
                            extension: token_at(old(self).tokens@, token_id@).info.extension,
                        },
                    })
                    &&& token_at(final(self).tokens@, token_id@).info.approvals@.len() == 0
                    &&& forall|id: Seq<char>|
                        id != token_id@ ==> #[trigger] has_token(final(self).tokens@, id)
                            == has_token(old(self).tokens@, id)
                    &&& forall|id: Seq<char>|
                        id != token_id@ && has_token(old(self).tokens@, id) ==> #[trigger] token_at(
                            final(self).tokens@,
                            id,
                        ) == token_at(old(self).tokens@, id)
                    &&& final(self).tokens@.len() == old(self).tokens@.len()
                    &&& has_edge(final(self).owner_index@, recipient@, token_id@)
                    &&& (recipient@ != token_at(old(self).tokens@, token_id@).info.owner@
                        ==> !has_edge(
                        final(self).owner_index@,
                        token_at(old(self).tokens@, token_id@).info.owner@,
                        token_id@,
                    ))
                    &&& forall|o: Seq<char>, id: Seq<char>|
                        id != token_id@ ==> #[trigger] has_edge(final(self).owner_index@, o, id)
                            == has_edge(old(self).owner_index@, o, id)
                    &&& final(self).transfer_frame(old(self))
                },
                Err(e) => {
                    &&& *final(self) == *old(self)
                    &&& (!has_token(old(self).tokens@, token_id@) || recipient@.len() == 0 || !old(
                        self,
                    ).can_send(sender@, token_at(old(self).tokens@, token_id@), block))
                    &&& e == (if !has_token(old(self).tokens@, token_id@) {
                        ContractError::NotFound
                    } else if recipient@.len() == 0 {
                        ContractError::InvalidInput
                    } else {
                        ContractError::Unauthorized
                    })
                },
            },
    {
        let idx = match self.find_token(token_id) {
            Some(i) => i,
            None => {
                return Err(ContractError::NotFound);
            },
        };
        proof {
            lemma_token_index_unique(self.tokens@, idx as int);
        }
        if recipient.as_str().unicode_len() == 0 {
            return Err(ContractError::InvalidInput);
        }
        if !self.check_can_send(sender, idx, block) {
            return Err(ContractError::Unauthorized);
        }
        let old_owner = self.tokens[idx].info.owner.clone();
        let eidx = match self.find_edge(&old_owner, token_id) {
            Some(k) => k,
            None => {
                proof {
                    assert(has_edge(self.owner_index@, old_owner@, token_id@));
                }
                return vstd::pervasive::unreached();
            },
        };
        let ghost pre_tokens = self.tokens@;
        let ghost pre_index = self.owner_index@;
        let mut entry = self.tokens.remove(idx);
        entry.info.owner = recipient;
        entry.info.approvals = Vec::new();
        let ghost new_entry = entry;
        self.tokens.insert(idx, entry);
        proof {
            assert(self.tokens@ =~= pre_tokens.update(idx as int, new_entry));
            lemma_token_update(pre_tokens, idx as int, new_entry);
        }
        let removed = self.owner_index.remove(eidx);
        proof {
            lemma_edge_remove(pre_index, eidx as int);
            assert(self.owner_index@ == pre_index.remove(eidx as int));
        }
        let ghost mid_index = self.owner_index@;
        let npos = self.edge_insert_pos(&self.tokens[idx].info.owner, token_id);
        let new_edge = OwnerEdge {
            owner: self.tokens[idx].info.owner.clone(),
            token_id: token_id.clone(),
        };
        proof {
            // the target edge is absent from the trimmed index, so the
            // insertion slot's neighbours are strictly ordered around it
            assert(!has_edge(mid_index, new_edge.owner@, new_edge.token_id@)) by {
                if has_edge(mid_index, new_edge.owner@, new_edge.token_id@) {
                    if !(new_edge.owner@ == pre_index[eidx as int].owner@ && new_edge.token_id@
                        == pre_index[eidx as int].token_id@) {
                        assert(has_edge(pre_index, new_edge.owner@, token_id@));
                        let k = choose|k: int|
                            0 <= k < pre_index.len() && pre_index[k].owner@ == new_edge.owner@
                                && pre_index[k].token_id@ == token_id@;
                        assert(token_at(pre_tokens, token_id@).info.owner@ == pre_index[k].owner@);
                    }
                }
            }
            assert forall|j: int| npos <= j < mid_index.len() implies pair_lt(
                new_edge.owner@,
                new_edge.token_id@,
                #[trigger] mid_index[j].owner@,
                mid_index[j].token_id@,
            ) by {
                if !pair_lt(
                    new_edge.owner@,
                    new_edge.token_id@,
                    mid_index[j].owner@,
                    mid_index[j].token_id@,
                ) {
                    lemma_pair_lt_connected(
                        mid_index[j].owner@,
                        mid_index[j].token_id@,
                        new_edge.owner@,
                        new_edge.token_id@,
                    );
                }
            }
            lemma_edge_insert(mid_index, npos as int, new_edge);
        }
        self.owner_index.insert(npos, new_edge);
        proof {
            assert(self.owner_index@ == mid_index.insert(npos as int, new_edge));
            let toks = self.tokens@;
            assert forall|i: int| 0 <= i < toks.len() implies entry_valid(#[trigger] toks[i]) by {
                if i != idx {
                    assert(toks[i] == pre_tokens[i]);
                } else {
                    assert(toks[i] == new_entry);
                }
            }
            // every edge still names a stored token of its owner
            assert forall|k: int| 0 <= k < self.owner_index@.len() implies has_token(
                toks,
                (#[trigger] self.owner_index@[k]).token_id@,
            ) && token_at(toks, self.owner_index@[k].token_id@).info.owner@
                == self.owner_index@[k].owner@ by {
                let e2 = self.owner_index@[k];
                if k != npos {
                    assert(e2 == if k < npos {
                        mid_index[k]
                    } else {
                        mid_index[k - 1]
                    });
                    assert(has_edge(mid_index, e2.owner@, e2.token_id@)) by {
                        if k < npos {
                            assert(mid_index[k] == e2);
                        } else {
                            assert(mid_index[k - 1] == e2);
                        }
                    }
                    assert(e2.token_id@ != token_id@) by {
                        if e2.token_id@ == token_id@ {
                            assert(token_at(pre_tokens, token_id@).info.owner@ == e2.owner@);
                            assert(e2.owner@ == old_owner@);
                            assert(!has_edge(mid_index, old_owner@, token_id@));
                        }
                    }
                    assert(has_token(pre_tokens, e2.token_id@));
                } else {
                    assert(e2 == new_edge);
                    assert(token_at(toks, token_id@) == new_entry);
                }
            }
            // every stored token still has its edge
            assert forall|i: int| 0 <= i < toks.len() implies has_edge(
                self.owner_index@,
                (#[trigger] toks[i]).info.owner@,
                toks[i].token_id@,
            ) by {
                if i != idx {
                    let t2 = toks[i];
                    assert(t2 == pre_tokens[i]);
                    lemma_token_index_unique(pre_tokens, i);
                    assert(t2.token_id@ != token_id@);
                    assert(has_edge(pre_index, t2.info.owner@, t2.token_id@));
                    assert(!(t2.info.owner@ == pre_index[eidx as int].owner@ && t2.token_id@
                        == pre_index[eidx as int].token_id@));
                    assert(has_edge(mid_index, t2.info.owner@, t2.token_id@));
                } else {
                    assert(toks[i] == new_entry);
                    assert(has_edge(self.owner_index@, new_edge.owner@, new_edge.token_id@));
                }
            }
            assert(has_edge(self.owner_index@, recipient@, token_id@));
            if recipient@ != pre_tokens[idx as int].info.owner@ {
                assert(!has_edge(self.owner_index@, old_owner@, token_id@));
            }
        }
        Ok(())
    }

    /// Everything an approval-list operation leaves untouched.
    pub open spec fn approval_frame(&self, pre: &LedgerState) -> bool {
        &&& self.owner_index == pre.owner_index
        &&& self.operators == pre.operators
        &&& self.collection_info == pre.collection_info
        &&& self.minter == pre.minter
        &&& self.creator == pre.creator
        &&& self.withdraw_address == pre.withdraw_address
        &&& self.expiration_days == pre.expiration_days
        &&& self.token_count == pre.token_count
        &&& self.tokens@.len() == pre.tokens@.len()
    }

    /// Grants the spender an approval on the token, replacing any earlier
    /// approval of the same spender. Only the token's owner may grant one. An
    /// absent expiration means "never"; one already in the past is accepted
    /// at write time and merely reads as inactive.
    pub fn approve(
        &mut self,
        sender: &String,
        spender: String,
        token_id: &String,
        expires: Option<Expiration>,
        block: &BlockInfo,
    ) -> (r: Result<(), ContractError>)
        requires
            old(self).wf(),
        ensures
            final(self).wf(),
            match r {
                Ok(()) => {
                    &&& has_token(old(self).tokens@, token_id@)
                    &&& token_at(old(self).tokens@, token_id@).info.owner@ == sender@
                    &&& has_token(final(self).tokens@, token_id@)
                    &&& token_at(final(self).tokens@, token_id@).info.approvals@
                        == approvals_without(
                        token_at(old(self).tokens@, token_id@).info.approvals@,
                        spender@,
                    ).push(
                        Approval {
                            spender,
                            expires: match expires {
                                Some(x) => x,
                                None => Expiration::Never,
                            },
                        },
                    )
                    &&& token_at(final(self).tokens@, token_id@).token_id == token_at(
                        old(self).tokens@,
                        token_id@,
                    ).token_id
                    &&& token_at(final(self).tokens@, token_id@).mint_time == token_at(
                        old(self).tokens@,
                        token_id@,
                    ).mint_time
                    &&& token_at(final(self).tokens@, token_id@).info.owner == token_at(
                        old(self).tokens@,
                        token_id@,
                    ).info.owner
                    &&& token_at(final(self).tokens@, token_id@).info.token_uri == token_at(
                        old(self).tokens@,
                        token_id@,
                    ).info.token_uri
                    &&& token_at(final(self).tokens@, token_id@).info.extension == token_at(
                        old(self).tokens@,
                        token_id@,
                    ).info.extension
                    &&& forall|id: Seq<char>|
                        id != token_id@ ==> #[trigger] has_token(final(self).tokens@, id)
                            == has_token(old(self).tokens@, id)
                    &&& forall|id: Seq<char>|
                        id != token_id@ && has_token(old(self).tokens@, id) ==> #[trigger] token_at(
                            final(self).tokens@,
                            id,
                        ) == token_at(old(self).tokens@, id)
                    &&& final(self).approval_frame(old(self))
                },
                Err(e) => {
                    &&& *final(self) == *old(self)
                    &&& (!has_token(old(self).tokens@, token_id@) || token_at(
                        old(self).tokens@,
                        token_id@,
                    ).info.owner@ != sender@)
                    &&& e == (if !has_token(old(self).tokens@, token_id@) {
                        ContractError::NotFound
                    } else {
                        ContractError::Unauthorized
                    })
                },
            },
    {
        let idx = match self.find_token(token_id) {
            Some(i) => i,
            None => {
                return Err(ContractError::NotFound);
            },
        };
        proof {
            lemma_token_index_unique(self.tokens@, idx as int);
        }
        if !(self.tokens[idx].info.owner == *sender) {
            return Err(ContractError::Unauthorized);
        }
        let exp = match expires {
            Some(x) => x,
            None => Expiration::Never,
        };
        let ghost pre_tokens = self.tokens@;
        let mut entry = self.tokens.remove(idx);
        let ghost old_apprs = entry.info.approvals@;
        let mut new_apprs = remove_spender(&entry.info.approvals, &spender);
        proof {
            lemma_approvals_without(old_apprs, spender@);
        }
        new_apprs.push(Approval { spender, expires: exp });
        entry.info.approvals = new_apprs;
        let ghost new_entry = entry;
        self.tokens.insert(idx, entry);
        proof {
            assert(self.tokens@ =~= pre_tokens.update(idx as int, new_entry));
            lemma_token_update(pre_tokens, idx as int, new_entry);
            let w = approvals_without(old_apprs, spender@);
            assert forall|i: int, j: int|
                0 <= i < j < new_entry.info.approvals@.len() implies (#[trigger] new_entry.info.approvals@[i].spender@)
                != (#[trigger] new_entry.info.approvals@[j].spender@) by {
                if j < w.len() {
                    assert(new_entry.info.approvals@[i] == w[i]);
                    assert(new_entry.info.approvals@[j] == w[j]);
                } else {
                    assert(new_entry.info.approvals@[i] == w[i]);
                    assert(w[i].spender@ != spender@);
                }
            }
            assert(entry_valid(new_entry));
            assert forall|i: int| 0 <= i < self.tokens@.len() implies entry_valid(
                #[trigger] self.tokens@[i],
            ) by {
                if i != idx {
                    assert(self.tokens@[i] == pre_tokens[i]);
                } else {
                    assert(self.tokens@[i] == new_entry);
                }
            }
            assert forall|k: int| 0 <= k < self.owner_index@.len() implies has_token(
                self.tokens@,
                (#[trigger] self.owner_index@[k]).token_id@,
            ) && token_at(self.tokens@, self.owner_index@[k].token_id@).info.owner@
                == self.owner_index@[k].owner@ by {
                let e2 = self.owner_index@[k];
                if e2.token_id@ == token_id@ {
                    assert(token_at(self.tokens@, token_id@) == new_entry);
                    assert(token_at(pre_tokens, token_id@).info.owner@ == e2.owner@);
                } else {
                    assert(token_at(self.tokens@, e2.token_id@) == token_at(
                        pre_tokens,
                        e2.token_id@,
                    ));
                }
            }
            assert forall|i: int| 0 <= i < self.tokens@.len() implies has_edge(
                self.owner_index@,
                (#[trigger] self.tokens@[i]).info.owner@,
                self.tokens@[i].token_id@,
            ) by {
                if i != idx {
                    assert(self.tokens@[i] == pre_tokens[i]);
                } else {
                    assert(self.tokens@[i] == new_entry);
                    assert(new_entry.info.owner@ == pre_tokens[i].info.owner@);
                    assert(new_entry.token_id@ == pre_tokens[i].token_id@);
                }
            }
        }
        Ok(())
    }

    /// Removes the spender's approval from the token if one exists; revoking
    /// an absent approval is a no-op. Only the token's owner may revoke.
    pub fn revoke(
        &mut self,
        sender: &String,
        spender: &String,
        token_id: &String,
        block: &BlockInfo,
    ) -> (r: Result<(), ContractError>)
        requires
            old(self).wf(),
        ensures
            final(self).wf(),
            match r {
                Ok(()) => {
                    &&& has_token(old(self).tokens@, token_id@)
                    &&& token_at(old(self).tokens@, token_id@).info.owner@ == sender@
                    &&& has_token(final(self).tokens@, token_id@)
                    &&& token_at(final(self).tokens@, token_id@).info.approvals@
                        == approvals_without(
                        token_at(old(self).tokens@, token_id@).info.approvals@,
                        spender@,
                    )
                    &&& token_at(final(self).tokens@, token_id@).token_id == token_at(
                        old(self).tokens@,
                        token_id@,
                    ).token_id
                    &&& token_at(final(self).tokens@, token_id@).mint_time == token_at(
                        old(self).tokens@,
                        token_id@,
                    ).mint_time
                    &&& token_at(final(self).tokens@, token_id@).info.owner == token_at(
                        old(self).tokens@,
                        token_id@,
                    ).info.owner
                    &&& token_at(final(self).tokens@, token_id@).info.token_uri == token_at(
                        old(self).tokens@,
                        token_id@,
                    ).info.token_uri
                    &&& token_at(final(self).tokens@, token_id@).info.extension == token_at(
                        old(self).tokens@,
                        token_id@,
                    ).info.extension
                    &&& forall|id: Seq<char>|
                        id != token_id@ ==> #[trigger] has_token(final(self).tokens@, id)
                            == has_token(old(self).tokens@, id)
                    &&& forall|id: Seq<char>|
                        id != token_id@ && has_token(old(self).tokens@, id) ==> #[trigger] token_at(
                            final(self).tokens@,
                            id,
                        ) == token_at(old(self).tokens@, id)
                    &&& final(self).approval_frame(old(self))
                },
                Err(e) => {
                    &&& *final(self) == *old(self)
                    &&& (!has_token(old(self).tokens@, token_id@) || token_at(
                        old(self).tokens@,
                        token_id@,
                    ).info.owner@ != sender@)
                    &&& e == (if !has_token(old(self).tokens@, token_id@) {
                        ContractError::NotFound
                    } else {
                        ContractError::Unauthorized
                    })
                },
            },
    {
        let idx = match self.find_token(token_id) {
            Some(i) => i,
            None => {
                return Err(ContractError::NotFound);
            },
        };
        proof {
            lemma_token_index_unique(self.tokens@, idx as int);
        }
        if !(self.tokens[idx].info.owner == *sender) {
            return Err(ContractError::Unauthorized);
        }
        let ghost pre_tokens = self.tokens@;
        let mut entry = self.tokens.remove(idx);
        let ghost old_apprs = entry.info.approvals@;
        let new_apprs = remove_spender(&entry.info.approvals, spender);
        proof {
            lemma_approvals_without(old_apprs, spender@);
        }
        entry.info.approvals = new_apprs;
        let ghost new_entry = entry;
        self.tokens.insert(idx, entry);
        proof {
            assert(self.tokens@ =~= pre_tokens.update(idx as int, new_entry));
            lemma_token_update(pre_tokens, idx as int, new_entry);
            assert(entry_valid(new_entry));
            assert forall|i: int| 0 <= i < self.tokens@.len() implies entry_valid(
                #[trigger] self.tokens@[i],
            ) by {
                if i != idx {
                    assert(self.tokens@[i] == pre_tokens[i]);
                } else {
                    assert(self.tokens@[i] == new_entry);
                }
            }
            assert forall|k: int| 0 <= k < self.owner_index@.len() implies has_token(
                self.tokens@,
                (#[trigger] self.owner_index@[k]).token_id@,
            ) && token_at(self.tokens@, self.owner_index@[k].token_id@).info.owner@
                == self.owner_index@[k].owner@ by {
                let e2 = self.owner_index@[k];
                if e2.token_id@ == token_id@ {
                    assert(token_at(self.tokens@, token_id@) == new_entry);
                    assert(token_at(pre_tokens, token_id@).info.owner@ == e2.owner@);
                } else {
                    assert(token_at(self.tokens@, e2.token_id@) == token_at(
                        pre_tokens,
                        e2.token_id@,
                    ));
                }
            }
            assert forall|i: int| 0 <= i < self.tokens@.len() implies has_edge(
                self.owner_index@,
                (#[trigger] self.tokens@[i]).info.owner@,
                self.tokens@[i].token_id@,
            ) by {
                if i != idx {
                    assert(self.tokens@[i] == pre_tokens[i]);
                } else {
                    assert(self.tokens@[i] == new_entry);
                    assert(new_entry.info.owner@ == pre_tokens[i].info.owner@);
                    assert(new_entry.token_id@ == pre_tokens[i].token_id@);
                }
            }
        }
        Ok(())
    }

    /// Everything an operator-grant operation leaves untouched.
    pub open spec fn operator_frame(&self, pre: &LedgerState) -> bool {
        &&& self.tokens == pre.tokens
        &&& self.owner_index == pre.owner_index
        &&& self.collection_info == pre.collection_info
        &&& self.minter == pre.minter
        &&& self.creator == pre.creator
        &&& self.withdraw_address == pre.withdraw_address
        &&& self.expiration_days == pre.expiration_days
        &&& self.token_count == pre.token_count
    }

    /// Grants the operator a blanket approval over every token of the caller,
    /// replacing any earlier grant; an absent expiration means "never".
    pub fn approve_all(
        &mut self,
        sender: &String,
        operator: String,
        expires: Option<Expiration>,
        block: &BlockInfo,
    ) -> (r: Result<(), ContractError>)
        requires
            old(self).wf(),
        ensures
            final(self).wf(),
            r is Ok,
            has_grant(final(self).operators@, sender@, operator@),
            grant_at(final(self).operators@, sender@, operator@).owner@ == sender@,
            grant_at(final(self).operators@, sender@, operator@).operator@ == operator@,
            grant_at(final(self).operators@, sender@, operator@).expires == (match expires {
                Some(x) => x,
                None => Expiration::Never,
            }),
            forall|o: Seq<char>, p: Seq<char>|
                !(o == sender@ && p == operator@) ==> #[trigger] has_grant(
                    final(self).operators@,
                    o,
                    p,
                ) == has_grant(old(self).operators@, o, p),
            forall|o: Seq<char>, p: Seq<char>|
                !(o == sender@ && p == operator@) && has_grant(old(self).operators@, o, p)
                    ==> #[trigger] grant_at(final(self).operators@, o, p) == grant_at(
                    old(self).operators@,
                    o,
                    p,
                ),
            final(self).operator_frame(old(self)),
    {
        let exp = match expires {
            Some(x) => x,
            None => Expiration::Never,
        };
        let ghost pre = self.operators@;
        match self.find_grant(sender, &operator) {
            Some(k) => {
                proof {
                    lemma_grant_index_unique(self.operators@, k as int);
                    lemma_grant_remove(self.operators@, k as int);
                }
                self.operators.remove(k);
            },
            None => {},
        }
        let ghost mid = self.operators@;
        let pos = self.grant_insert_pos(sender, &operator);
        let g = OperatorGrant { owner: sender.clone(), operator, expires: exp };
        proof {
            assert(!has_grant(mid, g.owner@, g.operator@));
            assert forall|j: int| pos <= j < mid.len() implies pair_lt(
                g.owner@,
                g.operator@,
                #[trigger] mid[j].owner@,
                mid[j].operator@,
            ) by {
                if !pair_lt(g.owner@, g.operator@, mid[j].owner@, mid[j].operator@) {
                    lemma_pair_lt_connected(
                        mid[j].owner@,
                        mid[j].operator@,
                        g.owner@,
                        g.operator@,
                    );
                    assert(has_grant(mid, g.owner@, g.operator@));
                }
            }
            lemma_grant_insert(mid, pos as int, g);
        }
        self.operators.insert(pos, g);
        proof {
            assert(self.operators@ == mid.insert(pos as int, g));
            assert forall|o: Seq<char>, p: Seq<char>| !(o == sender@ && p == operator@) implies
            #[trigger] has_grant(self.operators@, o, p) == has_grant(pre, o, p) by {}
        }
        Ok(())
    }

    /// Withdraws the operator's blanket grant over the caller's tokens;
    /// revoking an absent grant is a no-op.
    pub fn revoke_all(&mut self, sender: &String, operator: &String, block: &BlockInfo) -> (r:
        Result<(), ContractError>)
        requires
            old(self).wf(),
        ensures
            final(self).wf(),
            r is Ok,
            !has_grant(final(self).operators@, sender@, operator@),
            forall|o: Seq<char>, p: Seq<char>|
                !(o == sender@ && p == operator@) ==> #[trigger] has_grant(
                    final(self).operators@,
                    o,
                    p,
                ) == has_grant(old(self).operators@, o, p),
            forall|o: Seq<char>, p: Seq<char>|
                !(o == sender@ && p == operator@) && has_grant(old(self).operators@, o, p)
                    ==> #[trigger] grant_at(final(self).operators@, o, p) == grant_at(
                    old(self).operators@,
                    o,
                    p,
                ),
            final(self).operator_frame(old(self)),
    {
        match self.find_grant(sender, operator) {
            Some(k) => {
                proof {
                    lemma_grant_index_unique(self.operators@, k as int);
                    lemma_grant_remove(self.operators@, k as int);
                }
                self.operators.remove(k);
            },
            None => {},
        }
        Ok(())
    }

    /// Everything outside one ownership role and the token stores.
    pub open spec fn ownership_frame(&self, pre: &LedgerState) -> bool {
        &&& self.tokens == pre.tokens
        &&& self.owner_index == pre.owner_index
        &&& self.operators == pre.operators
        &&& self.collection_info == pre.collection_info
        &&& self.withdraw_address == pre.withdraw_address
        &&& self.expiration_days == pre.expiration_days
        &&& self.token_count == pre.token_count
    }

    /// Moves the minter role along its two-phase transfer protocol.
    pub fn update_minter_ownership(
        &mut self,
        sender: &String,
        action: OwnershipAction,
        block: &BlockInfo,
    ) -> (r: Result<(), ContractError>)
        requires
            old(self).wf(),
        ensures
            final(self).wf(),
            final(self).ownership_frame(old(self)),
            final(self).creator == old(self).creator,
            match r {
                Ok(()) => transition_result(&old(self).minter, sender@, &action, block) is Ok
                    && final(self).minter == transition_result(
                    &old(self).minter,
                    sender@,
                    &action,
                    block,
                )->Ok_0,
                Err(e) => transition_result(&old(self).minter, sender@, &action, block) == Err::<
                    OwnershipState,
                    ContractError,
                >(e) && *final(self) == *old(self),
            },
    {
        apply_ownership_action(&mut self.minter, sender, action, block)
    }

    /// Moves the creator role along its two-phase transfer protocol.
    pub fn update_creator_ownership(
        &mut self,
        sender: &String,
        action: OwnershipAction,
        block: &BlockInfo,
    ) -> (r: Result<(), ContractError>)
        requires
            old(self).wf(),
        ensures
            final(self).wf(),
            final(self).ownership_frame(old(self)),
            final(self).minter == old(self).minter,
            match r {
                Ok(()) => transition_result(&old(self).creator, sender@, &action, block) is Ok
                    && final(self).creator == transition_result(
                    &old(self).creator,
                    sender@,
                    &action,
                    block,
                )->Ok_0,
                Err(e) => transition_result(&old(self).creator, sender@, &action, block) == Err::<
                    OwnershipState,
                    ContractError,
                >(e) && *final(self) == *old(self),
            },
    {
        apply_ownership_action(&mut self.creator, sender, action, block)
    }

    /// Updates the collection extension: the caller must hold the creator
    /// role; the stored extension and the partial message go through the
    /// metadata engine, and on success the merged extension replaces the
    /// stored one and the update timestamp is refreshed. A rejected update
    /// leaves the store untouched.
    pub fn update_collection_info(
        &mut self,
        sender: &String,
        msg: &CollectionInfoExtensionMsg,
        block: &BlockInfo,
    ) -> (r: Result<(), ContractError>)
        requires
            old(self).wf(),
        ensures
            final(self).wf(),
            match r {
                Ok(()) => {
                    &&& old(self).creator.is_held_by(sender@)
                    &&& old(self).collection_info.extension.update_result(msg) is Ok
                    &&& final(self).collection_info.extension == old(
                        self,
                    ).collection_info.extension.update_result(msg)->Ok_0
                    &&& final(self).collection_info.updated_at == block.time
                    &&& final(self).collection_info.name == old(self).collection_info.name
                    &&& final(self).collection_info.symbol == old(self).collection_info.symbol
                    &&& final(self).tokens == old(self).tokens
                    &&& final(self).owner_index == old(self).owner_index
                    &&& final(self).operators == old(self).operators
                    &&& final(self).minter == old(self).minter
                    &&& final(self).creator == old(self).creator
                    &&& final(self).withdraw_address == old(self).withdraw_address
                    &&& final(self).expiration_days == old(self).expiration_days
                    &&& final(self).token_count == old(self).token_count
                },
                Err(e) => {
                    &&& *final(self) == *old(self)
                    &&& e == (if !old(self).creator.is_held_by(sender@) {
                        ContractError::Unauthorized
                    } else {
                        old(self).collection_info.extension.update_result(msg)->Err_0
                    })
                    &&& (!old(self).creator.is_held_by(sender@) || old(
                        self,
                    ).collection_info.extension.update_result(msg) is Err)
                },
            },
    {
        if !self.creator.held_by(sender) {
            return Err(ContractError::Unauthorized);
        }
        let updated = self.collection_info.extension.update(msg)?;
        self.collection_info.extension = updated;
        self.collection_info.updated_at = block.time;
        Ok(())
    }

    /// Sets the withdraw-address singleton; the caller must hold the creator
    /// role and the address must be a non-empty identity.
    pub fn set_withdraw_address(&mut self, sender: &String, address: String) -> (r: Result<
        (),
        ContractError,
    >)
        requires
            old(self).wf(),
        ensures
            final(self).wf(),
            match r {
                Ok(()) => {
                    &&& old(self).creator.is_held_by(sender@)
                    &&& address@.len() > 0
                    &&& final(self).withdraw_address == Some(address)
                    &&& final(self).ownership_frame_except_withdraw(old(self))
                },
                Err(e) => {
                    &&& *final(self) == *old(self)
                    &&& (!old(self).creator.is_held_by(sender@) || address@.len() == 0)
                    &&& e == (if !old(self).creator.is_held_by(sender@) {
                        ContractError::Unauthorized
                    } else {
                        ContractError::InvalidInput
                    })
                },
            },
    {
        if !self.creator.held_by(sender) {
            return Err(ContractError::Unauthorized);
        }
        if address.as_str().unicode_len() == 0 {
            return Err(ContractError::InvalidInput);
        }
        self.withdraw_address = Some(address);
        Ok(())
    }

    /// Everything a withdraw-address change leaves untouched.
    pub open spec fn ownership_frame_except_withdraw(&self, pre: &LedgerState) -> bool {
        &&& self.tokens == pre.tokens
        &&& self.owner_index == pre.owner_index
        &&& self.operators == pre.operators
        &&& self.collection_info == pre.collection_info
        &&& self.minter == pre.minter
        &&& self.creator == pre.creator
        &&& self.expiration_days == pre.expiration_days
        &&& self.token_count == pre.token_count
    }

    /// Clears the withdraw-address singleton; the caller must hold the
    /// creator role. Clearing an absent address is a no-op.
    pub fn remove_withdraw_address(&mut self, sender: &String) -> (r: Result<(), ContractError>)
        requires
            old(self).wf(),
        ensures
            final(self).wf(),
            match r {
                Ok(()) => {
                    &&& old(self).creator.is_held_by(sender@)
                    &&& final(self).withdraw_address is None
                    &&& final(self).ownership_frame_except_withdraw(old(self))
                },
                Err(e) => {
                    &&& *final(self) == *old(self)
                    &&& !old(self).creator.is_held_by(sender@)
                    &&& e == ContractError::Unauthorized
                },
            },
    {
        if !self.creator.held_by(sender) {
            return Err(ContractError::Unauthorized);
        }
        self.withdraw_address = None;
        Ok(())
    }

    /// Burns a token: the caller must be its owner or hold an unexpired
    /// approval or operator grant. The record and its index edge are removed
    /// and the token count falls by one.
    pub fn burn(&mut self, sender: &String, token_id: &String, block: &BlockInfo) -> (r: Result<
        (),
        ContractError,
    >)
        requires
            old(self).wf(),
        ensures
            final(self).wf(),
            match r {
                Ok(()) => {
                    &&& has_token(old(self).tokens@, token_id@)
                    &&& old(self).can_send(sender@, token_at(old(self).tokens@, token_id@), block)
                    &&& !has_token(final(self).tokens@, token_id@)
                    &&& forall|id: Seq<char>|
                        id != token_id@ ==> #[trigger] has_token(final(self).tokens@, id)
                            == has_token(old(self).tokens@, id)
                    &&& forall|id: Seq<char>|
                        id != token_id@ && has_token(old(self).tokens@, id) ==> #[trigger] token_at(
                            final(self).tokens@,
                            id,
                        ) == token_at(old(self).tokens@, id)
                    &&& final(self).tokens@.len() + 1 == old(self).tokens@.len()
                    &&& final(self).token_count + 1 == old(self).token_count
                    &&& !has_edge(
                        final(self).owner_index@,
                        token_at(old(self).tokens@, token_id@).info.owner@,
                        token_id@,
                    )
                    &&& forall|o: Seq<char>, id: Seq<char>|
                        id != token_id@ ==> #[trigger] has_edge(final(self).owner_index@, o, id)
                            == has_edge(old(self).owner_index@, o, id)
                    &&& final(self).mint_frame(old(self))
                },
                Err(e) => {
                    &&& *final(self) == *old(self)
                    &&& (!has_token(old(self).tokens@, token_id@) || !old(self).can_send(
                        sender@,
                        token_at(old(self).tokens@, token_id@),
                        block,
                    ))
                    &&& e == (if !has_token(old(self).tokens@, token_id@) {
                        ContractError::NotFound
                    } else {
                        ContractError::Unauthorized
                    })
                },
            },
    {
        let idx = match self.find_token(token_id) {
            Some(i) => i,
            None => {
                return Err(ContractError::NotFound);
            },
        };
        proof {
            lemma_token_index_unique(self.tokens@, idx as int);
        }
        if !self.check_can_send(sender, idx, block) {
            return Err(ContractError::Unauthorized);
        }
        let eidx = match self.find_edge(&self.tokens[idx].info.owner, token_id) {
            Some(k) => k,
            None => {
                proof {
                    assert(has_edge(
                        self.owner_index@,
                        self.tokens@[idx as int].info.owner@,
                        token_id@,
                    ));
                }
                return vstd::pervasive::unreached();
            },
        };
        let ghost pre_tokens = self.tokens@;
        let ghost pre_index = self.owner_index@;
        let removed_entry = self.tokens.remove(idx);
        let removed_edge = self.owner_index.remove(eidx);
        self.token_count = self.tokens.len() as u64;
        proof {
            lemma_token_remove(pre_tokens, idx as int);
            lemma_edge_remove(pre_index, eidx as int);
            assert(self.tokens@ == pre_tokens.remove(idx as int));
            assert(self.owner_index@ == pre_index.remove(eidx as int));
            let toks = self.tokens@;
            assert forall|i: int| 0 <= i < toks.len() implies entry_valid(#[trigger] toks[i]) by {
                assert(toks[i] == if i < idx {
                    pre_tokens[i]
                } else {
                    pre_tokens[i + 1]
                });
            }
            assert forall|k: int| 0 <= k < self.owner_index@.len() implies has_token(
                toks,
                (#[trigger] self.owner_index@[k]).token_id@,
            ) && token_at(toks, self.owner_index@[k].token_id@).info.owner@
                == self.owner_index@[k].owner@ by {
                let e2 = self.owner_index@[k];
                assert(e2 == if k < eidx {
                    pre_index[k]
                } else {
                    pre_index[k + 1]
                });
                assert(has_edge(pre_index, e2.owner@, e2.token_id@)) by {
                    if k < eidx {
                        assert(pre_index[k] == e2);
                    } else {
                        assert(pre_index[k + 1] == e2);
                    }
                }
                assert(e2.token_id@ != token_id@) by {
                    if e2.token_id@ == token_id@ {
                        assert(token_at(pre_tokens, token_id@).info.owner@ == e2.owner@);
                        assert(has_edge(self.owner_index@, e2.owner@, e2.token_id@)) by {
                            if k < eidx {
                                assert(self.owner_index@[k] == e2);
                            } else {
                                assert(self.owner_index@[k] == e2);
                            }
                        }
                        assert(!has_edge(
                            self.owner_index@,
                            pre_index[eidx as int].owner@,
                            pre_index[eidx as int].token_id@,
                        ));
                    }
                }
            }
            assert forall|i: int| 0 <= i < toks.len() implies has_edge(
                self.owner_index@,
                (#[trigger] toks[i]).info.owner@,
                toks[i].token_id@,
            ) by {
                let t2 = toks[i];
                assert(t2 == if i < idx {
                    pre_tokens[i]
                } else {
                    pre_tokens[i + 1]
                });
                assert(has_token(pre_tokens, t2.token_id@) && has_edge(
                    pre_index,
                    t2.info.owner@,
                    t2.token_id@,
                )) by {
                    if i < idx {
                        assert(pre_tokens[i] == t2);
                    } else {
                        assert(pre_tokens[i + 1] == t2);
                    }
                }
                assert(t2.token_id@ != token_id@) by {
                    lemma_token_remove(pre_tokens, idx as int);
                    if t2.token_id@ == token_id@ {
                        assert(has_token(toks, token_id@)) by {
                            assert(toks[i] == t2);
                        }
                    }
                }
            }
        }
        Ok(())
    }
}

} // verus!
