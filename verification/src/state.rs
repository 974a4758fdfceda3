//! The indexed ledger store: a primary map from token id to token record kept
//! as a vector sorted by id, a derived owner index sorted by (owner, id), the
//! operator grants sorted by (owner, operator), the scalar token count and the
//! singleton records. Every operation keeps the index in exact sync with the
//! primary map.

use vstd::prelude::*;
use crate::order::{
    lemma_lex_lt_connected,
    lemma_lex_lt_irreflexive,
    lemma_lex_lt_transitive,
    lemma_pair_lt_connected,
    lemma_pair_lt_irreflexive,
    lemma_pair_lt_transitive,
    lex_lt,
    pair_lt,
    str_lt,
    str_pair_lt,
};
use crate::types::{
    Approval,
    BlockInfo,
    CollectionInfo,
    OperatorGrant,
    OwnerEdge,
    OwnershipState,
    TokenEntry,
};

verus! {

/// Nanoseconds in one day.
pub const DAY_NS: u64 = 86_400_000_000_000;

// ---------------------------------------------------------------------------
// The primary map: token entries sorted strictly by token id.
// ---------------------------------------------------------------------------

pub open spec fn sorted_tokens(s: Seq<TokenEntry>) -> bool {
    forall|i: int, j: int|
        0 <= i < j < s.len() ==> lex_lt(#[trigger] s[i].token_id@, #[trigger] s[j].token_id@)
}

pub open spec fn has_token(s: Seq<TokenEntry>, id: Seq<char>) -> bool {
    exists|i: int| 0 <= i < s.len() && #[trigger] s[i].token_id@ == id
}

pub open spec fn token_index(s: Seq<TokenEntry>, id: Seq<char>) -> int {
    choose|i: int| 0 <= i < s.len() && #[trigger] s[i].token_id@ == id
}

/// The entry that holds the given id; meaningful when `has_token`.
pub open spec fn token_at(s: Seq<TokenEntry>, id: Seq<char>) -> TokenEntry {
    s[token_index(s, id)]
}

/// In a strictly sorted sequence an id names at most one slot.
pub proof fn lemma_token_index_unique(s: Seq<TokenEntry>, i: int)
    requires
        sorted_tokens(s),
        0 <= i < s.len(),
    ensures
        token_index(s, s[i].token_id@) == i,
        token_at(s, s[i].token_id@) == s[i],
        has_token(s, s[i].token_id@),
{
    let id = s[i].token_id@;
    assert(has_token(s, id));
    let k = token_index(s, id);
    if k < i {
        lemma_lex_lt_irreflexive(id);
        assert(lex_lt(s[k].token_id@, s[i].token_id@));
    } else if k > i {
        lemma_lex_lt_irreflexive(id);
        assert(lex_lt(s[i].token_id@, s[k].token_id@));
    }
}

/// Inserting an entry between its neighbours keeps the sequence sorted, adds
/// exactly that id, and leaves every other lookup unchanged.
pub proof fn lemma_token_insert(s: Seq<TokenEntry>, i: int, e: TokenEntry)
    requires
        sorted_tokens(s),
        0 <= i <= s.len(),
        forall|j: int| 0 <= j < i ==> lex_lt(#[trigger] s[j].token_id@, e.token_id@),
        forall|j: int| i <= j < s.len() ==> lex_lt(e.token_id@, #[trigger] s[j].token_id@),
    ensures
        sorted_tokens(s.insert(i, e)),
        has_token(s.insert(i, e), e.token_id@),
        token_at(s.insert(i, e), e.token_id@) == e,
        forall|id: Seq<char>|
            id != e.token_id@ ==> #[trigger] has_token(s.insert(i, e), id) == has_token(s, id),
        forall|id: Seq<char>|
            id != e.token_id@ && has_token(s, id) ==> #[trigger] token_at(s.insert(i, e), id)
                == token_at(s, id),
{
    let t = s.insert(i, e);
    assert forall|p: int, q: int| 0 <= p < q < t.len() implies lex_lt(
        #[trigger] t[p].token_id@,
        #[trigger] t[q].token_id@,
    ) by {
        if p < i && q > i {
            lemma_lex_lt_transitive(t[p].token_id@, e.token_id@, t[q].token_id@);
        }
    }
    assert(t[i] == e);
    lemma_token_index_unique(t, i);
    assert forall|id: Seq<char>| id != e.token_id@ implies #[trigger] has_token(t, id)
        == has_token(s, id) by {
        if has_token(t, id) {
            let k = token_index(t, id);
            lemma_token_index_unique(t, k);
            if k < i {
                lemma_token_index_unique(s, k);
                assert(s[k].token_id@ == id);
            } else {
                assert(t[k] == s[k - 1]);
                lemma_token_index_unique(s, k - 1);
            }
        }
        if has_token(s, id) {
            let k = token_index(s, id);
            if k < i {
                assert(t[k] == s[k]);
                assert(has_token(t, id));
            } else {
                assert(t[k + 1] == s[k]);
                assert(has_token(t, id));
            }
        }
    }
    assert forall|id: Seq<char>| id != e.token_id@ && has_token(s, id) implies #[trigger] token_at(
        t,
        id,
    ) == token_at(s, id) by {
        let k = token_index(s, id);
        lemma_token_index_unique(s, k);
        if k < i {
            assert(t[k] == s[k]);
            lemma_token_index_unique(t, k);
        } else {
            assert(t[k + 1] == s[k]);
            lemma_token_index_unique(t, k + 1);
        }
    }
}

/// Removing the slot that holds an id keeps the sequence sorted, removes that
/// id, and leaves every other lookup unchanged.
pub proof fn lemma_token_remove(s: Seq<TokenEntry>, i: int)
    requires
        sorted_tokens(s),
        0 <= i < s.len(),
    ensures
        sorted_tokens(s.remove(i)),
        !has_token(s.remove(i), s[i].token_id@),
        forall|id: Seq<char>|
            id != s[i].token_id@ ==> #[trigger] has_token(s.remove(i), id) == has_token(s, id),
        forall|id: Seq<char>|
            id != s[i].token_id@ && has_token(s, id) ==> #[trigger] token_at(s.remove(i), id)
                == token_at(s, id),
{
    let t = s.remove(i);
    assert forall|p: int, q: int| 0 <= p < q < t.len() implies lex_lt(
        #[trigger] t[p].token_id@,
        #[trigger] t[q].token_id@,
    ) by {
        assert(t[p] == if p < i {
            s[p]
        } else {
            s[p + 1]
        });
        assert(t[q] == if q < i {
            s[q]
        } else {
            s[q + 1]
        });
    }
    if has_token(t, s[i].token_id@) {
        let k = token_index(t, s[i].token_id@);
        lemma_lex_lt_irreflexive(s[i].token_id@);
        assert(t[k] == if k < i {
            s[k]
        } else {
            s[k + 1]
        });
    }
    assert forall|id: Seq<char>| id != s[i].token_id@ implies #[trigger] has_token(t, id)
        == has_token(s, id) by {
        if has_token(t, id) {
            let k = token_index(t, id);
            assert(t[k] == if k < i {
                s[k]
            } else {
                s[k + 1]
            });
            assert(has_token(s, id));
        }
        if has_token(s, id) {
            let k = token_index(s, id);
            assert(0 <= k < s.len() && s[k].token_id@ == id);
            assert(k != i);
            if k < i {
                assert(t[k] == s[k]);
            } else {
                assert(t[k - 1] == s[k]);
            }
            assert(has_token(t, id));
        }
    }
    assert forall|id: Seq<char>| id != s[i].token_id@ && has_token(s, id) implies #[trigger]
    token_at(t, id) == token_at(s, id) by {
        let k = token_index(s, id);
        lemma_token_index_unique(s, k);
        if k < i {
            assert(t[k] == s[k]);
            lemma_token_index_unique(t, k);
        } else {
            assert(t[k - 1] == s[k]);
            lemma_token_index_unique(t, k - 1);
        }
    }
}

/// Replacing the record in a slot, keeping its id, keeps the sequence sorted
/// and leaves every other lookup unchanged.
pub proof fn lemma_token_update(s: Seq<TokenEntry>, i: int, e: TokenEntry)
    requires
        sorted_tokens(s),
        0 <= i < s.len(),
        e.token_id@ == s[i].token_id@,
    ensures
        sorted_tokens(s.update(i, e)),
        has_token(s.update(i, e), e.token_id@),
        token_at(s.update(i, e), e.token_id@) == e,
        forall|id: Seq<char>|
            id != e.token_id@ ==> #[trigger] has_token(s.update(i, e), id) == has_token(s, id),
        forall|id: Seq<char>|
            id != e.token_id@ && has_token(s, id) ==> #[trigger] token_at(s.update(i, e), id)
                == token_at(s, id),
{
    let t = s.update(i, e);
    assert(sorted_tokens(t));
    lemma_token_index_unique(t, i);
    assert forall|id: Seq<char>| id != e.token_id@ implies #[trigger] has_token(t, id)
        == has_token(s, id) by {
        if has_token(t, id) {
            let k = token_index(t, id);
            assert(t[k] == s[k]);
            assert(has_token(s, id));
        }
        if has_token(s, id) {
            let k = token_index(s, id);
            lemma_token_index_unique(s, k);
            assert(t[k] == s[k]);
            assert(has_token(t, id));
        }
    }
    assert forall|id: Seq<char>| id != e.token_id@ && has_token(s, id) implies #[trigger] token_at(
        t,
        id,
    ) == token_at(s, id) by {
        let k = token_index(s, id);
        lemma_token_index_unique(s, k);
        assert(t[k] == s[k]);
        lemma_token_index_unique(t, k);
    }
}

// ---------------------------------------------------------------------------
// The derived owner index: edges sorted strictly by (owner, token id).
// ---------------------------------------------------------------------------

pub open spec fn sorted_edges(s: Seq<OwnerEdge>) -> bool {
    forall|i: int, j: int|
        0 <= i < j < s.len() ==> pair_lt(
            #[trigger] s[i].owner@,
            s[i].token_id@,
            #[trigger] s[j].owner@,
            s[j].token_id@,
        )
}

pub open spec fn has_edge(s: Seq<OwnerEdge>, owner: Seq<char>, id: Seq<char>) -> bool {
    exists|i: int|
        0 <= i < s.len() && #[trigger] s[i].owner@ == owner && #[trigger] s[i].token_id@ == id
}

/// Inserting an edge between its neighbours keeps the index sorted, adds
/// exactly that edge, and keeps every other membership unchanged.
pub proof fn lemma_edge_insert(s: Seq<OwnerEdge>, i: int, e: OwnerEdge)
    requires
        sorted_edges(s),
        0 <= i <= s.len(),
        forall|j: int|
            0 <= j < i ==> pair_lt(#[trigger] s[j].owner@, s[j].token_id@, e.owner@, e.token_id@),
        forall|j: int|
            i <= j < s.len() ==> pair_lt(
                e.owner@,
                e.token_id@,
                #[trigger] s[j].owner@,
                s[j].token_id@,
            ),
    ensures
        sorted_edges(s.insert(i, e)),
        has_edge(s.insert(i, e), e.owner@, e.token_id@),
        forall|o: Seq<char>, id: Seq<char>|
            !(o == e.owner@ && id == e.token_id@) ==> #[trigger] has_edge(s.insert(i, e), o, id)
                == has_edge(s, o, id),
{
    let t = s.insert(i, e);
    assert forall|p: int, q: int| 0 <= p < q < t.len() implies pair_lt(
        #[trigger] t[p].owner@,
        t[p].token_id@,
        #[trigger] t[q].owner@,
        t[q].token_id@,
    ) by {
        if p < i && q > i {
            lemma_pair_lt_transitive(
                t[p].owner@,
                t[p].token_id@,
                e.owner@,
                e.token_id@,
                t[q].owner@,
                t[q].token_id@,
            );
        }
    }
    assert(t[i] == e);
    assert forall|o: Seq<char>, id: Seq<char>| !(o == e.owner@ && id == e.token_id@) implies
    #[trigger] has_edge(t, o, id) == has_edge(s, o, id) by {
        if has_edge(t, o, id) {
            let k = choose|k: int| 0 <= k < t.len() && t[k].owner@ == o && t[k].token_id@ == id;
            assert(k != i);
            assert(t[k] == if k < i {
                s[k]
            } else {
                s[k - 1]
            });
            assert(has_edge(s, o, id));
        }
        if has_edge(s, o, id) {
            let k = choose|k: int| 0 <= k < s.len() && s[k].owner@ == o && s[k].token_id@ == id;
            if k < i {
                assert(t[k] == s[k]);
            } else {
                assert(t[k + 1] == s[k]);
            }
            assert(has_edge(t, o, id));
        }
    }
}

/// Removing an edge keeps the index sorted, removes exactly that edge, and
/// keeps every other membership unchanged.
pub proof fn lemma_edge_remove(s: Seq<OwnerEdge>, i: int)
    requires
        sorted_edges(s),
        0 <= i < s.len(),
    ensures
        sorted_edges(s.remove(i)),
        !has_edge(s.remove(i), s[i].owner@, s[i].token_id@),
        forall|o: Seq<char>, id: Seq<char>|
            !(o == s[i].owner@ && id == s[i].token_id@) ==> #[trigger] has_edge(s.remove(i), o, id)
                == has_edge(s, o, id),
{
    let t = s.remove(i);
    assert forall|p: int, q: int| 0 <= p < q < t.len() implies pair_lt(
        #[trigger] t[p].owner@,
        t[p].token_id@,
        #[trigger] t[q].owner@,
        t[q].token_id@,
    ) by {
        assert(t[p] == if p < i {
            s[p]
        } else {
            s[p + 1]
        });
        assert(t[q] == if q < i {
            s[q]
        } else {
            s[q + 1]
        });
    }
    if has_edge(t, s[i].owner@, s[i].token_id@) {
        let k = choose|k: int|
            0 <= k < t.len() && t[k].owner@ == s[i].owner@ && t[k].token_id@ == s[i].token_id@;
        lemma_pair_lt_irreflexive(s[i].owner@, s[i].token_id@);
        assert(t[k] == if k < i {
            s[k]
        } else {
            s[k + 1]
        });
    }
    assert forall|o: Seq<char>, id: Seq<char>| !(o == s[i].owner@ && id == s[i].token_id@) implies
    #[trigger] has_edge(t, o, id) == has_edge(s, o, id) by {
        if has_edge(t, o, id) {
            let k = choose|k: int| 0 <= k < t.len() && t[k].owner@ == o && t[k].token_id@ == id;
            assert(t[k] == if k < i {
                s[k]
            } else {
                s[k + 1]
            });
            assert(has_edge(s, o, id));
        }
        if has_edge(s, o, id) {
            let k = choose|k: int| 0 <= k < s.len() && s[k].owner@ == o && s[k].token_id@ == id;
            assert(k != i);
            if k < i {
                assert(t[k] == s[k]);
            } else {
                assert(t[k - 1] == s[k]);
            }
            assert(has_edge(t, o, id));
        }
    }
}

// ---------------------------------------------------------------------------
// Operator grants: sorted strictly by (owner, operator).
// ---------------------------------------------------------------------------

pub open spec fn sorted_grants(s: Seq<OperatorGrant>) -> bool {
    forall|i: int, j: int|
        0 <= i < j < s.len() ==> pair_lt(
            #[trigger] s[i].owner@,
            s[i].operator@,
            #[trigger] s[j].owner@,
            s[j].operator@,
        )
}

pub open spec fn has_grant(s: Seq<OperatorGrant>, owner: Seq<char>, operator: Seq<char>) -> bool {
    exists|i: int|
        0 <= i < s.len() && #[trigger] s[i].owner@ == owner && #[trigger] s[i].operator@ == operator
}

pub open spec fn grant_index(s: Seq<OperatorGrant>, owner: Seq<char>, operator: Seq<char>) -> int {
    choose|i: int|
        0 <= i < s.len() && #[trigger] s[i].owner@ == owner && #[trigger] s[i].operator@ == operator
}

/// The grant of the operator over the owner; meaningful when `has_grant`.
pub open spec fn grant_at(
    s: Seq<OperatorGrant>,
    owner: Seq<char>,
    operator: Seq<char>,
) -> OperatorGrant {
    s[grant_index(s, owner, operator)]
}

/// In a strictly sorted grant list an (owner, operator) pair names at most
/// one slot.
pub proof fn lemma_grant_index_unique(s: Seq<OperatorGrant>, i: int)
    requires
        sorted_grants(s),
        0 <= i < s.len(),
    ensures
        grant_index(s, s[i].owner@, s[i].operator@) == i,
        grant_at(s, s[i].owner@, s[i].operator@) == s[i],
        has_grant(s, s[i].owner@, s[i].operator@),
{
    assert(has_grant(s, s[i].owner@, s[i].operator@));
    let k = grant_index(s, s[i].owner@, s[i].operator@);
    if k != i {
        lemma_pair_lt_irreflexive(s[i].owner@, s[i].operator@);
        if k < i {
            assert(pair_lt(s[k].owner@, s[k].operator@, s[i].owner@, s[i].operator@));
        } else {
            assert(pair_lt(s[i].owner@, s[i].operator@, s[k].owner@, s[k].operator@));
        }
    }
}

/// Inserting a grant between its neighbours keeps the list sorted, adds
/// exactly that grant, and leaves every other lookup unchanged.
pub proof fn lemma_grant_insert(s: Seq<OperatorGrant>, i: int, g: OperatorGrant)
    requires
        sorted_grants(s),
        0 <= i <= s.len(),
        forall|j: int|
            0 <= j < i ==> pair_lt(#[trigger] s[j].owner@, s[j].operator@, g.owner@, g.operator@),
        forall|j: int|
            i <= j < s.len() ==> pair_lt(
                g.owner@,
                g.operator@,
                #[trigger] s[j].owner@,
                s[j].operator@,
            ),
    ensures
        sorted_grants(s.insert(i, g)),
        has_grant(s.insert(i, g), g.owner@, g.operator@),
        grant_at(s.insert(i, g), g.owner@, g.operator@) == g,
        forall|o: Seq<char>, p: Seq<char>|
            !(o == g.owner@ && p == g.operator@) ==> #[trigger] has_grant(s.insert(i, g), o, p)
                == has_grant(s, o, p),
        forall|o: Seq<char>, p: Seq<char>|
            !(o == g.owner@ && p == g.operator@) && has_grant(s, o, p) ==> #[trigger] grant_at(
                s.insert(i, g),
                o,
                p,
            ) == grant_at(s, o, p),
{
    let t = s.insert(i, g);
    assert forall|p: int, q: int| 0 <= p < q < t.len() implies pair_lt(
        #[trigger] t[p].owner@,
        t[p].operator@,
        #[trigger] t[q].owner@,
        t[q].operator@,
    ) by {
        if p < i && q > i {
            lemma_pair_lt_transitive(
                t[p].owner@,
                t[p].operator@,
                g.owner@,
                g.operator@,
                t[q].owner@,
                t[q].operator@,
            );
        }
    }
    assert(t[i] == g);
    lemma_grant_index_unique(t, i);
    assert forall|o: Seq<char>, p: Seq<char>| !(o == g.owner@ && p == g.operator@) implies
    #[trigger] has_grant(t, o, p) == has_grant(s, o, p) by {
        if has_grant(t, o, p) {
            let k = grant_index(t, o, p);
            assert(k != i);
            assert(t[k] == if k < i {
                s[k]
            } else {
                s[k - 1]
            });
            assert(has_grant(s, o, p));
        }
        if has_grant(s, o, p) {
            let k = grant_index(s, o, p);
            if k < i {
                assert(t[k] == s[k]);
            } else {
                assert(t[k + 1] == s[k]);
            }
            assert(has_grant(t, o, p));
        }
    }
    assert forall|o: Seq<char>, p: Seq<char>|
        !(o == g.owner@ && p == g.operator@) && has_grant(s, o, p) implies #[trigger] grant_at(
        t,
        o,
        p,
    ) == grant_at(s, o, p) by {
        let k = grant_index(s, o, p);
        lemma_grant_index_unique(s, k);
        if k < i {
            assert(t[k] == s[k]);
            lemma_grant_index_unique(t, k);
        } else {
            assert(t[k + 1] == s[k]);
            lemma_grant_index_unique(t, k + 1);
        }
    }
}

/// Removing a grant keeps the list sorted, removes exactly that grant, and
/// leaves every other lookup unchanged.
pub proof fn lemma_grant_remove(s: Seq<OperatorGrant>, i: int)
    requires
        sorted_grants(s),
        0 <= i < s.len(),
    ensures
        sorted_grants(s.remove(i)),
        !has_grant(s.remove(i), s[i].owner@, s[i].operator@),
        forall|o: Seq<char>, p: Seq<char>|
            !(o == s[i].owner@ && p == s[i].operator@) ==> #[trigger] has_grant(s.remove(i), o, p)
                == has_grant(s, o, p),
        forall|o: Seq<char>, p: Seq<char>|
            !(o == s[i].owner@ && p == s[i].operator@) && has_grant(s, o, p) ==> #[trigger]
            grant_at(s.remove(i), o, p) == grant_at(s, o, p),
{
    let t = s.remove(i);
    assert forall|p: int, q: int| 0 <= p < q < t.len() implies pair_lt(
        #[trigger] t[p].owner@,
        t[p].operator@,
        #[trigger] t[q].owner@,
        t[q].operator@,
    ) by {
        assert(t[p] == if p < i {
            s[p]
        } else {
            s[p + 1]
        });
        assert(t[q] == if q < i {
            s[q]
        } else {
            s[q + 1]
        });
    }
    if has_grant(t, s[i].owner@, s[i].operator@) {
        let k = grant_index(t, s[i].owner@, s[i].operator@);
        lemma_pair_lt_irreflexive(s[i].owner@, s[i].operator@);
        assert(t[k] == if k < i {
            s[k]
        } else {
            s[k + 1]
        });
    }
    assert forall|o: Seq<char>, p: Seq<char>| !(o == s[i].owner@ && p == s[i].operator@) implies
    #[trigger] has_grant(t, o, p) == has_grant(s, o, p) by {
        if has_grant(t, o, p) {
            let k = grant_index(t, o, p);
            assert(t[k] == if k < i {
                s[k]
            } else {
                s[k + 1]
            });
            assert(has_grant(s, o, p));
        }
        if has_grant(s, o, p) {
            let k = grant_index(s, o, p);
            assert(k != i);
            if k < i {
                assert(t[k] == s[k]);
            } else {
                assert(t[k - 1] == s[k]);
            }
            assert(has_grant(t, o, p));
        }
    }
    assert forall|o: Seq<char>, p: Seq<char>|
        !(o == s[i].owner@ && p == s[i].operator@) && has_grant(s, o, p) implies #[trigger]
    grant_at(t, o, p) == grant_at(s, o, p) by {
        let k = grant_index(s, o, p);
        lemma_grant_index_unique(s, k);
        if k < i {
            assert(t[k] == s[k]);
            lemma_grant_index_unique(t, k);
        } else {
            assert(t[k - 1] == s[k]);
            lemma_grant_index_unique(t, k - 1);
        }
    }
}

// ---------------------------------------------------------------------------
// Record validity and the whole-store invariant.
// ---------------------------------------------------------------------------

/// No two approvals on one token name the same spender.
pub open spec fn approvals_unique(apprs: Seq<Approval>) -> bool {
    forall|i: int, j: int|
        0 <= i < j < apprs.len() ==> (#[trigger] apprs[i].spender@) != (
        #[trigger] apprs[j].spender@)
}

/// A stored token entry is valid: its owner is a non-empty identity and its
/// approvals name no spender twice.
pub open spec fn entry_valid(e: TokenEntry) -> bool {
    e.info.owner@.len() > 0 && approvals_unique(e.info.approvals@)
}

/// The whole ledger state.
#[derive(Debug)]
pub struct LedgerState {
    /// The collection singleton.
    pub collection_info: CollectionInfo,
    /// Scalar token count: incremented on mint, decremented on burn.
    pub token_count: u64,
    /// The primary map, sorted strictly by token id.
    pub tokens: Vec<TokenEntry>,
    /// The derived owner index, sorted strictly by (owner, token id); always
    /// in exact sync with the primary map.
    pub owner_index: Vec<OwnerEdge>,
    /// Blanket operator grants, sorted strictly by (owner, operator).
    pub operators: Vec<OperatorGrant>,
    /// The withdraw-address singleton.
    pub withdraw_address: Option<String>,
    /// The role that may mint and burn.
    pub minter: OwnershipState,
    /// The role that may update collection metadata.
    pub creator: OwnershipState,
    /// Days after its mint at which a token is reported expired.
    pub expiration_days: u16,
}

impl LedgerState {
    /// Well-formedness: the primary map is sorted with valid entries, the
    /// owner index is sorted and in exact sync with it, the operator grants
    /// are sorted, and the token count equals the number of stored tokens.
    pub open spec fn wf(&self) -> bool {
        &&& sorted_tokens(self.tokens@)
        &&& forall|i: int| 0 <= i < self.tokens@.len() ==> entry_valid(#[trigger] self.tokens@[i])
        &&& sorted_edges(self.owner_index@)
        &&& forall|k: int|
            0 <= k < self.owner_index@.len() ==> has_token(
                self.tokens@,
                (#[trigger] self.owner_index@[k]).token_id@,
            ) && token_at(self.tokens@, self.owner_index@[k].token_id@).info.owner@
                == self.owner_index@[k].owner@
        &&& forall|i: int|
            0 <= i < self.tokens@.len() ==> has_edge(
                self.owner_index@,
                (#[trigger] self.tokens@[i]).info.owner@,
                self.tokens@[i].token_id@,
            )
        &&& sorted_grants(self.operators@)
        &&& self.token_count == self.tokens@.len()
    }

    /// Whether the token is expired at the given block: its mint lies more
    /// than the collection's expiration window in the past.
    pub open spec fn token_expired_spec(&self, e: TokenEntry, block: &BlockInfo) -> bool {
        block.time >= e.mint_time + self.expiration_days * DAY_NS
    }

    pub fn token_expired(&self, e: &TokenEntry, block: &BlockInfo) -> (r: bool)
        ensures
            r == self.token_expired_spec(*e, block),
    {
        let window: u128 = (self.expiration_days as u128) * (DAY_NS as u128);
        proof {
            assert(window <= 0xffff * 86_400_000_000_000) by (nonlinear_arith)
                requires
                    window == (self.expiration_days as u128) * (DAY_NS as u128),
                    self.expiration_days <= 0xffff,
            ;
        }
        (block.time as u128) >= (e.mint_time as u128) + window
    }

    /// The number of tokens currently stored.
    pub fn token_count(&self) -> (r: u64)
        ensures
            r == self.token_count,
    {
        self.token_count
    }

    /// Finds the slot of a token id in the primary map.
    pub fn find_token(&self, token_id: &String) -> (r: Option<usize>)
        ensures
            match r {
                Some(i) => i < self.tokens@.len() && self.tokens@[i as int].token_id@ == token_id@,
                None => !has_token(self.tokens@, token_id@),
            },
    {
        let mut i: usize = 0;
        while i < self.tokens.len()
            invariant
                i <= self.tokens@.len(),
                forall|j: int| 0 <= j < i ==> (#[trigger] self.tokens@[j].token_id@) != token_id@,
            decreases self.tokens@.len() - i,
        {
            if *self.tokens[i].token_id() == *token_id {
                return Some(i);
            }
            i = i + 1;
        }
        None
    }

    /// The slot at which a new token id belongs in the sorted primary map.
    pub fn token_insert_pos(&self, token_id: &String) -> (i: usize)
        requires
            sorted_tokens(self.tokens@),
        ensures
            i <= self.tokens@.len(),
            forall|j: int| 0 <= j < i ==> lex_lt(#[trigger] self.tokens@[j].token_id@, token_id@),
            forall|j: int|
                i <= j < self.tokens@.len() ==> !lex_lt(
                    #[trigger] self.tokens@[j].token_id@,
                    token_id@,
                ),
    {
        let mut i: usize = 0;
        while i < self.tokens.len() && str_lt(self.tokens[i].token_id(), token_id)
            invariant
                i <= self.tokens@.len(),
                forall|j: int| 0 <= j < i ==> lex_lt(#[trigger] self.tokens@[j].token_id@, token_id@),
            decreases self.tokens@.len() - i,
        {
            i = i + 1;
        }
        proof {
            if i < self.tokens@.len() {
                assert forall|j: int| i <= j < self.tokens@.len() implies !lex_lt(
                    #[trigger] self.tokens@[j].token_id@,
                    token_id@,
                ) by {
                    if j > i && lex_lt(self.tokens@[j].token_id@, token_id@) {
                        lemma_lex_lt_transitive(
                            self.tokens@[i as int].token_id@,
                            self.tokens@[j].token_id@,
                            token_id@,
                        );
                    }
                }
            }
        }
        i
    }

    /// Finds the slot of an (owner, token id) edge in the owner index.
    pub fn find_edge(&self, owner: &String, token_id: &String) -> (r: Option<usize>)
        ensures
            match r {
                Some(i) => i < self.owner_index@.len() && self.owner_index@[i as int].owner@
                    == owner@ && self.owner_index@[i as int].token_id@ == token_id@,
                None => !has_edge(self.owner_index@, owner@, token_id@),
            },
    {
        let mut i: usize = 0;
        while i < self.owner_index.len()
            invariant
                i <= self.owner_index@.len(),
                forall|j: int|
                    0 <= j < i ==> !((#[trigger] self.owner_index@[j].owner@) == owner@
                        && self.owner_index@[j].token_id@ == token_id@),
            decreases self.owner_index@.len() - i,
        {
            let edge = &self.owner_index[i];
            if *edge.owner_ref() == *owner && *edge.token_id_ref() == *token_id {
                return Some(i);
            }
            i = i + 1;
        }
        None
    }

    /// The slot at which a new (owner, token id) edge belongs in the sorted
    /// owner index.
    pub fn edge_insert_pos(&self, owner: &String, token_id: &String) -> (i: usize)
        requires
            sorted_edges(self.owner_index@),
        ensures
            i <= self.owner_index@.len(),
            forall|j: int|
                0 <= j < i ==> pair_lt(
                    #[trigger] self.owner_index@[j].owner@,
                    self.owner_index@[j].token_id@,
                    owner@,
                    token_id@,
                ),
            forall|j: int|
                i <= j < self.owner_index@.len() ==> !pair_lt(
                    #[trigger] self.owner_index@[j].owner@,
                    self.owner_index@[j].token_id@,
                    owner@,
                    token_id@,
                ),
    {
        let mut i: usize = 0;
        while i < self.owner_index.len() && str_pair_lt(
            self.owner_index[i].owner_ref(),
            self.owner_index[i].token_id_ref(),
            owner,
            token_id,
        )
            invariant
                i <= self.owner_index@.len(),
                forall|j: int|
                    0 <= j < i ==> pair_lt(
                        #[trigger] self.owner_index@[j].owner@,
                        self.owner_index@[j].token_id@,
                        owner@,
                        token_id@,
                    ),
            decreases self.owner_index@.len() - i,
        {
            i = i + 1;
        }
        proof {
            if i < self.owner_index@.len() {
                assert forall|j: int| i <= j < self.owner_index@.len() implies !pair_lt(
                    #[trigger] self.owner_index@[j].owner@,
                    self.owner_index@[j].token_id@,
                    owner@,
                    token_id@,
                ) by {
                    if j > i && pair_lt(
                        self.owner_index@[j].owner@,
                        self.owner_index@[j].token_id@,
                        owner@,
                        token_id@,
                    ) {
                        lemma_pair_lt_transitive(
                            self.owner_index@[i as int].owner@,
                            self.owner_index@[i as int].token_id@,
                            self.owner_index@[j].owner@,
                            self.owner_index@[j].token_id@,
                            owner@,
                            token_id@,
                        );
                    }
                }
            }
        }
        i
    }

    /// Finds the slot of an (owner, operator) grant.
    pub fn find_grant(&self, owner: &String, operator: &String) -> (r: Option<usize>)
        ensures
            match r {
                Some(i) => i < self.operators@.len() && self.operators@[i as int].owner@ == owner@
                    && self.operators@[i as int].operator@ == operator@,
                None => !has_grant(self.operators@, owner@, operator@),
            },
    {
        let mut i: usize = 0;
        while i < self.operators.len()
            invariant
                i <= self.operators@.len(),
                forall|j: int|
                    0 <= j < i ==> !((#[trigger] self.operators@[j].owner@) == owner@
                        && self.operators@[j].operator@ == operator@),
            decreases self.operators@.len() - i,
        {
            let g = &self.operators[i];
            if *g.owner_ref() == *owner && *g.operator_ref() == *operator {
                return Some(i);
            }
            i = i + 1;
        }
        None
    }

    /// The slot at which a new (owner, operator) grant belongs.
    pub fn grant_insert_pos(&self, owner: &String, operator: &String) -> (i: usize)
        requires
            sorted_grants(self.operators@),
        ensures
            i <= self.operators@.len(),
            forall|j: int|
                0 <= j < i ==> pair_lt(
                    #[trigger] self.operators@[j].owner@,
                    self.operators@[j].operator@,
                    owner@,
                    operator@,
                ),
            forall|j: int|
                i <= j < self.operators@.len() ==> !pair_lt(
                    #[trigger] self.operators@[j].owner@,
                    self.operators@[j].operator@,
                    owner@,
                    operator@,
                ),
    {
        let mut i: usize = 0;
        while i < self.operators.len() && str_pair_lt(
            self.operators[i].owner_ref(),
            self.operators[i].operator_ref(),
            owner,
            operator,
        )
            invariant
                i <= self.operators@.len(),
                forall|j: int|
                    0 <= j < i ==> pair_lt(
                        #[trigger] self.operators@[j].owner@,
                        self.operators@[j].operator@,
                        owner@,
                        operator@,
                    ),
            decreases self.operators@.len() - i,
        {
            i = i + 1;
        }
        proof {
            if i < self.operators@.len() {
                assert forall|j: int| i <= j < self.operators@.len() implies !pair_lt(
                    #[trigger] self.operators@[j].owner@,
                    self.operators@[j].operator@,
                    owner@,
                    operator@,
                ) by {
                    if j > i && pair_lt(
                        self.operators@[j].owner@,
                        self.operators@[j].operator@,
                        owner@,
                        operator@,
                    ) {
                        lemma_pair_lt_transitive(
                            self.operators@[i as int].owner@,
                            self.operators@[i as int].operator@,
                            self.operators@[j].owner@,
                            self.operators@[j].operator@,
                            owner@,
                            operator@,
                        );
                    }
                }
            }
        }
        i
    }
}

impl TokenEntry {
    pub fn token_id(&self) -> (r: &String)
        ensures
            *r == self.token_id,
    {
        &self.token_id
    }
}

impl OwnerEdge {
    pub fn owner_ref(&self) -> (r: &String)
        ensures
            *r == self.owner,
    {
        &self.owner
    }

    pub fn token_id_ref(&self) -> (r: &String)
        ensures
            *r == self.token_id,
    {
        &self.token_id
    }
}

impl OperatorGrant {
    pub fn owner_ref(&self) -> (r: &String)
        ensures
            *r == self.owner,
    {
        &self.owner
    }

    pub fn operator_ref(&self) -> (r: &String)
        ensures
            *r == self.operator,
    {
        &self.operator
    }
}

} // verus!
