//! Lexicographic ordering on strings, used to keep the ledger's primary map
//! and its derived indexes sorted for paginated enumeration.

use vstd::prelude::*;

verus! {

/// Strict lexicographic order on character sequences, by Unicode scalar value,
/// with a proper prefix ordered before any of its extensions.
pub open spec fn lex_lt(a: Seq<char>, b: Seq<char>) -> bool
    decreases a.len(),
{
    if b.len() == 0 {
        false
    } else if a.len() == 0 {
        true
    } else if a[0] == b[0] {
        lex_lt(a.drop_first(), b.drop_first())
    } else {
        (a[0] as u32) < (b[0] as u32)
    }
}

/// Strict order on (owner, key) pairs: by owner first, then by key.
pub open spec fn pair_lt(a1: Seq<char>, b1: Seq<char>, a2: Seq<char>, b2: Seq<char>) -> bool {
    lex_lt(a1, a2) || (a1 == a2 && lex_lt(b1, b2))
}

pub proof fn lemma_lex_lt_irreflexive(a: Seq<char>)
    ensures
        !lex_lt(a, a),
    decreases a.len(),
{
    if a.len() > 0 {
        lemma_lex_lt_irreflexive(a.drop_first());
    }
}

pub proof fn lemma_lex_lt_transitive(a: Seq<char>, b: Seq<char>, c: Seq<char>)
    requires
        lex_lt(a, b),
        lex_lt(b, c),
    ensures
        lex_lt(a, c),
    decreases a.len(),
{
    if a.len() == 0 {
    } else if a[0] == b[0] && b[0] == c[0] {
        lemma_lex_lt_transitive(a.drop_first(), b.drop_first(), c.drop_first());
    }
}

/// Two sequences that neither precedes are equal: the order is total.
pub proof fn lemma_lex_lt_connected(a: Seq<char>, b: Seq<char>)
    requires
        !lex_lt(a, b),
        !lex_lt(b, a),
    ensures
        a == b,
    decreases a.len(),
{
    if b.len() == 0 {
        assert(a =~= b);
    } else if a.len() == 0 {
    } else if a[0] == b[0] {
        lemma_lex_lt_connected(a.drop_first(), b.drop_first());
        assert(a.drop_first().len() == a.len() - 1);
        assert(b.drop_first().len() == b.len() - 1);
        assert(a.len() == b.len());
        assert forall|j: int| 0 <= j < a.len() implies a[j] == b[j] by {
            if j > 0 {
                assert(a[j] == a.drop_first()[j - 1]);
                assert(b[j] == b.drop_first()[j - 1]);
            }
        }
        assert(a =~= b);
    } else {
        char_eq_from_scalar(a[0], b[0]);
    }
}

proof fn char_eq_from_scalar(c1: char, c2: char)
    requires
        c1 as u32 == c2 as u32,
    ensures
        c1 == c2,
{
}

pub proof fn lemma_pair_lt_irreflexive(a: Seq<char>, b: Seq<char>)
    ensures
        !pair_lt(a, b, a, b),
{
    lemma_lex_lt_irreflexive(a);
    lemma_lex_lt_irreflexive(b);
}

pub proof fn lemma_pair_lt_transitive(
    a1: Seq<char>,
    b1: Seq<char>,
    a2: Seq<char>,
    b2: Seq<char>,
    a3: Seq<char>,
    b3: Seq<char>,
)
    requires
        pair_lt(a1, b1, a2, b2),
        pair_lt(a2, b2, a3, b3),
    ensures
        pair_lt(a1, b1, a3, b3),
{
    if lex_lt(a1, a2) {
        if lex_lt(a2, a3) {
            lemma_lex_lt_transitive(a1, a2, a3);
        }
    } else {
        lemma_lex_lt_irreflexive(a1);
        if !lex_lt(a2, a3) {
            lemma_lex_lt_transitive(b1, b2, b3);
        }
    }
}

pub proof fn lemma_pair_lt_connected(a1: Seq<char>, b1: Seq<char>, a2: Seq<char>, b2: Seq<char>)
    requires
        !pair_lt(a1, b1, a2, b2),
        !pair_lt(a2, b2, a1, b1),
    ensures
        a1 == a2,
        b1 == b2,
{
    lemma_lex_lt_connected(a1, a2);
    lemma_lex_lt_connected(b1, b2);
}

/// The order of two sequences that agree on a common prefix is decided at the
/// first position where they differ.
proof fn lemma_lex_lt_at_difference(a: Seq<char>, b: Seq<char>, i: int)
    requires
        0 <= i < a.len(),
        i < b.len(),
        forall|j: int| 0 <= j < i ==> a[j] == b[j],
        a[i] != b[i],
    ensures
        lex_lt(a, b) == ((a[i] as u32) < (b[i] as u32)),
    decreases i,
{
    if i == 0 {
    } else {
        lemma_lex_lt_at_difference(a.drop_first(), b.drop_first(), i - 1);
    }
}

/// When one sequence is a prefix of the other, the shorter precedes.
proof fn lemma_lex_lt_at_prefix(a: Seq<char>, b: Seq<char>, i: int)
    requires
        0 <= i <= a.len(),
        i <= b.len(),
        i == a.len() || i == b.len(),
        forall|j: int| 0 <= j < i ==> a[j] == b[j],
    ensures
        lex_lt(a, b) == (a.len() < b.len()),
    decreases i,
{
    if i == 0 {
    } else {
        lemma_lex_lt_at_prefix(a.drop_first(), b.drop_first(), i - 1);
    }
}

/// Decides the lexicographic order of two strings.
pub fn str_lt(a: &String, b: &String) -> (r: bool)
    ensures
        r == lex_lt(a@, b@),
{
    let a_len = a.as_str().unicode_len();
    let b_len = b.as_str().unicode_len();
    let mut i: usize = 0;
    loop
        invariant
            i <= a_len,
            i <= b_len,
            a_len == a@.len(),
            b_len == b@.len(),
            forall|j: int| 0 <= j < i ==> a@[j] == b@[j],
        decreases a_len - i,
    {
        if i == a_len || i == b_len {
            proof {
                lemma_lex_lt_at_prefix(a@, b@, i as int);
            }
            return a_len < b_len;
        }
        let ca = a.as_str().get_char(i);
        let cb = b.as_str().get_char(i);
        if ca != cb {
            proof {
                lemma_lex_lt_at_difference(a@, b@, i as int);
            }
            return (ca as u32) < (cb as u32);
        }
        i = i + 1;
    }
}

/// Decides the order of two (owner, key) pairs.
pub fn str_pair_lt(a1: &String, b1: &String, a2: &String, b2: &String) -> (r: bool)
    ensures
        r == pair_lt(a1@, b1@, a2@, b2@),
{
    if *a1 == *a2 {
        proof {
            lemma_lex_lt_irreflexive(a1@);
        }
        str_lt(b1, b2)
    } else {
        str_lt(a1, a2)
    }
}

} // verus!
