//! Lexicographic comparison of byte strings, the order of `str`.
use vstd::prelude::*;
use core::cmp::Ordering;

verus! {

/// The suffix of `s` from index `i`.
pub open spec fn suffix(s: Seq<u8>, i: usize) -> Seq<u8> {
    s.skip(i as int)
}

/// The byte of `s` at index `i`.
pub open spec fn byte_at(s: Seq<u8>, i: usize) -> u8 {
    s[i as int]
}

/// The lexicographic order of two byte strings: the first differing byte decides, and a proper
/// prefix comes first.
pub open spec fn lex_order(a: Seq<u8>, b: Seq<u8>) -> Ordering
    decreases a.len(),
{
    if a.len() == 0 {
        if b.len() == 0 {
            Ordering::Equal
        } else {
            Ordering::Less
        }
    } else if b.len() == 0 {
        Ordering::Greater
    } else if a[0] < b[0] {
        Ordering::Less
    } else if a[0] > b[0] {
        Ordering::Greater
    } else {
        lex_order(a.drop_first(), b.drop_first())
    }
}

/// Dropping the first byte of a suffix gives the next suffix.
proof fn lemma_suffix_next(s: Seq<u8>, i: usize)
    requires
        i < s.len() <= usize::MAX,
    ensures
        suffix(s, i).len() > 0,
        suffix(s, i)[0] == byte_at(s, i),
        suffix(s, i).drop_first() == suffix(s, (i + 1) as usize),
{
    assert(suffix(s, i).drop_first() =~= suffix(s, (i + 1) as usize));
}

/// The suffixes at index zero are the strings themselves.
proof fn lemma_suffix_zero(s: Seq<u8>)
    ensures
        suffix(s, 0) == s,
{
    assert(suffix(s, 0) =~= s);
}

/// Two byte strings are in the order `Equal` exactly when they are the same.
pub proof fn lemma_lex_order_equal(a: Seq<u8>, b: Seq<u8>)
    ensures
        (lex_order(a, b) == Ordering::Equal) <==> (a == b),
    decreases a.len(),
{
    if a.len() > 0 && b.len() > 0 {
        lemma_lex_order_equal(a.drop_first(), b.drop_first());
        if a == b {
            assert(a.drop_first() == b.drop_first());
        }
        if a[0] == b[0] && a.drop_first() == b.drop_first() {
            assert(a =~= seq![a[0]] + a.drop_first());
            assert(b =~= seq![b[0]] + b.drop_first());
        }
    } else if a.len() == 0 && b.len() == 0 {
        assert(a =~= b);
    }
}

/// The order of two strings is the reverse of the order of the same strings swapped.
pub proof fn lemma_lex_order_antisymmetric(a: Seq<u8>, b: Seq<u8>)
    ensures
        (lex_order(a, b) == Ordering::Less) <==> (lex_order(b, a) == Ordering::Greater),
        (lex_order(a, b) == Ordering::Equal) <==> (lex_order(b, a) == Ordering::Equal),
    decreases a.len(),
{
    if a.len() > 0 && b.len() > 0 {
        lemma_lex_order_antisymmetric(a.drop_first(), b.drop_first());
    }
}

/// Compares two byte strings lexicographically.
pub fn compare_bytes(a: &[u8], b: &[u8]) -> (r: Ordering)
    ensures
        r == lex_order(a@, b@),
{
    let mut i: usize = 0;
    proof {
        lemma_suffix_zero(a@);
        lemma_suffix_zero(b@);
    }
    while i < a.len() && i < b.len()
        invariant
            i <= a@.len(),
            i <= b@.len(),
            lex_order(a@, b@) == lex_order(suffix(a@, i), suffix(b@, i)),
        decreases a@.len() - i,
    {
        proof {
            lemma_suffix_next(a@, i);
            lemma_suffix_next(b@, i);
        }
        if a[i] < b[i] {
            return Ordering::Less;
        } else if a[i] > b[i] {
            return Ordering::Greater;
        }
        i = i + 1;
    }
    if i < a.len() {
        Ordering::Greater
    } else if i < b.len() {
        Ordering::Less
    } else {
        Ordering::Equal
    }
}

/// Where two byte strings agree before index `i` and differ at it, the bytes at `i` decide
/// their order.
pub proof fn lemma_lex_order_first_difference(a: Seq<u8>, b: Seq<u8>, i: int)
    requires
        0 <= i < a.len(),
        i < b.len(),
        forall|k: int| 0 <= k < i ==> a[k] == b[k],
        a[i] != b[i],
    ensures
        lex_order(a, b) == (if a[i] < b[i] { Ordering::Less } else { Ordering::Greater }),
    decreases i,
{
    if i > 0 {
        assert(a[0] == b[0]);
        assert forall|k: int| 0 <= k < i - 1 implies a.drop_first()[k] == b.drop_first()[k] by {
            assert(a[k + 1] == b[k + 1]);
        }
        lemma_lex_order_first_difference(a.drop_first(), b.drop_first(), i - 1);
    }
}

/// A proper prefix of a byte string comes before it.
pub proof fn lemma_lex_order_proper_prefix(a: Seq<u8>, b: Seq<u8>)
    requires
        a.len() < b.len(),
        forall|k: int| 0 <= k < a.len() ==> a[k] == b[k],
    ensures
        lex_order(a, b) == Ordering::Less,
        lex_order(b, a) == Ordering::Greater,
    decreases a.len(),
{
    if a.len() > 0 {
        assert(a[0] == b[0]);
        assert forall|k: int| 0 <= k < a.drop_first().len() implies a.drop_first()[k] == b.drop_first()[k] by {
            assert(a[k + 1] == b[k + 1]);
        }
        lemma_lex_order_proper_prefix(a.drop_first(), b.drop_first());
    }
}

} // verus!
