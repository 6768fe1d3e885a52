//! The lexicographic order of byte strings, in which the runtime's store walks its keys.
use vstd::prelude::*;

verus! {

/// Byte string `a` comes before `b` at a position where they differ: up to it they agree, and
/// there `a` has the smaller byte.
pub open spec fn bytes_before(a: Seq<u8>, b: Seq<u8>) -> bool {
    exists|i: int| 0 <= i < a.len() && i < b.len() && a.take(i) == b.take(i) && #[trigger] a[i] < b[i]
}

/// `a` is a proper prefix of `b`.
pub open spec fn proper_prefix(a: Seq<u8>, b: Seq<u8>) -> bool {
    a.len() < b.len() && b.take(a.len() as int) == a
}

/// The lexicographic order: `a` comes before `b` where they first differ, or `a` is a proper
/// prefix of `b`.
pub open spec fn lex_lt(a: Seq<u8>, b: Seq<u8>) -> bool {
    bytes_before(a, b) || proper_prefix(a, b)
}

/// `bytes_before` is transitive.
pub proof fn lemma_bytes_before_transitive(a: Seq<u8>, b: Seq<u8>, c: Seq<u8>)
    requires
        bytes_before(a, b),
        bytes_before(b, c),
    ensures
        bytes_before(a, c),
{
    let i = choose|i: int| 0 <= i < a.len() && i < b.len() && a.take(i) == b.take(i) && #[trigger] a[i] < b[i];
    let j = choose|j: int| 0 <= j < b.len() && j < c.len() && b.take(j) == c.take(j) && #[trigger] b[j] < c[j];
    let k = if i < j { i } else { j };
    assert(a.take(k) =~= a.take(i).take(k));
    assert(b.take(k) =~= b.take(i).take(k));
    assert(b.take(k) =~= b.take(j).take(k));
    assert(c.take(k) =~= c.take(j).take(k));
    if i < j {
        assert(b[i] == b.take(j)[i]);
        assert(c[i] == c.take(j)[i]);
    } else if j < i {
        assert(a[j] == a.take(i)[j]);
        assert(b[j] == b.take(i)[j]);
    }
    assert(a[k] < c[k]);
}

/// The lexicographic order is transitive.
pub proof fn lemma_lex_lt_transitive(a: Seq<u8>, b: Seq<u8>, c: Seq<u8>)
    requires
        lex_lt(a, b),
        lex_lt(b, c),
    ensures
        lex_lt(a, c),
{
    if bytes_before(a, b) && bytes_before(b, c) {
        lemma_bytes_before_transitive(a, b, c);
    } else if bytes_before(a, b) {
        let i = choose|i: int| 0 <= i < a.len() && i < b.len() && a.take(i) == b.take(i) && #[trigger] a[i] < b[i];
        assert(c.take(b.len() as int) == b);
        assert(c[i] == c.take(b.len() as int)[i]);
        assert(c.take(i) =~= c.take(b.len() as int).take(i));
        assert(b.take(i) =~= b.take(b.len() as int).take(i));
        assert(a.take(i) == c.take(i) && a[i] < c[i]);
    } else if bytes_before(b, c) {
        let j = choose|j: int| 0 <= j < b.len() && j < c.len() && b.take(j) == c.take(j) && #[trigger] b[j] < c[j];
        if j < a.len() {
            assert(a[j] == b.take(a.len() as int)[j]);
            assert(a.take(j) =~= b.take(a.len() as int).take(j));
            assert(b.take(j) =~= b.take(j));
            assert(a.take(j) =~= b.take(j));
            assert(a.take(j) == c.take(j) && a[j] < c[j]);
        } else {
            assert(c.take(a.len() as int) =~= c.take(j).take(a.len() as int));
            assert(b.take(a.len() as int) =~= b.take(j).take(a.len() as int));
            assert(proper_prefix(a, c));
        }
    } else {
        assert(c.take(a.len() as int) =~= c.take(b.len() as int).take(a.len() as int));
        assert(proper_prefix(a, c));
    }
}

/// The lexicographic order is irreflexive.
pub proof fn lemma_lex_lt_irreflexive(a: Seq<u8>)
    ensures
        !lex_lt(a, a),
{
}

/// The lexicographic order is asymmetric (so the strings differ).
pub proof fn lemma_lex_lt_asymmetric(a: Seq<u8>, b: Seq<u8>)
    requires
        lex_lt(a, b),
    ensures
        !lex_lt(b, a),
        a != b,
{
    if lex_lt(b, a) {
        lemma_lex_lt_transitive(a, b, a);
    }
}

/// Two different byte strings are ordered one way or the other.
pub proof fn lemma_lex_lt_total(a: Seq<u8>, b: Seq<u8>)
    requires
        a != b,
    ensures
        lex_lt(a, b) || lex_lt(b, a),
    decreases a.len(),
{
    if a.len() == 0 {
        if b.len() == 0 {
            assert(a =~= b);
        }
        assert(b.take(0) =~= a);
        assert(proper_prefix(a, b));
    } else if b.len() == 0 {
        assert(a.take(0) =~= b);
        assert(proper_prefix(b, a));
    } else if a[0] != b[0] {
        assert(a.take(0) =~= b.take(0));
        if a[0] < b[0] {
            assert(bytes_before(a, b));
        } else {
            assert(bytes_before(b, a));
        }
    } else {
        let a1 = a.drop_first();
        let b1 = b.drop_first();
        assert(a =~= seq![a[0]] + a1);
        assert(b =~= seq![b[0]] + b1);
        assert(a1 != b1);
        lemma_lex_lt_total(a1, b1);
        if lex_lt(a1, b1) {
            lemma_lex_lt_cons(a[0], a1, b1);
            assert(lex_lt(a, b));
        } else {
            lemma_lex_lt_cons(a[0], b1, a1);
            assert(lex_lt(b, a));
        }
    }
}

/// Putting the same byte in front of two byte strings keeps their order.
pub proof fn lemma_lex_lt_cons(x: u8, a: Seq<u8>, b: Seq<u8>)
    requires
        lex_lt(a, b),
    ensures
        lex_lt(seq![x] + a, seq![x] + b),
{
    let xa = seq![x] + a;
    let xb = seq![x] + b;
    if bytes_before(a, b) {
        let i = choose|i: int| 0 <= i < a.len() && i < b.len() && a.take(i) == b.take(i) && #[trigger] a[i] < b[i];
        assert(xa.take(i + 1) =~= seq![x] + a.take(i));
        assert(xb.take(i + 1) =~= seq![x] + b.take(i));
        assert(xa[i + 1] == a[i] && xb[i + 1] == b[i]);
        assert(bytes_before(xa, xb));
    } else {
        assert(xb.take(xa.len() as int) =~= seq![x] + b.take(a.len() as int));
        assert(proper_prefix(xa, xb));
    }
}

/// Where two byte strings stand to each other.
pub enum KeyPosition {
    /// The first comes before the second.
    Before,
    /// They are equal.
    Same,
    /// The first comes after the second.
    After,
}

/// Compare two byte strings lexicographically.
pub fn compare_keys(a: &[u8], b: &[u8]) -> (position: KeyPosition)
    ensures
        position is Before <==> lex_lt(a@, b@),
        position is After <==> lex_lt(b@, a@),
        position is Same <==> a@ == b@,
{
    let mut i: usize = 0;
    while i < a.len() && i < b.len()
        invariant
            0 <= i <= a@.len(),
            i <= b@.len(),
            a@.take(i as int) == b@.take(i as int),
        decreases a@.len() - i,
    {
        if a[i] < b[i] {
            proof {
                assert(bytes_before(a@, b@));
                lemma_lex_lt_asymmetric(a@, b@);
            }
            return KeyPosition::Before;
        }
        if a[i] > b[i] {
            proof {
                assert(bytes_before(b@, a@));
                lemma_lex_lt_asymmetric(b@, a@);
            }
            return KeyPosition::After;
        }
        proof {
            assert(a@.take(i as int + 1) =~= a@.take(i as int).push(a@[i as int]));
            assert(b@.take(i as int + 1) =~= b@.take(i as int).push(b@[i as int]));
        }
        i = i + 1;
    }
    if a.len() < b.len() {
        assert(a@.take(i as int) =~= a@);
        assert(proper_prefix(a@, b@));
        proof {
            lemma_lex_lt_asymmetric(a@, b@);
        }
        KeyPosition::Before
    } else if b.len() < a.len() {
        assert(b@.take(i as int) =~= b@);
        assert(proper_prefix(b@, a@));
        proof {
            lemma_lex_lt_asymmetric(b@, a@);
        }
        KeyPosition::After
    } else {
        assert(a@ =~= a@.take(i as int));
        assert(b@ =~= b@.take(i as int));
        KeyPosition::Same
    }
}

} // verus!
