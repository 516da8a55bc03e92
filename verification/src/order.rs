//! The order of texts: by their characters, from the front.
use vstd::prelude::*;

use crate::text::chars_of;

verus! {

/// How one text stands to another.
#[derive(Debug, Clone, Copy, PartialEq, Eq, Structural)]
pub enum Rank {
    Below,
    Same,
    Above,
}

/// Whether `a` stands before `b`: at the first place where they differ it has the smaller
/// character, or it ends there.
pub open spec fn text_less(a: Seq<char>, b: Seq<char>) -> bool
    decreases a.len(),
{
    if b.len() == 0 {
        false
    } else if a.len() == 0 {
        true
    } else if a[0] != b[0] {
        a[0] < b[0]
    } else {
        text_less(a.skip(1), b.skip(1))
    }
}

/// Whether one pair of texts stands before another: by the first texts, then by the second.
pub open spec fn pair_less(a: (Seq<char>, Seq<char>), b: (Seq<char>, Seq<char>)) -> bool {
    text_less(a.0, b.0) || (a.0 == b.0 && text_less(a.1, b.1))
}

/// No text stands before itself.
pub proof fn lemma_text_irreflexive(a: Seq<char>)
    ensures
        !text_less(a, a),
    decreases a.len(),
{
    if a.len() > 0 {
        lemma_text_irreflexive(a.skip(1));
    }
}

/// The order of texts is transitive.
pub proof fn lemma_text_transitive(a: Seq<char>, b: Seq<char>, c: Seq<char>)
    requires
        text_less(a, b),
        text_less(b, c),
    ensures
        text_less(a, c),
    decreases a.len(),
{
    if a.len() > 0 && b.len() > 0 && c.len() > 0 && a[0] == b[0] && b[0] == c[0] {
        lemma_text_transitive(a.skip(1), b.skip(1), c.skip(1));
    }
}

/// Of two different texts one stands before the other.
pub proof fn lemma_text_total(a: Seq<char>, b: Seq<char>)
    ensures
        a == b || text_less(a, b) || text_less(b, a),
    decreases a.len(),
{
    if a.len() > 0 && b.len() > 0 && a[0] == b[0] {
        lemma_text_total(a.skip(1), b.skip(1));
        if a.skip(1) == b.skip(1) {
            assert(a =~= seq![a[0]] + a.skip(1));
            assert(b =~= seq![b[0]] + b.skip(1));
        }
    } else if a.len() == 0 && b.len() == 0 {
        assert(a =~= b);
    }
}

/// The order of pairs is irreflexive and transitive.
pub proof fn lemma_pair_order(
    a: (Seq<char>, Seq<char>),
    b: (Seq<char>, Seq<char>),
    c: (Seq<char>, Seq<char>),
)
    ensures
        !pair_less(a, a),
        pair_less(a, b) && pair_less(b, c) ==> pair_less(a, c),
{
    lemma_text_irreflexive(a.0);
    lemma_text_irreflexive(a.1);
    if pair_less(a, b) && pair_less(b, c) {
        if text_less(a.0, b.0) && text_less(b.0, c.0) {
            lemma_text_transitive(a.0, b.0, c.0);
        }
        if a.0 == b.0 && b.0 == c.0 {
            lemma_text_transitive(a.1, b.1, c.1);
        }
    }
}

/// How `a` stands to `b`.
pub fn rank(a: &str, b: &str) -> (r: Rank)
    ensures
        r is Below <==> text_less(a@, b@),
        r is Same <==> a@ == b@,
        r is Above <==> text_less(b@, a@),
{
    let x = chars_of(a);
    let y = chars_of(b);
    let mut i: usize = 0;
    proof {
        lemma_text_irreflexive(a@);
        lemma_text_total(a@, b@);
        assert(a@.skip(0) =~= a@);
        assert(b@.skip(0) =~= b@);
    }
    while i < x.len() && i < y.len() && x[i] == y[i]
        invariant
            x@ == a@,
            y@ == b@,
            i <= x@.len(),
            i <= y@.len(),
            x@.take(i as int) == y@.take(i as int),
            text_less(a@, b@) == text_less(x@.skip(i as int), y@.skip(i as int)),
            text_less(b@, a@) == text_less(y@.skip(i as int), x@.skip(i as int)),
        decreases x@.len() - i,
    {
        proof {
            assert(x@.skip(i as int).skip(1) =~= x@.skip(i + 1));
            assert(y@.skip(i as int).skip(1) =~= y@.skip(i + 1));
            assert(x@.take(i + 1) =~= x@.take(i as int).push(x@[i as int]));
            assert(y@.take(i + 1) =~= y@.take(i as int).push(y@[i as int]));
        }
        i = i + 1;
    }
    proof {
        if i == x@.len() && i == y@.len() {
            assert(x@.take(i as int) =~= x@);
            assert(y@.take(i as int) =~= y@);
        }
        lemma_text_irreflexive(b@);
    }
    if i == x.len() {
        if i == y.len() {
            Rank::Same
        } else {
            Rank::Below
        }
    } else if i == y.len() {
        Rank::Above
    } else if x[i] < y[i] {
        Rank::Below
    } else {
        Rank::Above
    }
}

/// How the pair `(a, b)` stands to the pair `(c, d)`.
pub fn pair_rank(a: &str, b: &str, c: &str, d: &str) -> (r: Rank)
    ensures
        r is Below <==> pair_less((a@, b@), (c@, d@)),
        r is Same <==> (a@, b@) == (c@, d@),
        r is Above <==> pair_less((c@, d@), (a@, b@)),
{
    match rank(a, c) {
        Rank::Same => rank(b, d),
        other => other,
    }
}

} // verus!
