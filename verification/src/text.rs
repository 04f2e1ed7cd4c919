//! Names as sequences of characters: their order, membership in a list,
//! and joining.

use vstd::prelude::*;

verus! {

/// The two names hold the same characters at every position before `i`,
/// and both are at least `i` characters long.
pub open spec fn agree_before(a: Seq<char>, b: Seq<char>, i: int) -> bool {
    &&& 0 <= i <= a.len()
    &&& i <= b.len()
    &&& forall|j: int| 0 <= j < i ==> a[j] == b[j]
}

/// Strict lexicographic order by code point: at the first position where
/// the names part, `a` has ended or holds the smaller character.
pub open spec fn precedes(a: Seq<char>, b: Seq<char>) -> bool {
    exists|i: int|
        #[trigger] agree_before(a, b, i) && i < b.len() && (i == a.len() || a[i] < b[i])
}

/// Once the names are known to part at `i`, that position alone decides
/// their order.
pub proof fn lemma_order_decided_at(a: Seq<char>, b: Seq<char>, i: int)
    requires
        agree_before(a, b, i),
        i == a.len() || i == b.len() || a[i] != b[i],
    ensures
        precedes(a, b) <==> i < b.len() && (i == a.len() || a[i] < b[i]),
        a == b <==> i == a.len() && i == b.len(),
{
    if precedes(a, b) {
        let k = choose|k: int|
            #[trigger] agree_before(a, b, k) && k < b.len() && (k == a.len() || a[k] < b[k]);
        if k < i {
            assert(a[k] == b[k]);
        } else if i < k {
            assert(a[i] == b[i]);
        }
        assert(k == i);
    }
    if i == a.len() && i == b.len() {
        assert(a =~= b);
    }
}

/// No name precedes itself.
pub proof fn lemma_precedes_irreflexive(a: Seq<char>)
    ensures
        !precedes(a, a),
{
    assert(agree_before(a, a, a.len() as int));
    lemma_order_decided_at(a, a, a.len() as int);
}

/// Of two different names one precedes the other.
pub proof fn lemma_precedes_total(a: Seq<char>, b: Seq<char>)
    ensures
        a == b || precedes(a, b) || precedes(b, a),
{
    lemma_total_from(a, b, 0);
}

proof fn lemma_total_from(a: Seq<char>, b: Seq<char>, i: int)
    requires
        agree_before(a, b, i),
    ensures
        a == b || precedes(a, b) || precedes(b, a),
    decreases a.len() - i,
{
    if i == a.len() || i == b.len() || a[i] != b[i] {
        lemma_order_decided_at(a, b, i);
        assert(agree_before(b, a, i));
        lemma_order_decided_at(b, a, i);
    } else {
        assert(agree_before(a, b, i + 1));
        lemma_total_from(a, b, i + 1);
    }
}

/// The order is transitive.
pub proof fn lemma_precedes_transitive(a: Seq<char>, b: Seq<char>, c: Seq<char>)
    requires
        precedes(a, b),
        precedes(b, c),
    ensures
        precedes(a, c),
{
    let i = choose|i: int|
        #[trigger] agree_before(a, b, i) && i < b.len() && (i == a.len() || a[i] < b[i]);
    let j = choose|j: int|
        #[trigger] agree_before(b, c, j) && j < c.len() && (j == b.len() || b[j] < c[j]);
    let k = if i <= j { i } else { j };
    assert(agree_before(a, c, k));
    if i < j {
        assert(b[i] == c[i]);
    } else if j < i {
        assert(a[j] == b[j]);
    }
}

/// Tells whether `a` comes before `b` in the order of `precedes`.
pub fn name_precedes(a: &str, b: &str) -> (r: bool)
    ensures
        r == precedes(a@, b@),
{
    let la = a.unicode_len();
    let lb = b.unicode_len();
    let mut i: usize = 0;
    while i < la && i < lb
        invariant
            la == a@.len(),
            lb == b@.len(),
            agree_before(a@, b@, i as int),
        decreases la - i,
    {
        let ca = a.get_char(i);
        let cb = b.get_char(i);
        if ca != cb {
            proof {
                lemma_order_decided_at(a@, b@, i as int);
            }
            return ca < cb;
        }
        i += 1;
    }
    proof {
        lemma_order_decided_at(a@, b@, i as int);
    }
    la < lb
}

} // verus!
