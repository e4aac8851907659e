//! Lexicographic order on byte strings.
//!
//! Symbols and the keys of a text-keyed map are ordered byte by byte, the
//! way `[u8]` and `str` are ordered.

use vstd::prelude::*;

verus! {

/// Where one byte string stands relative to another.
#[derive(Debug, Clone, Copy, PartialEq, Eq, Structural)]
pub enum Placement {
    /// It sorts first.
    Before,
    /// The two hold the same bytes.
    Same,
    /// It sorts last.
    After,
}

/// `a` and `b` agree on their first `k` bytes.
pub open spec fn common_prefix(a: Seq<u8>, b: Seq<u8>, k: int) -> bool {
    &&& 0 <= k <= a.len()
    &&& k <= b.len()
    &&& forall|m: int| 0 <= m < k ==> a[m] == b[m]
}

/// `a` and `b` agree on their first `k` bytes, and there `a` ends while `b`
/// goes on, or `a` holds the smaller byte.
pub open spec fn precedes_at(a: Seq<u8>, b: Seq<u8>, k: int) -> bool {
    &&& common_prefix(a, b, k)
    &&& (k == a.len() && k < b.len()) || (k < a.len() && k < b.len() && a[k] < b[k])
}

/// `a` sorts strictly before `b` in lexicographic order.
pub open spec fn precedes(a: Seq<u8>, b: Seq<u8>) -> bool {
    exists|k: int| #[trigger] precedes_at(a, b, k)
}

/// No byte string sorts before itself, and no two sort before each other.
pub proof fn lemma_precedes_exclusive(a: Seq<u8>, b: Seq<u8>)
    ensures
        precedes(a, b) ==> a != b,
        !(precedes(a, b) && precedes(b, a)),
{
    if precedes(a, b) {
        let i = choose|k: int| precedes_at(a, b, k);
        assert(precedes_at(a, b, i));
        if precedes(b, a) {
            let j = choose|k: int| precedes_at(b, a, k);
            assert(precedes_at(b, a, j));
            if i < j {
                assert(b[i] == a[i]);
            } else if j < i {
                assert(a[j] == b[j]);
            }
        }
    }
}

/// The order is transitive.
pub proof fn lemma_precedes_transitive(a: Seq<u8>, b: Seq<u8>, c: Seq<u8>)
    requires
        precedes(a, b),
        precedes(b, c),
    ensures
        precedes(a, c),
{
    let i = choose|k: int| precedes_at(a, b, k);
    let j = choose|k: int| precedes_at(b, c, k);
    assert(precedes_at(a, b, i));
    assert(precedes_at(b, c, j));
    let k = if i <= j { i } else { j };
    assert forall|m: int| 0 <= m < k implies a[m] == c[m] by {
        assert(a[m] == b[m]);
        assert(b[m] == c[m]);
    }
    if i < j {
        assert(b[i] == c[i]);
    } else if j < i {
        assert(a[j] == b[j]);
    }
    assert(precedes_at(a, c, k));
}

/// Any two distinct byte strings are ordered one way or the other.
pub proof fn lemma_precedes_total(a: Seq<u8>, b: Seq<u8>)
    ensures
        a == b || precedes(a, b) || precedes(b, a),
    decreases a.len(),
{
    if a.len() == 0 {
        if b.len() == 0 {
            assert(a =~= b);
        } else {
            assert(precedes_at(a, b, 0));
        }
    } else if b.len() == 0 {
        assert(precedes_at(b, a, 0));
    } else if a[0] < b[0] {
        assert(precedes_at(a, b, 0));
    } else if b[0] < a[0] {
        assert(precedes_at(b, a, 0));
    } else {
        let ta = a.drop_first();
        let tb = b.drop_first();
        lemma_precedes_total(ta, tb);
        if ta == tb {
            assert forall|m: int| 0 <= m < a.len() implies a[m] == b[m] by {
                if m > 0 {
                    assert(ta[m - 1] == tb[m - 1]);
                }
            }
            assert(a.len() == ta.len() + 1 && b.len() == tb.len() + 1);
            assert(a =~= b);
        } else if precedes(ta, tb) {
            let k = choose|k: int| precedes_at(ta, tb, k);
            assert(precedes_at(ta, tb, k));
            assert forall|m: int| 0 <= m < k + 1 implies a[m] == b[m] by {
                if m > 0 {
                    assert(ta[m - 1] == tb[m - 1]);
                }
            }
            assert(k < tb.len() ==> tb[k] == b[k + 1]);
            assert(k < ta.len() ==> ta[k] == a[k + 1]);
            assert(precedes_at(a, b, k + 1));
        } else {
            let k = choose|k: int| precedes_at(tb, ta, k);
            assert(precedes_at(tb, ta, k));
            assert forall|m: int| 0 <= m < k + 1 implies b[m] == a[m] by {
                if m > 0 {
                    assert(tb[m - 1] == ta[m - 1]);
                }
            }
            assert(k < tb.len() ==> tb[k] == b[k + 1]);
            assert(k < ta.len() ==> ta[k] == a[k + 1]);
            assert(precedes_at(b, a, k + 1));
        }
    }
}

/// Compares two byte strings in lexicographic order.
pub fn compare_bytes(a: &[u8], b: &[u8]) -> (r: Placement)
    ensures
        r is Before <==> precedes(a@, b@),
        r is Same <==> a@ == b@,
        r is After <==> precedes(b@, a@),
{
    proof {
        lemma_precedes_exclusive(a@, b@);
        lemma_precedes_exclusive(b@, a@);
    }
    let mut i: usize = 0;
    while i < a.len() && i < b.len()
        invariant
            common_prefix(a@, b@, i as int),
        decreases a.len() - i,
    {
        if a[i] < b[i] {
            assert(precedes_at(a@, b@, i as int));
            return Placement::Before;
        }
        if a[i] > b[i] {
            assert(precedes_at(b@, a@, i as int));
            return Placement::After;
        }
        i += 1;
    }
    if a.len() < b.len() {
        assert(precedes_at(a@, b@, i as int));
        Placement::Before
    } else if a.len() > b.len() {
        assert(precedes_at(b@, a@, i as int));
        Placement::After
    } else {
        assert(a@ =~= b@);
        Placement::Same
    }
}

} // verus!
