use crate::entry::ResolvedEntry;
use vstd::prelude::*;
use vstd::set_lib::{lemma_int_range, lemma_len_subset, lemma_subset_equality, set_int_range};

verus! {

/// In `out`, position `i` comes rightly before position `j`: a larger offset
/// first, and among equal offsets the one that came first in the input (`perm`
/// maps each position of `out` to its position in the input).
pub open spec fn placed_before(out: Seq<ResolvedEntry>, perm: Seq<int>, i: int, j: int) -> bool {
    ||| out[i].offset_seconds > out[j].offset_seconds
    ||| (out[i].offset_seconds == out[j].offset_seconds && perm[i] < perm[j])
}

/// `out` holds the entries of `input`, rearranged by `perm`, in descending order of
/// offset, entries of equal offset kept in their input order.
pub open spec fn offset_order_by(input: Seq<ResolvedEntry>, perm: Seq<int>, out: Seq<ResolvedEntry>) -> bool {
    &&& out.len() == input.len()
    &&& perm.len() == input.len()
    &&& forall|i: int|
        0 <= i < out.len() ==> 0 <= #[trigger] perm[i] < input.len() && out[i] == input[perm[i]]
    &&& forall|i: int, j: int| 0 <= i < j < out.len() ==> placed_before(out, perm, i, j)
}

/// `out` is `input` sorted stably by descending UTC offset.
pub open spec fn is_offset_order(input: Seq<ResolvedEntry>, out: Seq<ResolvedEntry>) -> bool {
    exists|perm: Seq<int>| offset_order_by(input, perm, out)
}

/// Sorts the entries by descending UTC offset. The sort is stable: entries with
/// equal offsets keep their input order, so the result depends on the input alone.
pub fn sort_by_offset(entries: Vec<ResolvedEntry>) -> (r: Vec<ResolvedEntry>)
    ensures
        is_offset_order(entries@, r@),
{
    let ghost input = entries@;
    let mut rest = entries;
    let mut out: Vec<ResolvedEntry> = Vec::new();
    let ghost mut perm: Seq<int> = Seq::empty();
    while rest.len() > 0
        invariant
            rest@ == input.subrange(0, rest@.len() as int),
            out@.len() + rest@.len() == input.len(),
            perm.len() == out@.len(),
            forall|i: int|
                0 <= i < out@.len() ==> rest@.len() <= #[trigger] perm[i] < input.len() && out@[i]
                    == input[perm[i]],
            forall|i: int, j: int| 0 <= i < j < out@.len() ==> placed_before(out@, perm, i, j),
        decreases rest@.len(),
    {
        let ghost m = rest@.len() - 1;
        let e = rest.pop().unwrap();
        assert(e == input[m]);
        let mut p: usize = 0;
        while p < out.len() && out[p].offset_seconds > e.offset_seconds
            invariant
                p <= out@.len(),
                forall|k: int| 0 <= k < p ==> (#[trigger] out@[k]).offset_seconds > e.offset_seconds,
            decreases out@.len() - p,
        {
            p += 1;
        }
        let ghost old_out = out@;
        let ghost old_perm = perm;
        out.insert(p, e);
        proof {
            perm = perm.insert(p as int, m);
            assert forall|i: int, j: int| 0 <= i < j < out@.len() implies placed_before(out@, perm, i, j) by {
                if j < p {
                    assert(placed_before(old_out, old_perm, i, j));
                } else if j == p {
                } else if i < p {
                    assert(placed_before(old_out, old_perm, i, j - 1));
                } else if i == p {
                    if p < j - 1 {
                        assert(placed_before(old_out, old_perm, p as int, j - 1));
                    }
                } else {
                    assert(placed_before(old_out, old_perm, i - 1, j - 1));
                }
            }
            assert forall|i: int| 0 <= i < out@.len() implies rest@.len() <= #[trigger] perm[i] < input.len()
                && out@[i] == input[perm[i]] by {
                if i < p {
                } else if i > p {
                    assert(old_perm[i - 1] == perm[i]);
                }
            }
        }
    }
    proof {
        assert(offset_order_by(input, perm, out@));
    }
    out
}

/// Input position `x` belongs before input position `y`: larger offset first, then
/// input order.
pub open spec fn key_less(input: Seq<ResolvedEntry>, x: int, y: int) -> bool {
    ||| input[x].offset_seconds > input[y].offset_seconds
    ||| (input[x].offset_seconds == input[y].offset_seconds && x < y)
}

/// `p` lists input positions in strictly increasing key order.
pub open spec fn key_increasing(input: Seq<ResolvedEntry>, p: Seq<int>) -> bool {
    forall|i: int, j: int| 0 <= i < j < p.len() ==> key_less(input, #[trigger] p[i], #[trigger] p[j])
}

proof fn lemma_same_members_equal(input: Seq<ResolvedEntry>, p: Seq<int>, q: Seq<int>)
    requires
        p.len() == q.len(),
        key_increasing(input, p),
        key_increasing(input, q),
        forall|x: int| p.contains(x) <==> q.contains(x),
    ensures
        p == q,
    decreases p.len(),
{
    if p.len() > 0 {
        assert(p.contains(p[0]));
        let j = choose|j: int| 0 <= j < q.len() && q[j] == p[0];
        assert(q.contains(q[0]));
        let i = choose|i: int| 0 <= i < p.len() && p[i] == q[0];
        if j > 0 {
            assert(key_less(input, q[0], q[j]));
            if i > 0 {
                assert(key_less(input, p[0], p[i]));
            }
        }
        assert(p[0] == q[0]);
        let tp = p.drop_first();
        let tq = q.drop_first();
        assert forall|x: int| tp.contains(x) implies tq.contains(x) by {
            let a = choose|a: int| 0 <= a < tp.len() && tp[a] == x;
            assert(key_less(input, p[0], p[a + 1]));
            assert(q.contains(x));
            let b = choose|b: int| 0 <= b < q.len() && q[b] == x;
            if b == 0 {
                assert(false);
            }
            assert(tq[b - 1] == x);
        }
        assert forall|x: int| tq.contains(x) implies tp.contains(x) by {
            let a = choose|a: int| 0 <= a < tq.len() && tq[a] == x;
            assert(key_less(input, q[0], q[a + 1]));
            assert(p.contains(x));
            let b = choose|b: int| 0 <= b < p.len() && p[b] == x;
            if b == 0 {
                assert(false);
            }
            assert(tp[b - 1] == x);
        }
        lemma_same_members_equal(input, tp, tq);
        assert(p =~= seq![p[0]] + tp);
        assert(q =~= seq![q[0]] + tq);
    }
}

proof fn lemma_order_covers_input(input: Seq<ResolvedEntry>, perm: Seq<int>, out: Seq<ResolvedEntry>)
    requires
        offset_order_by(input, perm, out),
    ensures
        key_increasing(input, perm),
        forall|x: int| 0 <= x < input.len() <==> perm.contains(x),
{
    assert forall|i: int, j: int| 0 <= i < j < perm.len() implies key_less(input, #[trigger] perm[i], #[trigger] perm[j]) by {
        assert(placed_before(out, perm, i, j));
    }
    assert(perm.no_duplicates()) by {
        assert forall|i: int, j: int| 0 <= i < perm.len() && 0 <= j < perm.len() && i != j implies perm[i] != perm[j] by {
            if i < j {
                assert(key_less(input, perm[i], perm[j]));
            } else {
                assert(key_less(input, perm[j], perm[i]));
            }
        }
    }
    perm.unique_seq_to_set();
    let range = set_int_range(0, input.len() as int);
    lemma_int_range(0, input.len() as int);
    assert(perm.to_set().subset_of(range));
    lemma_len_subset(perm.to_set(), range);
    lemma_subset_equality(perm.to_set(), range);
    assert forall|x: int| 0 <= x < input.len() implies perm.contains(x) by {
        assert(range.contains(x));
        assert(perm.to_set().contains(x));
    }
}

/// Sorting by offset is deterministic: the same input has only one stable order by
/// descending offset, so every run lists entries of equal offset alike.
pub proof fn lemma_offset_order_unique(input: Seq<ResolvedEntry>, a: Seq<ResolvedEntry>, b: Seq<ResolvedEntry>)
    requires
        is_offset_order(input, a),
        is_offset_order(input, b),
    ensures
        a == b,
{
    let pa = choose|perm: Seq<int>| offset_order_by(input, perm, a);
    let pb = choose|perm: Seq<int>| offset_order_by(input, perm, b);
    lemma_order_covers_input(input, pa, a);
    lemma_order_covers_input(input, pb, b);
    lemma_same_members_equal(input, pa, pb);
    assert forall|i: int| 0 <= i < a.len() implies a[i] == b[i] by {
        assert(a[i] == input[pa[i]]);
        assert(b[i] == input[pb[i]]);
    }
    assert(a =~= b);
}

} // verus!
