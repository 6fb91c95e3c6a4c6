//! Facts about filtered sequences that the handlers' proofs share.

use vstd::prelude::*;

verus! {

/// One more element of a sequence is filtered on its own.
pub proof fn lemma_filter_take_next<A>(s: Seq<A>, pred: spec_fn(A) -> bool, i: int)
    requires
        0 <= i < s.len(),
    ensures
        s.take(i + 1).filter(pred) == if pred(s[i]) {
            s.take(i).filter(pred).push(s[i])
        } else {
            s.take(i).filter(pred)
        },
{
    reveal(Seq::filter);
    assert(s.take(i + 1).drop_last() =~= s.take(i));
}

/// A filtered sequence holds exactly the elements of the sequence that pass
/// the test.
pub proof fn lemma_filter_members<A>(s: Seq<A>, pred: spec_fn(A) -> bool, x: A)
    ensures
        s.filter(pred).contains(x) <==> s.contains(x) && pred(x),
    decreases s.len(),
{
    reveal(Seq::filter);
    if s.len() > 0 {
        let rest = s.drop_last();
        let last = s.last();
        let kept = rest.filter(pred);
        let all = s.filter(pred);
        lemma_filter_members(rest, pred, x);
        if all.contains(x) {
            let i = choose|i: int| 0 <= i < all.len() && all[i] == x;
            if pred(last) && i == kept.len() {
                assert(s[s.len() - 1] == x);
            } else {
                assert(kept[i] == x);
                assert(kept.contains(x));
                let j = choose|j: int| 0 <= j < rest.len() && rest[j] == x;
                assert(s[j] == x);
            }
        }
        if s.contains(x) && pred(x) {
            let i = choose|i: int| 0 <= i < s.len() && s[i] == x;
            if i == s.len() - 1 {
                assert(all == kept.push(last));
                assert(all[kept.len() as int] == x);
            } else {
                assert(rest[i] == x);
                assert(rest.contains(x));
                let j = choose|j: int| 0 <= j < kept.len() && kept[j] == x;
                assert(all[j] == x);
            }
        }
    }
}

/// What the first `i + 1` elements contain is what the first `i` contain,
/// and the next one.
pub proof fn lemma_take_next_members<A>(s: Seq<A>, i: int, x: A)
    requires
        0 <= i < s.len(),
    ensures
        s.take(i + 1).contains(x) <==> s.take(i).contains(x) || s[i] == x,
{
    let more = s.take(i + 1);
    let less = s.take(i);
    if more.contains(x) {
        let j = choose|j: int| 0 <= j < more.len() && more[j] == x;
        if j < i {
            assert(less[j] == x);
        }
    }
    if less.contains(x) {
        let j = choose|j: int| 0 <= j < less.len() && less[j] == x;
        assert(more[j] == x);
    }
    if s[i] == x {
        assert(more[i] == x);
    }
}

} // verus!
