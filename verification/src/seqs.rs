//! Facts about sequences that several modules need.
use vstd::prelude::*;

verus! {

/// What a filter keeps satisfies it and comes from the sequence.
pub proof fn lemma_kept<A>(s: Seq<A>, keep: spec_fn(A) -> bool)
    ensures
        forall|i: int|
            0 <= i < s.filter(keep).len() ==> keep(#[trigger] s.filter(keep)[i]) && s.contains(
                s.filter(keep)[i],
            ),
    decreases s.len(),
{
    reveal(Seq::filter);
    if s.len() > 0 {
        let front = s.drop_last();
        lemma_kept(front, keep);
        assert forall|i: int| 0 <= i < s.filter(keep).len() implies keep(
            #[trigger] s.filter(keep)[i],
        ) && s.contains(s.filter(keep)[i]) by {
            let x = s.filter(keep)[i];
            if i < front.filter(keep).len() {
                assert(x == front.filter(keep)[i]);
                let j = choose|j: int| 0 <= j < front.len() && front[j] == x;
                assert(s[j] == x);
            } else {
                assert(x == s[s.len() - 1]);
            }
        }
    }
}

/// Filtering one more item.
pub proof fn lemma_filter_push<A>(s: Seq<A>, x: A, keep: spec_fn(A) -> bool)
    ensures
        s.push(x).filter(keep) == (if keep(x) {
            s.filter(keep).push(x)
        } else {
            s.filter(keep)
        }),
{
    reveal(Seq::filter);
    assert(s.push(x).drop_last() =~= s);
}

/// Filtering one item more at the front.
pub proof fn lemma_filter_front<A>(x: A, s: Seq<A>, keep: spec_fn(A) -> bool)
    ensures
        (seq![x] + s).filter(keep) == (if keep(x) {
            seq![x] + s.filter(keep)
        } else {
            s.filter(keep)
        }),
{
    Seq::filter_distributes_over_add(seq![x], s, keep);
    let none = Seq::<A>::empty();
    lemma_filter_push(none, x, keep);
    assert(none.push(x) =~= seq![x]);
    assert(none.filter(keep) =~= none) by {
        reveal(Seq::filter);
    }
    assert(none + s.filter(keep) =~= s.filter(keep));
}

/// The numbers below `n` that `p` holds of, in their order.
pub open spec fn positions(n: nat, p: spec_fn(int) -> bool) -> Seq<int> {
    Seq::new(n, |k: int| k).filter(p)
}

/// What `positions` lists: numbers below `n` that `p` holds of, all of them, each once and in order.
pub proof fn lemma_positions(n: nat, p: spec_fn(int) -> bool)
    ensures
        forall|m: int|
            0 <= m < positions(n, p).len() ==> 0 <= #[trigger] positions(n, p)[m] < n && p(
                positions(n, p)[m],
            ),
        forall|k: int| 0 <= k < n && p(k) ==> #[trigger] positions(n, p).contains(k),
        forall|i: int, j: int|
            0 <= i < j < positions(n, p).len() ==> positions(n, p)[i] < positions(n, p)[j],
        positions(n, p).len() <= n,
    decreases n,
{
    if n == 0 {
        reveal(Seq::filter);
        assert(Seq::new(0, |k: int| k).filter(p) =~= Seq::<int>::empty());
    } else {
        let before = positions((n - 1) as nat, p);
        lemma_positions((n - 1) as nat, p);
        lemma_positions_push((n - 1) as nat, p);
        let all = positions(n, p);
        assert forall|k: int| 0 <= k < n && p(k) implies #[trigger] all.contains(k) by {
            if k < n - 1 {
                assert(before.contains(k));
                let m = before.index_of(k);
                assert(all[m] == k);
            } else {
                assert(all[all.len() - 1] == k);
            }
        }
    }
}

/// One more number.
pub proof fn lemma_positions_push(n: nat, p: spec_fn(int) -> bool)
    ensures
        positions(n + 1, p) == (if p(n as int) {
            positions(n, p).push(n as int)
        } else {
            positions(n, p)
        }),
{
    assert(Seq::new(n + 1, |k: int| k) =~= Seq::new(n, |k: int| k).push(n as int));
    lemma_filter_push(Seq::new(n, |k: int| k), n as int, p);
}

/// What a filter keeps is what stands at the positions whose items it holds of.
pub proof fn lemma_filter_positions<A>(s: Seq<A>, keep: spec_fn(A) -> bool)
    ensures
        s.filter(keep) == positions(s.len(), |k: int| keep(s[k])).map_values(|k: int| s[k]),
    decreases s.len(),
{
    if s.len() == 0 {
        reveal(Seq::filter);
        assert(s.filter(keep) =~= positions(0, |k: int| keep(s[k])).map_values(|k: int| s[k]));
    } else {
        let front = s.drop_last();
        let n = front.len();
        let p = |k: int| keep(s[k]);
        let q = |k: int| keep(front[k]);
        lemma_filter_positions(front, keep);
        lemma_same_positions(n, p, q);
        lemma_positions(n, p);
        lemma_positions_push(n, p);
        assert(s =~= front.push(s.last()));
        lemma_filter_push(front, s.last(), keep);
        assert(positions(n, p).map_values(|k: int| s[k]) =~= positions(n, q).map_values(
            |k: int| front[k],
        ));
        assert(s.filter(keep) =~= positions(s.len(), p).map_values(|k: int| s[k]));
    }
}

/// What agrees below `n` has the same positions there.
pub proof fn lemma_same_positions(n: nat, p: spec_fn(int) -> bool, q: spec_fn(int) -> bool)
    requires
        forall|k: int| 0 <= k < n ==> (#[trigger] p(k)) == q(k),
    ensures
        positions(n, p) == positions(n, q),
    decreases n,
{
    if n == 0 {
        reveal(Seq::filter);
        assert(positions(0, p) =~= positions(0, q));
    } else {
        lemma_same_positions((n - 1) as nat, p, q);
        lemma_positions_push((n - 1) as nat, p);
        lemma_positions_push((n - 1) as nat, q);
        assert(p(n - 1) == q(n - 1));
    }
}

/// Nothing is left when `p` holds of nothing.
pub proof fn lemma_none_kept<A>(s: Seq<A>, p: spec_fn(A) -> bool)
    requires
        forall|i: int| 0 <= i < s.len() ==> !p(#[trigger] s[i]),
    ensures
        s.filter(p) == Seq::<A>::empty(),
    decreases s.len(),
{
    reveal(Seq::filter);
    if s.len() > 0 {
        let front = s.drop_last();
        assert forall|i: int| 0 <= i < front.len() implies !p(#[trigger] front[i]) by {
            assert(front[i] == s[i]);
        }
        lemma_none_kept(front, p);
        assert(!p(s[s.len() - 1]));
    }
}

} // verus!
