//! Lists without repetitions.
use vstd::prelude::*;

verus! {

/// A new element at the end of a list without repetitions.
pub(crate) proof fn lemma_push<A>(list: Seq<A>, x: A)
    requires
        list.no_duplicates(),
        !list.contains(x),
    ensures
        list.push(x).no_duplicates(),
        forall|a: A| #[trigger] list.push(x).contains(a) <==> list.contains(a) || a == x,
{
    let longer = list.push(x);
    assert forall|i: int, j: int| 0 <= i < longer.len() && 0 <= j < longer.len() && i
        != j implies longer[i] != longer[j] by {
        if i == list.len() {
            assert(list.contains(list[j]));
        } else if j == list.len() {
            assert(list.contains(list[i]));
        }
    }
    assert forall|a: A| #[trigger] longer.contains(a) <==> list.contains(a) || a == x by {
        assert(longer[list.len() as int] == x);
        if list.contains(a) {
            let k = choose|k: int| 0 <= k < list.len() && list[k] == a;
            assert(longer[k] == a);
        }
    }
}

/// A prefix of a list without repetitions, and one element more.
pub(crate) proof fn lemma_take<A>(list: Seq<A>, n: int)
    requires
        list.no_duplicates(),
        0 <= n < list.len(),
    ensures
        !list.take(n).contains(list[n]),
        list.take(n + 1) == list.take(n).push(list[n]),
        forall|a: A| #[trigger]
            list.take(n + 1).contains(a) <==> list.take(n).contains(a) || a == list[n],
        list.take(n + 1).to_set() == list.take(n).to_set().insert(list[n]),
{
    let taken = list.take(n);
    let more = list.take(n + 1);
    if taken.contains(list[n]) {
        let j = choose|j: int| 0 <= j < taken.len() && taken[j] == list[n];
        assert(list[j] == list[n]);
    }
    assert(more =~= taken.push(list[n]));
    assert(taken.no_duplicates());
    lemma_push(taken, list[n]);
    assert forall|a: A| #[trigger] more.to_set().contains(a) <==> taken.to_set().insert(
        list[n],
    ).contains(a) by {
        assert(more.contains(a) <==> taken.contains(a) || a == list[n]);
    }
    assert(more.to_set() =~= taken.to_set().insert(list[n]));
}

} // verus!
