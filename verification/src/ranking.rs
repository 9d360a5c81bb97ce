//! Ranking by size: the largest first, and of two items of one size the one
//! that came first.

use vstd::prelude::*;

verus! {

/// A value that is ranked by a size.
pub trait Ranked: View {
    /// The size by which a value is ranked, read from its mathematical
    /// counterpart.
    spec fn size_of(model: Self::V) -> int;

    /// Reads the size.
    fn total_size(&self) -> (size: i128)
        ensures
            size == Self::size_of(self@),
    ;
}

/// The mathematical counterparts of a sequence of values, in their order.
pub open spec fn models<T: View>(items: Seq<T>) -> Seq<T::V> {
    Seq::new(items.len(), |i: int| items[i]@)
}

/// A ranking with one more item: `x` stands behind every item that is as
/// large as it or larger, and in front of every smaller one.
pub open spec fn insert_ranked<T: Ranked>(ranking: Seq<T::V>, x: T::V) -> Seq<T::V>
    decreases ranking.len(),
{
    if ranking.len() == 0 {
        seq![x]
    } else if T::size_of(ranking.last()) >= T::size_of(x) {
        ranking.push(x)
    } else {
        insert_ranked::<T>(ranking.drop_last(), x).push(ranking.last())
    }
}

/// The ranking of `items`: each item in turn takes its place among those
/// before it.
pub open spec fn ranked<T: Ranked>(items: Seq<T::V>) -> Seq<T::V>
    decreases items.len(),
{
    if items.len() == 0 {
        Seq::empty()
    } else {
        insert_ranked::<T>(ranked::<T>(items.drop_last()), items.last())
    }
}

/// Whether no item is followed by a larger one.
pub open spec fn descending<T: Ranked>(items: Seq<T::V>) -> bool {
    forall|i: int, j: int|
        0 <= i <= j < items.len() ==> T::size_of(#[trigger] items[i]) >= T::size_of(
            #[trigger] items[j],
        )
}

/// The items of one size, in their order.
pub open spec fn of_size<T: Ranked>(items: Seq<T::V>, size: int) -> Seq<T::V>
    decreases items.len(),
{
    if items.len() == 0 {
        Seq::empty()
    } else if T::size_of(items.last()) == size {
        of_size::<T>(items.drop_last(), size).push(items.last())
    } else {
        of_size::<T>(items.drop_last(), size)
    }
}

/// Where `x` comes to stand in a ranking: the ranking is cut in two, every
/// item of the front is at least as large as `x`, every item of the back is
/// smaller, and `x` goes between them.
pub proof fn lemma_insert_ranked_splits<T: Ranked>(ranking: Seq<T::V>, x: T::V) -> (at: int)
    ensures
        0 <= at <= ranking.len(),
        insert_ranked::<T>(ranking, x) == ranking.insert(at, x),
        forall|i: int| at <= i < ranking.len() ==> T::size_of(#[trigger] ranking[i]) < T::size_of(x),
        at > 0 ==> T::size_of(ranking[at - 1]) >= T::size_of(x),
    decreases ranking.len(),
{
    if ranking.len() == 0 {
        assert(seq![x] =~= ranking.insert(0, x));
        0
    } else if T::size_of(ranking.last()) >= T::size_of(x) {
        assert(ranking.push(x) =~= ranking.insert(ranking.len() as int, x));
        ranking.len() as int
    } else {
        let front = ranking.drop_last();
        let at = lemma_insert_ranked_splits::<T>(front, x);
        assert(front.insert(at, x).push(ranking.last()) =~= ranking.insert(at, x));
        assert forall|i: int| at <= i < ranking.len() implies T::size_of(#[trigger] ranking[i])
            < T::size_of(x) by {
            if i < front.len() {
                assert(ranking[i] == front[i]);
            }
        }
        if at > 0 {
            assert(ranking[at - 1] == front[at - 1]);
        }
        at
    }
}

/// Inserting into a ranking that descends gives one that descends.
pub proof fn lemma_insert_ranked_descends<T: Ranked>(ranking: Seq<T::V>, x: T::V)
    requires
        descending::<T>(ranking),
    ensures
        descending::<T>(insert_ranked::<T>(ranking, x)),
{
    let at = lemma_insert_ranked_splits::<T>(ranking, x);
    let after = ranking.insert(at, x);
    assert forall|i: int, j: int| 0 <= i <= j < after.len() implies T::size_of(
        #[trigger] after[i],
    ) >= T::size_of(#[trigger] after[j]) by {
        if i < at && j > at {
            assert(after[i] == ranking[i]);
            assert(after[j] == ranking[j - 1]);
            assert(T::size_of(ranking[i]) >= T::size_of(ranking[at - 1]));
        } else if i < at && j == at {
            assert(after[i] == ranking[i]);
            assert(T::size_of(ranking[i]) >= T::size_of(ranking[at - 1]));
        } else if i < at {
            assert(after[i] == ranking[i]);
            assert(after[j] == ranking[j]);
        } else if i == at && j > at {
            assert(after[j] == ranking[j - 1]);
        } else if i > at {
            assert(after[i] == ranking[i - 1]);
            assert(after[j] == ranking[j - 1]);
        }
    }
}

/// A ranking descends: no item is followed by a larger one.
pub proof fn lemma_ranked_descends<T: Ranked>(items: Seq<T::V>)
    ensures
        descending::<T>(ranked::<T>(items)),
    decreases items.len(),
{
    if items.len() > 0 {
        lemma_ranked_descends::<T>(items.drop_last());
        lemma_insert_ranked_descends::<T>(ranked::<T>(items.drop_last()), items.last());
    }
}

/// Inserting an item adds it behind the items of its own size and changes
/// nothing among the items of another size.
pub proof fn lemma_insert_ranked_of_size<T: Ranked>(ranking: Seq<T::V>, x: T::V, size: int)
    ensures
        of_size::<T>(insert_ranked::<T>(ranking, x), size) == if T::size_of(x) == size {
            of_size::<T>(ranking, size).push(x)
        } else {
            of_size::<T>(ranking, size)
        },
    decreases ranking.len(),
{
    let after = insert_ranked::<T>(ranking, x);
    if ranking.len() == 0 {
        assert(after.drop_last() =~= ranking);
        assert(after.last() == x);
    } else if T::size_of(ranking.last()) >= T::size_of(x) {
        assert(after.drop_last() =~= ranking);
        assert(after.last() == x);
    } else {
        let front = insert_ranked::<T>(ranking.drop_last(), x);
        lemma_insert_ranked_of_size::<T>(ranking.drop_last(), x, size);
        assert(after.drop_last() =~= front);
        assert(after.last() == ranking.last());
    }
}

/// Ranking is stable: the items of one size stand in the ranking in the
/// order in which they came.
pub proof fn lemma_ranked_is_stable<T: Ranked>(items: Seq<T::V>, size: int)
    ensures
        of_size::<T>(ranked::<T>(items), size) == of_size::<T>(items, size),
    decreases items.len(),
{
    if items.len() > 0 {
        lemma_ranked_is_stable::<T>(items.drop_last(), size);
        lemma_insert_ranked_of_size::<T>(ranked::<T>(items.drop_last()), items.last(), size);
    }
}

/// A ranking has as many items as were ranked.
pub proof fn lemma_ranked_len<T: Ranked>(items: Seq<T::V>)
    ensures
        ranked::<T>(items).len() == items.len(),
    decreases items.len(),
{
    if items.len() > 0 {
        lemma_ranked_len::<T>(items.drop_last());
        let at = lemma_insert_ranked_splits::<T>(ranked::<T>(items.drop_last()), items.last());
    }
}

/// What holds of every item holds of every item of the ranking.
pub proof fn lemma_ranked_keeps<T: Ranked>(items: Seq<T::V>, holds: spec_fn(T::V) -> bool)
    requires
        forall|i: int| 0 <= i < items.len() ==> holds(#[trigger] items[i]),
    ensures
        forall|i: int|
            0 <= i < ranked::<T>(items).len() ==> holds(#[trigger] ranked::<T>(items)[i]),
    decreases items.len(),
{
    if items.len() > 0 {
        let front = items.drop_last();
        assert forall|i: int| 0 <= i < front.len() implies holds(#[trigger] front[i]) by {
            assert(front[i] == items[i]);
        }
        lemma_ranked_keeps::<T>(front, holds);
        let ranking = ranked::<T>(front);
        let at = lemma_insert_ranked_splits::<T>(ranking, items.last());
        let after = ranked::<T>(items);
        assert(holds(items[items.len() - 1]));
        assert forall|i: int| 0 <= i < after.len() implies holds(#[trigger] after[i]) by {
            if i < at {
                assert(after[i] == ranking[i]);
            } else if i > at {
                assert(after[i] == ranking[i - 1]);
            }
        }
    }
}

/// The items of one size end with the last item, where that has the size.
proof fn lemma_of_size_last<T: Ranked>(items: Seq<T::V>, size: int)
    requires
        items.len() > 0,
    ensures
        T::size_of(items.last()) == size ==> of_size::<T>(items, size).len() > 0 && of_size::<T>(
            items,
            size,
        ).last() == items.last() && of_size::<T>(items, size).drop_last() == of_size::<T>(
            items.drop_last(),
            size,
        ),
        T::size_of(items.last()) != size ==> of_size::<T>(items, size) == of_size::<T>(
            items.drop_last(),
            size,
        ),
{
    if T::size_of(items.last()) == size {
        let front = of_size::<T>(items.drop_last(), size);
        assert(front.push(items.last()).drop_last() =~= front);
    }
}

/// Where there are items of one size, one of the items has that size.
proof fn lemma_of_size_member<T: Ranked>(items: Seq<T::V>, size: int) -> (at: int)
    requires
        of_size::<T>(items, size).len() > 0,
    ensures
        0 <= at < items.len(),
        T::size_of(items[at]) == size,
    decreases items.len(),
{
    if T::size_of(items.last()) == size {
        items.len() - 1
    } else {
        lemma_of_size_member::<T>(items.drop_last(), size)
    }
}

/// Two sequences that both descend, and that hold for each size the same
/// items in the same order, are one sequence.
pub proof fn lemma_ranking_is_unique<T: Ranked>(a: Seq<T::V>, b: Seq<T::V>)
    requires
        descending::<T>(a),
        descending::<T>(b),
        forall|size: int| #[trigger] of_size::<T>(a, size) == of_size::<T>(b, size),
    ensures
        a == b,
    decreases a.len(),
{
    if a.len() == 0 {
        if b.len() > 0 {
            lemma_of_size_last::<T>(b, T::size_of(b.last()));
            assert(of_size::<T>(a, T::size_of(b.last())).len() == 0);
        }
        assert(a =~= b);
    } else {
        let k = T::size_of(a.last());
        lemma_of_size_last::<T>(a, k);
        assert(of_size::<T>(a, k) == of_size::<T>(b, k));
        let i = lemma_of_size_member::<T>(b, k);
        let m = T::size_of(b.last());
        lemma_of_size_last::<T>(b, m);
        assert(of_size::<T>(a, m) == of_size::<T>(b, m));
        let j = lemma_of_size_member::<T>(a, m);
        assert(T::size_of(a[j]) >= T::size_of(a[a.len() - 1]));
        assert(T::size_of(b[i]) >= T::size_of(b[b.len() - 1]));
        assert(m == k);
        assert(a.last() == b.last());
        let front_a = a.drop_last();
        let front_b = b.drop_last();
        assert forall|size: int| #[trigger]
            of_size::<T>(front_a, size) == of_size::<T>(front_b, size) by {
            lemma_of_size_last::<T>(a, size);
            lemma_of_size_last::<T>(b, size);
            assert(of_size::<T>(a, size) == of_size::<T>(b, size));
        }
        assert(descending::<T>(front_a)) by {
            assert forall|i: int, j: int| 0 <= i <= j < front_a.len() implies T::size_of(
                #[trigger] front_a[i],
            ) >= T::size_of(#[trigger] front_a[j]) by {
                assert(front_a[i] == a[i] && front_a[j] == a[j]);
            }
        }
        assert(descending::<T>(front_b)) by {
            assert forall|i: int, j: int| 0 <= i <= j < front_b.len() implies T::size_of(
                #[trigger] front_b[i],
            ) >= T::size_of(#[trigger] front_b[j]) by {
                assert(front_b[i] == b[i] && front_b[j] == b[j]);
            }
        }
        lemma_ranking_is_unique::<T>(front_a, front_b);
        assert(a =~= front_a.push(a.last()));
        assert(b =~= front_b.push(b.last()));
    }
}

/// The ranking of `items` is the one sequence that descends and holds for
/// each size the items of that size in the order in which they came.
pub proof fn lemma_ranked_is_the_stable_descent<T: Ranked>(items: Seq<T::V>, ranking: Seq<T::V>)
    requires
        descending::<T>(ranking),
        forall|size: int| #[trigger] of_size::<T>(ranking, size) == of_size::<T>(items, size),
    ensures
        ranking == ranked::<T>(items),
{
    lemma_ranked_descends::<T>(items);
    assert forall|size: int| #[trigger]
        of_size::<T>(ranking, size) == of_size::<T>(ranked::<T>(items), size) by {
        lemma_ranked_is_stable::<T>(items, size);
    }
    lemma_ranking_is_unique::<T>(ranking, ranked::<T>(items));
}

/// Puts `x` in its place in a ranking.
pub fn insert_ranked_into<T: Ranked>(ranking: &mut Vec<T>, x: T)
    ensures
        models(final(ranking)@) == insert_ranked::<T>(models(old(ranking)@), x@),
{
    let size = x.total_size();
    let mut at = ranking.len();
    let ghost before = models(ranking@);
    proof {
        assert(before.take(at as int) =~= before);
        assert(before.skip(at as int) =~= Seq::<T::V>::empty());
    }
    while at > 0 && ranking[at - 1].total_size() < size
        invariant
            at <= ranking.len(),
            ranking@ == old(ranking)@,
            before == models(ranking@),
            size == T::size_of(x@),
            insert_ranked::<T>(before, x@) == insert_ranked::<T>(before.take(at as int), x@)
                + before.skip(at as int),
        decreases at,
    {
        proof {
            let front = before.take(at as int);
            assert(front.last() == before[at - 1]);
            assert(front.drop_last() =~= before.take(at - 1));
            assert(insert_ranked::<T>(before.take(at - 1), x@).push(before[at - 1]) + before.skip(
                at as int,
            ) =~= insert_ranked::<T>(before.take(at - 1), x@) + before.skip(at - 1));
        }
        at = at - 1;
    }
    proof {
        let front = before.take(at as int);
        if at > 0 {
            assert(front.last() == before[at - 1]);
        }
        assert(insert_ranked::<T>(front, x@) =~= front.push(x@));
        assert(front.push(x@) + before.skip(at as int) =~= before.insert(at as int, x@));
    }
    ranking.insert(at, x);
    assert(models(ranking@) =~= before.insert(at as int, x@));
}

} // verus!
