//! Lists of things that stand at a path, kept in the order of those paths.
use vstd::prelude::*;

use crate::unix_path::UnixPath;

verus! {

/// A thing that stands at a path.
pub trait Placed: DeepView + Sized {
    /// The path at which the thing stands.
    spec fn place_of(model: Self::V) -> Seq<u8>;

    /// The path at which this stands.
    fn place(&self) -> (path: &UnixPath)
        ensures
            path@ == Self::place_of(self.deep_view()),
    ;
}

impl Placed for UnixPath {
    open spec fn place_of(model: Seq<u8>) -> Seq<u8> {
        model
    }

    fn place(&self) -> (path: &UnixPath) {
        self
    }
}

/// How many things at the front of the list `item` does not come before.
pub open spec fn upper_bound<T: Placed>(items: Seq<T::V>, item: T::V) -> int
    decreases items.len(),
{
    if items.len() == 0 || crate::unix_path::path_less(T::place_of(item), T::place_of(items[0])) {
        0
    } else {
        1 + upper_bound::<T>(items.drop_first(), item)
    }
}

/// The list with `item` put in front of the first thing that it comes before.
pub open spec fn insert_in_order<T: Placed>(items: Seq<T::V>, item: T::V) -> Seq<T::V> {
    items.insert(upper_bound::<T>(items, item), item)
}

/// The list in the order of its paths. Things at the same path stay in the order they had.
pub open spec fn sort_stable<T: Placed>(items: Seq<T::V>) -> Seq<T::V>
    decreases items.len(),
{
    if items.len() == 0 {
        Seq::empty()
    } else {
        insert_in_order::<T>(sort_stable::<T>(items.drop_last()), items.last())
    }
}

/// Something in the list stands at `path`.
pub open spec fn occupied<T: Placed>(items: Seq<T::V>, path: Seq<u8>) -> bool {
    exists|i: int|
        0 <= i < items.len() && crate::unix_path::same_path(
            #[trigger] T::place_of(items[i]),
            path,
        )
}

/// The list with `item` put in, unless something stands at its path already.
pub open spec fn insert_distinct<T: Placed>(items: Seq<T::V>, item: T::V) -> Seq<T::V> {
    if occupied::<T>(items, T::place_of(item)) {
        items
    } else {
        insert_in_order::<T>(items, item)
    }
}

/// The list in the order of its paths, with the first of the things at each path alone.
pub open spec fn sort_distinct<T: Placed>(items: Seq<T::V>) -> Seq<T::V>
    decreases items.len(),
{
    if items.len() == 0 {
        Seq::empty()
    } else {
        insert_distinct::<T>(sort_distinct::<T>(items.drop_last()), items.last())
    }
}

/// A list with a thing put in, seen through its models.
proof fn insert_deep_view<T: DeepView>(before: Vec<T>, after: Vec<T>, at: int, item: T)
    requires
        0 <= at <= before@.len(),
        after@ == before@.insert(at, item),
    ensures
        after.deep_view() == before.deep_view().insert(at, item.deep_view()),
{
    assert(after.deep_view() =~= before.deep_view().insert(at, item.deep_view()));
}

/// Whether something in the list stands at `path`.
pub fn is_occupied<T: Placed>(items: &Vec<T>, path: &UnixPath) -> (found: bool)
    ensures
        found == occupied::<T>(items.deep_view(), path@),
{
    let mut i: usize = 0;
    while i < items.len()
        invariant
            i <= items.len(),
            forall|j: int|
                0 <= j < i ==> !crate::unix_path::same_path(
                    #[trigger] T::place_of(items.deep_view()[j]),
                    path@,
                ),
        decreases items.len() - i,
    {
        assert(items.deep_view()[i as int] == items[i as int].deep_view());
        if items[i].place().same(path) {
            assert(crate::unix_path::same_path(T::place_of(items.deep_view()[i as int]), path@));
            return true;
        }
        i += 1;
    }
    false
}

/// Puts the thing in front of the first one that it comes before.
pub fn put_in_order<T: Placed>(items: &mut Vec<T>, item: T)
    ensures
        final(items).deep_view() == insert_in_order::<T>(
            old(items).deep_view(),
            item.deep_view(),
        ),
{
    let ghost model = items.deep_view();
    let mut at: usize = 0;
    assert(model.skip(0) =~= model);
    while at < items.len() && !item.place().less(items[at].place())
        invariant
            at <= items.len(),
            model == items.deep_view(),
            upper_bound::<T>(model, item.deep_view()) == at + upper_bound::<T>(
                model.skip(at as int),
                item.deep_view(),
            ),
        decreases items.len() - at,
    {
        assert(model.skip(at as int)[0] == items[at as int].deep_view());
        assert(model.skip(at as int).drop_first() =~= model.skip(at + 1));
        at += 1;
    }
    if at < items.len() {
        assert(model.skip(at as int)[0] == items[at as int].deep_view());
    }
    let ghost before = *items;
    let ghost placed = item;
    items.insert(at, item);
    proof {
        insert_deep_view(before, *items, at as int, placed);
    }
}

/// Puts the thing in, unless something stands at its path already.
pub fn put_distinct<T: Placed>(items: &mut Vec<T>, item: T)
    ensures
        final(items).deep_view() == insert_distinct::<T>(
            old(items).deep_view(),
            item.deep_view(),
        ),
{
    if !is_occupied(items, item.place()) {
        put_in_order(items, item);
    }
}

/// Puts the list in the order of its paths.
pub fn sorted_stable<T: Placed>(items: Vec<T>) -> (sorted: Vec<T>)
    ensures
        sorted.deep_view() == sort_stable::<T>(items.deep_view()),
{
    let ghost model = items.deep_view();
    let ghost things = items@;
    let mut sorted: Vec<T> = Vec::new();
    assert(sorted.deep_view() =~= Seq::empty());
    assert(model.take(0) =~= Seq::empty());
    for item in iter: items
        invariant
            iter.seq() == things,
            model == Seq::new(things.len(), |i: int| things[i].deep_view()),
            sorted.deep_view() == sort_stable::<T>(model.take(iter.index() as int)),
    {
        let ghost i = iter.index() as int;
        assert(model.take(i + 1).drop_last() =~= model.take(i));
        assert(model.take(i + 1).last() == item.deep_view());
        put_in_order(&mut sorted, item);
    }
    assert(model.take(model.len() as int) =~= model);
    sorted
}

/// Puts the list in the order of its paths, and leaves the first of the things at each path alone.
pub fn sorted_distinct<T: Placed>(items: Vec<T>) -> (sorted: Vec<T>)
    ensures
        sorted.deep_view() == sort_distinct::<T>(items.deep_view()),
{
    let ghost model = items.deep_view();
    let ghost things = items@;
    let mut sorted: Vec<T> = Vec::new();
    assert(sorted.deep_view() =~= Seq::empty());
    assert(model.take(0) =~= Seq::empty());
    for item in iter: items
        invariant
            iter.seq() == things,
            model == Seq::new(things.len(), |i: int| things[i].deep_view()),
            sorted.deep_view() == sort_distinct::<T>(model.take(iter.index() as int)),
    {
        let ghost i = iter.index() as int;
        assert(model.take(i + 1).drop_last() =~= model.take(i));
        assert(model.take(i + 1).last() == item.deep_view());
        put_distinct(&mut sorted, item);
    }
    assert(model.take(model.len() as int) =~= model);
    sorted
}

/// The list is in the order of its paths.
pub open spec fn ordered<T: Placed>(items: Seq<T::V>) -> bool {
    forall|i: int, j: int|
        0 <= i < j < items.len() ==> !crate::unix_path::path_less(
            #[trigger] T::place_of(items[j]),
            #[trigger] T::place_of(items[i]),
        )
}

/// The list is in the order of its paths, and no two things in it stand at the same path.
pub open spec fn strictly_ordered<T: Placed>(items: Seq<T::V>) -> bool {
    forall|i: int, j: int|
        0 <= i < j < items.len() ==> crate::unix_path::path_less(
            #[trigger] T::place_of(items[i]),
            #[trigger] T::place_of(items[j]),
        )
}

/// The things of a list that stand at `path`, in their order.
pub open spec fn standing_at<T: Placed>(items: Seq<T::V>, path: Seq<u8>) -> Seq<T::V> {
    items.filter(|item: T::V| crate::unix_path::same_path(T::place_of(item), path))
}

proof fn upper_bound_splits<T: Placed>(items: Seq<T::V>, item: T::V)
    ensures
        0 <= upper_bound::<T>(items, item) <= items.len(),
        forall|i: int|
            0 <= i < upper_bound::<T>(items, item) ==> !crate::unix_path::path_less(
                T::place_of(item),
                #[trigger] T::place_of(items[i]),
            ),
        upper_bound::<T>(items, item) < items.len() ==> crate::unix_path::path_less(
            T::place_of(item),
            T::place_of(items[upper_bound::<T>(items, item)]),
        ),
    decreases items.len(),
{
    if !(items.len() == 0 || crate::unix_path::path_less(
        T::place_of(item),
        T::place_of(items[0]),
    )) {
        let rest = items.drop_first();
        upper_bound_splits::<T>(rest, item);
        assert forall|i: int|
            0 <= i < upper_bound::<T>(items, item) implies !crate::unix_path::path_less(
            T::place_of(item),
            #[trigger] T::place_of(items[i]),
        ) by {
            if i > 0 {
                assert(rest[i - 1] == items[i]);
                assert(!crate::unix_path::path_less(T::place_of(item), T::place_of(rest[i - 1])));
            }
        }
    }
}

proof fn above_upper_bound<T: Placed>(items: Seq<T::V>, item: T::V)
    requires
        ordered::<T>(items),
    ensures
        forall|i: int|
            upper_bound::<T>(items, item) <= i < items.len() ==> crate::unix_path::path_less(
                T::place_of(item),
                #[trigger] T::place_of(items[i]),
            ),
{
    upper_bound_splits::<T>(items, item);
    let at = upper_bound::<T>(items, item);
    assert forall|i: int| at <= i < items.len() implies crate::unix_path::path_less(
        T::place_of(item),
        #[trigger] T::place_of(items[i]),
    ) by {
        let x = T::place_of(item);
        let y = T::place_of(items[at]);
        let z = T::place_of(items[i]);
        crate::unix_path::path_less_is_an_order(x, y, z);
        if i > at {
            assert(!crate::unix_path::path_less(z, y));
            crate::unix_path::path_less_is_an_order(y, z, x);
            if crate::unix_path::same_path(y, z) {
                assert(crate::unix_path::path_less(x, z));
            }
        }
    }
}

proof fn insert_keeps_order<T: Placed>(items: Seq<T::V>, item: T::V)
    requires
        ordered::<T>(items),
    ensures
        ordered::<T>(insert_in_order::<T>(items, item)),
{
    upper_bound_splits::<T>(items, item);
    above_upper_bound::<T>(items, item);
    let at = upper_bound::<T>(items, item);
    let result = insert_in_order::<T>(items, item);
    assert forall|i: int, j: int|
        0 <= i < j < result.len() implies !crate::unix_path::path_less(
        #[trigger] T::place_of(result[j]),
        #[trigger] T::place_of(result[i]),
    ) by {
        let from = if i < at { i } else { i - 1 };
        let to = if j < at { j } else { j - 1 };
        let x = T::place_of(result[i]);
        let y = T::place_of(result[j]);
        crate::unix_path::path_less_is_an_order(x, y, x);
        if i == at {
            assert(result[j] == items[to]);
        } else if j == at {
            assert(result[i] == items[from]);
        } else {
            assert(result[i] == items[from] && result[j] == items[to]);
        }
    }
}

proof fn insert_distinct_keeps_strict_order<T: Placed>(items: Seq<T::V>, item: T::V)
    requires
        strictly_ordered::<T>(items),
    ensures
        strictly_ordered::<T>(insert_distinct::<T>(items, item)),
{
    if !occupied::<T>(items, T::place_of(item)) {
        assert(ordered::<T>(items)) by {
            assert forall|i: int, j: int|
                0 <= i < j < items.len() implies !crate::unix_path::path_less(
                #[trigger] T::place_of(items[j]),
                #[trigger] T::place_of(items[i]),
            ) by {
                crate::unix_path::path_less_is_an_order(
                    T::place_of(items[i]),
                    T::place_of(items[j]),
                    T::place_of(items[i]),
                );
            }
        }
        upper_bound_splits::<T>(items, item);
        above_upper_bound::<T>(items, item);
        let at = upper_bound::<T>(items, item);
        let result = insert_in_order::<T>(items, item);
        assert forall|i: int, j: int|
            0 <= i < j < result.len() implies crate::unix_path::path_less(
            #[trigger] T::place_of(result[i]),
            #[trigger] T::place_of(result[j]),
        ) by {
            let from = if i < at { i } else { i - 1 };
            let to = if j < at { j } else { j - 1 };
            if i == at {
                assert(result[j] == items[to]);
            } else if j == at {
                assert(result[i] == items[from]);
                assert(!crate::unix_path::same_path(T::place_of(items[from]), T::place_of(item)));
                crate::unix_path::path_less_is_an_order(
                    T::place_of(items[from]),
                    T::place_of(item),
                    T::place_of(item),
                );
            } else {
                assert(result[i] == items[from] && result[j] == items[to]);
            }
        }
    }
}

/// Sorting puts a list in the order of its paths.
pub proof fn sort_stable_is_ordered<T: Placed>(items: Seq<T::V>)
    ensures
        ordered::<T>(sort_stable::<T>(items)),
    decreases items.len(),
{
    if items.len() > 0 {
        sort_stable_is_ordered::<T>(items.drop_last());
        insert_keeps_order::<T>(sort_stable::<T>(items.drop_last()), items.last());
    }
}

/// Sorting keeps the things of a list, each as often as it was there.
pub proof fn sort_stable_keeps_the_things<T: Placed>(items: Seq<T::V>)
    ensures
        sort_stable::<T>(items).to_multiset() == items.to_multiset(),
    decreases items.len(),
{
    broadcast use vstd::seq_lib::group_to_multiset_ensures;

    if items.len() > 0 {
        let sorted = sort_stable::<T>(items.drop_last());
        sort_stable_keeps_the_things::<T>(items.drop_last());
        upper_bound_splits::<T>(sorted, items.last());
        vstd::seq_lib::to_multiset_insert(
            sorted,
            upper_bound::<T>(sorted, items.last()),
            items.last(),
        );
        assert(items.drop_last().push(items.last()) =~= items);
    } else {
        assert(sort_stable::<T>(items) =~= items);
    }
}

/// Sorting leaves the things at one path in the order they had.
pub proof fn sort_stable_is_stable<T: Placed>(items: Seq<T::V>, path: Seq<u8>)
    ensures
        standing_at::<T>(sort_stable::<T>(items), path) == standing_at::<T>(items, path),
    decreases items.len(),
{
    let here = |item: T::V| crate::unix_path::same_path(T::place_of(item), path);
    if items.len() == 0 {
        assert(sort_stable::<T>(items) =~= items);
    } else {
        let item = items.last();
        let sorted = sort_stable::<T>(items.drop_last());
        let at = upper_bound::<T>(sorted, item);
        let front = sorted.take(at);
        let back = sorted.skip(at);
        sort_stable_is_stable::<T>(items.drop_last(), path);
        sort_stable_is_ordered::<T>(items.drop_last());
        upper_bound_splits::<T>(sorted, item);
        above_upper_bound::<T>(sorted, item);
        assert(sorted =~= front + back);
        assert(insert_in_order::<T>(sorted, item) =~= front + seq![item] + back);
        Seq::filter_distributes_over_add(front, back, here);
        Seq::filter_distributes_over_add(front + seq![item], back, here);
        Seq::filter_distributes_over_add(front, seq![item], here);
        assert(items =~= items.drop_last() + seq![item]);
        Seq::filter_distributes_over_add(items.drop_last(), seq![item], here);
        if here(item) {
            assert forall|i: int| 0 <= i < back.len() implies !here(#[trigger] back[i]) by {
                let there = T::place_of(sorted[at + i]);
                crate::unix_path::path_less_is_an_order(T::place_of(item), there, there);
            }
            none_pass(back, here);
            assert(back.filter(here) =~= Seq::empty());
        } else {
            none_pass(seq![item], here);
        }
    }
}

proof fn none_pass<A>(items: Seq<A>, pred: spec_fn(A) -> bool)
    requires
        forall|i: int| 0 <= i < items.len() ==> !pred(#[trigger] items[i]),
    ensures
        items.filter(pred) == Seq::<A>::empty(),
    decreases items.len(),
{
    reveal(Seq::filter);
    if items.len() > 0 {
        assert(!pred(items[items.len() - 1]));
        none_pass(items.drop_last(), pred);
    }
}

/// Sorting with one thing for each path puts a list in the order of its paths, and leaves no two
/// things at the same path.
pub proof fn sort_distinct_is_strictly_ordered<T: Placed>(items: Seq<T::V>)
    ensures
        strictly_ordered::<T>(sort_distinct::<T>(items)),
    decreases items.len(),
{
    if items.len() > 0 {
        sort_distinct_is_strictly_ordered::<T>(items.drop_last());
        insert_distinct_keeps_strict_order::<T>(
            sort_distinct::<T>(items.drop_last()),
            items.last(),
        );
    }
}

/// The first thing of a list, alone.
pub open spec fn first_alone<A>(items: Seq<A>) -> Seq<A> {
    if items.len() == 0 {
        Seq::empty()
    } else {
        seq![items[0]]
    }
}

proof fn standing_after_push<T: Placed>(items: Seq<T::V>, item: T::V, path: Seq<u8>)
    ensures
        standing_at::<T>(items.push(item), path) == if crate::unix_path::same_path(
            T::place_of(item),
            path,
        ) {
            standing_at::<T>(items, path).push(item)
        } else {
            standing_at::<T>(items, path)
        },
{
    reveal(Seq::filter);
    assert(items.push(item).drop_last() =~= items);
}

proof fn standing_after_insert<T: Placed>(items: Seq<T::V>, at: int, item: T::V, path: Seq<u8>)
    requires
        0 <= at <= items.len(),
    ensures
        !crate::unix_path::same_path(T::place_of(item), path) ==> standing_at::<T>(
            items.insert(at, item),
            path,
        ) == standing_at::<T>(items, path),
        crate::unix_path::same_path(T::place_of(item), path) && standing_at::<T>(items, path).len()
            == 0 ==> standing_at::<T>(items.insert(at, item), path) == seq![item],
{
    let here = |item: T::V| crate::unix_path::same_path(T::place_of(item), path);
    let front = items.take(at);
    let back = items.skip(at);
    assert(items =~= front + back);
    assert(items.insert(at, item) =~= front.push(item) + back);
    Seq::filter_distributes_over_add(front, back, here);
    Seq::filter_distributes_over_add(front.push(item), back, here);
    standing_after_push::<T>(front, item, path);
    if here(item) && standing_at::<T>(items, path).len() == 0 {
        assert(front.filter(here) =~= Seq::empty());
        assert(back.filter(here) =~= Seq::empty());
        assert(standing_at::<T>(items.insert(at, item), path) =~= seq![item]);
    }
}

proof fn nothing_standing<T: Placed>(items: Seq<T::V>, path: Seq<u8>)
    ensures
        occupied::<T>(items, path) <==> standing_at::<T>(items, path).len() > 0,
{
    let here = |item: T::V| crate::unix_path::same_path(T::place_of(item), path);
    if occupied::<T>(items, path) {
        let i = choose|i: int|
            0 <= i < items.len() && crate::unix_path::same_path(
                #[trigger] T::place_of(items[i]),
                path,
            );
        assert(here(items[i]));
        items.lemma_filter_contains(here, i);
    } else {
        assert forall|i: int| 0 <= i < items.len() implies !here(#[trigger] items[i]) by {
            assert(!crate::unix_path::same_path(T::place_of(items[i]), path));
        }
        none_pass(items, here);
    }
}

/// Sorting leaves something at each path at which something stood, and at no other.
pub proof fn sort_stable_keeps_the_places<T: Placed>(items: Seq<T::V>, path: Seq<u8>)
    ensures
        occupied::<T>(sort_stable::<T>(items), path) == occupied::<T>(items, path),
{
    sort_stable_is_stable::<T>(items, path);
    nothing_standing::<T>(items, path);
    nothing_standing::<T>(sort_stable::<T>(items), path);
}

/// Sorting with one thing for each path leaves something at each path at which something stood,
/// and at no other.
pub proof fn sort_distinct_keeps_the_places<T: Placed>(items: Seq<T::V>, path: Seq<u8>)
    ensures
        occupied::<T>(sort_distinct::<T>(items), path) == occupied::<T>(items, path),
{
    sort_distinct_keeps_the_first::<T>(items, path);
    nothing_standing::<T>(items, path);
    nothing_standing::<T>(sort_distinct::<T>(items), path);
}

/// Sorting adds nothing to a list.
pub proof fn sort_stable_adds_nothing<T: Placed>(items: Seq<T::V>)
    ensures
        forall|i: int|
            0 <= i < sort_stable::<T>(items).len() ==> items.contains(
                #[trigger] sort_stable::<T>(items)[i],
            ),
    decreases items.len(),
{
    if items.len() > 0 {
        let earlier = items.drop_last();
        sort_stable_adds_nothing::<T>(earlier);
        insert_adds_one::<T>(items, sort_stable::<T>(earlier));
    }
}

/// Sorting with one thing for each path adds nothing to a list.
pub proof fn sort_distinct_adds_nothing<T: Placed>(items: Seq<T::V>)
    ensures
        forall|i: int|
            0 <= i < sort_distinct::<T>(items).len() ==> items.contains(
                #[trigger] sort_distinct::<T>(items)[i],
            ),
    decreases items.len(),
{
    if items.len() > 0 {
        let earlier = items.drop_last();
        let kept = sort_distinct::<T>(earlier);
        sort_distinct_adds_nothing::<T>(earlier);
        insert_adds_one::<T>(items, kept);
        assert forall|i: int| 0 <= i < kept.len() implies items.contains(#[trigger] kept[i]) by {
            assert(items[earlier.index_of(kept[i])] == kept[i]);
        }
    }
}

proof fn insert_adds_one<T: Placed>(items: Seq<T::V>, sorted: Seq<T::V>)
    requires
        items.len() > 0,
        forall|i: int|
            0 <= i < sorted.len() ==> items.drop_last().contains(#[trigger] sorted[i]),
    ensures
        forall|i: int|
            0 <= i < insert_in_order::<T>(sorted, items.last()).len() ==> items.contains(
                #[trigger] insert_in_order::<T>(sorted, items.last())[i],
            ),
{
    let item = items.last();
    let earlier = items.drop_last();
    let at = upper_bound::<T>(sorted, item);
    let result = insert_in_order::<T>(sorted, item);
    upper_bound_splits::<T>(sorted, item);
    assert forall|i: int| 0 <= i < result.len() implies items.contains(#[trigger] result[i]) by {
        if i == at {
            assert(items[items.len() - 1] == result[i]);
        } else {
            let from = if i < at { i } else { i - 1 };
            assert(result[i] == sorted[from]);
            assert(items[earlier.index_of(sorted[from])] == result[i]);
        }
    }
}

/// Sorting with one thing for each path leaves, at each path at which something stood, the first
/// thing that stood there, and nothing at any other path.
pub proof fn sort_distinct_keeps_the_first<T: Placed>(items: Seq<T::V>, path: Seq<u8>)
    ensures
        standing_at::<T>(sort_distinct::<T>(items), path) == first_alone(
            standing_at::<T>(items, path),
        ),
    decreases items.len(),
{
    if items.len() == 0 {
        reveal(Seq::filter);
        assert(standing_at::<T>(items, path) =~= Seq::empty());
    } else {
        let item = items.last();
        let kept = sort_distinct::<T>(items.drop_last());
        let at = upper_bound::<T>(kept, item);
        sort_distinct_keeps_the_first::<T>(items.drop_last(), path);
        assert(items =~= items.drop_last().push(item));
        standing_after_push::<T>(items.drop_last(), item, path);
        nothing_standing::<T>(kept, path);
        upper_bound_splits::<T>(kept, item);
        standing_after_insert::<T>(kept, at, item, path);
        if crate::unix_path::same_path(T::place_of(item), path) {
            assert(occupied::<T>(kept, T::place_of(item)) == occupied::<T>(kept, path));
        }
        assert(standing_at::<T>(sort_distinct::<T>(items), path) =~= first_alone(
            standing_at::<T>(items, path),
        ));
    }
}

} // verus!
