//! Finding the first of something.

use vstd::prelude::*;

verus! {

/// Where the first item that answers to `p` stands, from `from` on.
pub open spec fn first_from<T>(items: Seq<T>, p: spec_fn(T) -> bool, from: int) -> Option<int>
    decreases items.len() - from,
{
    if from < 0 || from >= items.len() {
        None
    } else if p(items[from]) {
        Some(from)
    } else {
        first_from(items, p, from + 1)
    }
}

/// Where the first item that answers to `p` stands.
pub open spec fn first<T>(items: Seq<T>, p: spec_fn(T) -> bool) -> Option<int> {
    first_from(items, p, 0)
}

/// The first item that answers to `p`.
pub open spec fn first_item<T>(items: Seq<T>, p: spec_fn(T) -> bool) -> Option<T> {
    match first(items, p) {
        Some(i) => Some(items[i]),
        None => None,
    }
}

pub proof fn first_from_is_the_first<T>(items: Seq<T>, p: spec_fn(T) -> bool, from: int)
    requires
        0 <= from,
    ensures
        first_from(items, p, from) is None <==> forall|j: int|
            from <= j < items.len() ==> !p(#[trigger] items[j]),
        first_from(items, p, from) matches Some(i) ==> {
            &&& from <= i < items.len()
            &&& p(items[i])
            &&& forall|j: int| from <= j < i ==> !p(#[trigger] items[j])
        },
    decreases items.len() - from,
{
    if from < items.len() && !p(items[from]) {
        first_from_is_the_first(items, p, from + 1);
    }
}

/// An item is found exactly when one answers, and none before it does.
pub proof fn first_is_the_first<T>(items: Seq<T>, p: spec_fn(T) -> bool)
    ensures
        first(items, p) is None <==> forall|j: int|
            0 <= j < items.len() ==> !p(#[trigger] items[j]),
        first(items, p) matches Some(i) ==> {
            &&& 0 <= i < items.len()
            &&& p(items[i])
            &&& forall|j: int| 0 <= j < i ==> !p(#[trigger] items[j])
        },
{
    first_from_is_the_first(items, p, 0);
}

/// Where the first item that answers to `f` stands.
pub(crate) fn position<T, F: Fn(&T) -> bool>(
    items: &Vec<T>,
    f: F,
    Ghost(p): Ghost<spec_fn(T) -> bool>,
) -> (r: Option<usize>)
    requires
        forall|x: &T| #[trigger] call_requires(f, (x,)),
        forall|x: &T, b: bool| #[trigger] call_ensures(f, (x,), b) ==> b == p(*x),
    ensures
        match r {
            Some(i) => i < items@.len() && p(items@[i as int]) && first(items@, p) == Some(i as int),
            None => first(items@, p) is None,
        },
{
    let mut i: usize = 0;
    while i < items.len()
        invariant
            forall|x: &T| #[trigger] call_requires(f, (x,)),
            forall|x: &T, b: bool| #[trigger] call_ensures(f, (x,), b) ==> b == p(*x),
            i <= items@.len(),
            first(items@, p) == first_from(items@, p, i as int),
        decreases items@.len() - i,
    {
        if f(&items[i]) {
            return Some(i);
        }
        i += 1;
    }
    None
}

/// The first item that answers to `f`.
pub(crate) fn find<'a, T, F: Fn(&T) -> bool>(
    items: &'a Vec<T>,
    f: F,
    Ghost(p): Ghost<spec_fn(T) -> bool>,
) -> (r: Option<&'a T>)
    requires
        forall|x: &T| #[trigger] call_requires(f, (x,)),
        forall|x: &T, b: bool| #[trigger] call_ensures(f, (x,), b) ==> b == p(*x),
    ensures
        match r {
            Some(x) => first_item(items@, p) == Some(*x) && p(*x),
            None => first_item(items@, p) is None,
        },
{
    match position(items, f, Ghost(p)) {
        Some(i) => Some(&items[i]),
        None => None,
    }
}

/// What a list of things says.
pub open spec fn views<T: View>(items: Seq<T>) -> Seq<T::V> {
    items.map_values(|t: T| t@)
}

/// Where the first item stands whose view answers to `f`.
pub(crate) fn position_by_view<T: View, F: Fn(&T) -> bool>(
    items: &Vec<T>,
    f: F,
    Ghost(p): Ghost<spec_fn(T::V) -> bool>,
) -> (r: Option<usize>)
    requires
        forall|x: &T| #[trigger] call_requires(f, (x,)),
        forall|x: &T, b: bool| #[trigger] call_ensures(f, (x,), b) ==> b == p(x@),
    ensures
        match r {
            Some(i) => i < items@.len() && p(items@[i as int]@) && first(views(items@), p) == Some(
                i as int,
            ),
            None => first(views(items@), p) is None,
        },
{
    let mut i: usize = 0;
    while i < items.len()
        invariant
            forall|x: &T| #[trigger] call_requires(f, (x,)),
            forall|x: &T, b: bool| #[trigger] call_ensures(f, (x,), b) ==> b == p(x@),
            i <= items@.len(),
            first(views(items@), p) == first_from(views(items@), p, i as int),
        decreases items@.len() - i,
    {
        if f(&items[i]) {
            return Some(i);
        }
        i += 1;
    }
    None
}

/// One more item of a list, kept or not.
pub proof fn filter_of_one_more<T>(items: Seq<T>, p: spec_fn(T) -> bool, n: int)
    requires
        0 <= n < items.len(),
    ensures
        items.take(n + 1).filter(p) == if p(items[n]) {
            items.take(n).filter(p).push(items[n])
        } else {
            items.take(n).filter(p)
        },
{
    reveal(Seq::filter);
    assert(items.take(n + 1).drop_last() =~= items.take(n));
}

/// Keep only the items whose view answers to `f`.
pub(crate) fn retain<T: View, F: Fn(&T) -> bool>(
    items: &mut Vec<T>,
    f: F,
    Ghost(p): Ghost<spec_fn(T::V) -> bool>,
)
    requires
        forall|x: &T| #[trigger] call_requires(f, (x,)),
        forall|x: &T, b: bool| #[trigger] call_ensures(f, (x,), b) ==> b == p(x@),
    ensures
        views(final(items)@) == views(old(items)@).filter(p),
{
    let ghost before = items@;
    let ghost mut seen: int = 0;
    let mut i: usize = 0;
    proof {
        reveal(Seq::filter);
        assert(views(before).take(0).filter(p) =~= Seq::<T::V>::empty());
        assert(items@.skip(0) =~= before.skip(0));
    }
    while i < items.len()
        invariant
            forall|x: &T| #[trigger] call_requires(f, (x,)),
            forall|x: &T, b: bool| #[trigger] call_ensures(f, (x,), b) ==> b == p(x@),
            i <= items@.len(),
            0 <= seen <= before.len(),
            items@.len() - i == before.len() - seen,
            views(items@).take(i as int) == views(before).take(seen).filter(p),
            items@.skip(i as int) == before.skip(seen),
        decreases items@.len() - i,
    {
        let ghost was = items@;
        proof {
            assert(items@[i as int] == items@.skip(i as int)[0]);
            assert(before[seen] == before.skip(seen)[0]);
            filter_of_one_more(views(before), p, seen);
            assert(views(before)[seen] == before[seen]@);
        }
        if f(&items[i]) {
            i += 1;
            proof {
                assert(views(items@).take(i as int) =~= views(was).take(i - 1).push(
                    before[seen]@,
                ));
                assert(items@.skip(i as int) =~= before.skip(seen + 1)) by {
                    assert(items@.skip(i as int) =~= was.skip(i - 1).skip(1));
                    assert(before.skip(seen + 1) =~= before.skip(seen).skip(1));
                }
            }
        } else {
            items.remove(i);
            proof {
                assert(views(items@).take(i as int) =~= views(was).take(i as int));
                assert(items@.skip(i as int) =~= before.skip(seen + 1)) by {
                    assert(items@.skip(i as int) =~= was.skip(i as int).skip(1));
                    assert(before.skip(seen + 1) =~= before.skip(seen).skip(1));
                }
            }
        }
        proof {
            seen = seen + 1;
        }
    }
    proof {
        assert(views(items@).take(i as int) =~= views(items@));
        assert(views(before).take(seen) =~= views(before));
    }
}

} // verus!
