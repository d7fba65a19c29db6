//! The order of names, and sorting by it.

use vstd::prelude::*;

use crate::text::chars_of;

verus! {

/// Whether `a` comes before `b` in the order of their characters.
pub open spec fn text_less(a: Seq<char>, b: Seq<char>) -> bool
    decreases a.len(),
{
    if b.len() == 0 {
        false
    } else if a.len() == 0 {
        true
    } else {
        a[0] < b[0] || (a[0] == b[0] && text_less(a.skip(1), b.skip(1)))
    }
}

/// Whether `a` comes before `b` in the order of their characters.
pub fn is_less(a: &str, b: &str) -> (r: bool)
    ensures
        r == text_less(a@, b@),
{
    let x = chars_of(a);
    let y = chars_of(b);
    let mut i: usize = 0;
    assert(a@.skip(0) =~= a@);
    assert(b@.skip(0) =~= b@);
    while i < x.len() && i < y.len()
        invariant
            x@ == a@,
            y@ == b@,
            i <= x@.len(),
            i <= y@.len(),
            text_less(a@, b@) == text_less(a@.skip(i as int), b@.skip(i as int)),
        decreases x@.len() - i,
    {
        assert(a@.skip(i as int).skip(1) =~= a@.skip(i + 1));
        assert(b@.skip(i as int).skip(1) =~= b@.skip(i + 1));
        if x[i] < y[i] {
            return true;
        }
        if y[i] < x[i] {
            return false;
        }
        i = i + 1;
    }
    i < y.len()
}

/// The order is strict.
pub proof fn order_is_strict(a: Seq<char>, b: Seq<char>)
    ensures
        text_less(a, b) ==> !text_less(b, a),
    decreases a.len(),
{
    if a.len() > 0 && b.len() > 0 {
        order_is_strict(a.skip(1), b.skip(1));
    }
}

/// The order is total: of two different texts one comes first.
pub proof fn order_is_total(a: Seq<char>, b: Seq<char>)
    ensures
        text_less(a, b) || text_less(b, a) || a == b,
    decreases a.len(),
{
    if a.len() > 0 && b.len() > 0 {
        order_is_total(a.skip(1), b.skip(1));
        if a.skip(1) == b.skip(1) && a[0] == b[0] {
            assert(a =~= seq![a[0]] + a.skip(1));
            assert(b =~= seq![b[0]] + b.skip(1));
        }
    } else {
        assert(a.len() == b.len() ==> a =~= b);
    }
}

/// What is not after a text that is not after a third is not after the third.
pub proof fn order_is_transitive(a: Seq<char>, b: Seq<char>, c: Seq<char>)
    requires
        !text_less(b, a),
        !text_less(c, b),
    ensures
        !text_less(c, a),
    decreases a.len(),
{
    if a.len() > 0 && b.len() > 0 && c.len() > 0 {
        if a[0] == b[0] && b[0] == c[0] {
            order_is_transitive(a.skip(1), b.skip(1), c.skip(1));
        }
    }
}

/// Something that is sorted by its name.
pub trait Named: View + Sized {
    /// The name of a value.
    spec fn name_of(value: Self::V) -> Seq<char>;

    /// The name.
    fn name(&self) -> (r: &str)
        ensures
            r@ == Self::name_of(self@),
    ;
}

/// The values of a sequence.
pub open spec fn views<T: View>(items: Seq<T>) -> Seq<T::V> {
    items.map_values(|item: T| item@)
}

/// Whether no item comes after one with a greater name.
pub open spec fn sorted<T: Named>(items: Seq<T::V>) -> bool {
    forall|i: int, j: int|
        0 <= i < j < items.len() ==> !text_less(
            T::name_of(#[trigger] items[j]),
            T::name_of(#[trigger] items[i]),
        )
}

/// Whether an item has the given name.
pub open spec fn is_named<T: Named>(name: Seq<char>) -> spec_fn(T::V) -> bool {
    |item: T::V| T::name_of(item) == name
}

/// The items with the given name, in order.
pub open spec fn with_name<T: Named>(items: Seq<T::V>, name: Seq<char>) -> Seq<T::V> {
    items.filter(is_named::<T>(name))
}

/// Whether `after` holds the items of `before` sorted by name, items of the
/// same name in the order in which they stood.
pub open spec fn stably_sorted<T: Named>(before: Seq<T::V>, after: Seq<T::V>) -> bool {
    &&& sorted::<T>(after)
    &&& after.len() == before.len()
    &&& forall|name: Seq<char>| #[trigger]
        with_name::<T>(after, name) == with_name::<T>(before, name)
}

proof fn lemma_no_match<T: Named>(items: Seq<T::V>, name: Seq<char>)
    requires
        forall|i: int| 0 <= i < items.len() ==> T::name_of(#[trigger] items[i]) != name,
    ensures
        with_name::<T>(items, name) == Seq::<T::V>::empty(),
    decreases items.len(),
{
    reveal(Seq::filter);
    if items.len() > 0 {
        lemma_no_match::<T>(items.drop_last(), name);
    }
}

/// Inserting an item behind all that have its name is the same as adding it at
/// the end, as far as items of one name go.
proof fn lemma_insert<T: Named>(items: Seq<T::V>, item: T::V, at: int, name: Seq<char>)
    requires
        0 <= at <= items.len(),
        forall|i: int|
            at <= i < items.len() ==> T::name_of(#[trigger] items[i]) != T::name_of(item),
    ensures
        with_name::<T>(items.insert(at, item), name) == with_name::<T>(items.push(item), name),
{
    let keep = is_named::<T>(name);
    let head = items.take(at);
    let tail = items.skip(at);
    assert(items.insert(at, item) =~= head.push(item) + tail);
    assert(items =~= head + tail);
    Seq::filter_distributes_over_add(head.push(item), tail, keep);
    Seq::filter_distributes_over_add(head, tail, keep);
    items.lemma_filter_push(item, keep);
    head.lemma_filter_push(item, keep);
    if T::name_of(item) == name {
        assert forall|i: int| 0 <= i < tail.len() implies T::name_of(#[trigger] tail[i])
            != name by {
            assert(tail[i] == items[at + i]);
        }
        lemma_no_match::<T>(tail, name);
        assert(items.filter(keep) =~= head.filter(keep));
    }
}

proof fn lemma_stays_sorted<T: Named>(items: Seq<T::V>, item: T::V, at: int)
    requires
        0 <= at <= items.len(),
        sorted::<T>(items),
        forall|i: int|
            at <= i < items.len() ==> text_less(T::name_of(item), T::name_of(#[trigger] items[i])),
        at > 0 ==> !text_less(T::name_of(item), T::name_of(items[at - 1])),
    ensures
        sorted::<T>(items.insert(at, item)),
{
    let result = items.insert(at, item);
    assert forall|i: int, j: int| 0 <= i < j < result.len() implies !text_less(
        T::name_of(#[trigger] result[j]),
        T::name_of(#[trigger] result[i]),
    ) by {
        if j == at {
            if i < at - 1 {
                order_is_transitive(
                    T::name_of(items[i]),
                    T::name_of(items[at - 1]),
                    T::name_of(item),
                );
            }
        } else if i == at {
            order_is_strict(T::name_of(item), T::name_of(items[j - 1]));
        } else {
            let a = if i < at { i } else { i - 1 };
            let b = if j < at { j } else { j - 1 };
            assert(result[i] == items[a]);
            assert(result[j] == items[b]);
        }
    }
}

/// One step of sorting by insertion.
proof fn lemma_sorts_on<T: Named>(before: Seq<T::V>, after: Seq<T::V>, item: T::V, at: int)
    requires
        stably_sorted::<T>(before, after),
        0 <= at <= after.len(),
        forall|i: int|
            at <= i < after.len() ==> text_less(T::name_of(item), T::name_of(#[trigger] after[i])),
        at > 0 ==> !text_less(T::name_of(item), T::name_of(after[at - 1])),
    ensures
        stably_sorted::<T>(before.push(item), after.insert(at, item)),
{
    lemma_stays_sorted::<T>(after, item, at);
    assert forall|name: Seq<char>| #[trigger]
        with_name::<T>(after.insert(at, item), name) == with_name::<T>(
            before.push(item),
            name,
        ) by {
        let keep = is_named::<T>(name);
        assert forall|i: int| at <= i < after.len() implies T::name_of(#[trigger] after[i])
            != T::name_of(item) by {
            order_is_strict(T::name_of(item), T::name_of(after[i]));
        }
        lemma_insert::<T>(after, item, at, name);
        after.lemma_filter_push(item, keep);
        before.lemma_filter_push(item, keep);
        assert(with_name::<T>(after, name) == with_name::<T>(before, name));
    }
}

/// Sorts by name; items of the same name stay in order.
pub fn sort_by_name<T: Named>(items: Vec<T>) -> (r: Vec<T>)
    ensures
        stably_sorted::<T>(views(items@), views(r@)),
{
    let mut left = items;
    let mut result: Vec<T> = Vec::new();
    let ghost all = views(items@);
    assert(all.take(0) =~= Seq::<T::V>::empty());
    assert(views(result@) =~= Seq::<T::V>::empty());
    while left.len() > 0
        invariant
            all == views(items@),
            views(left@) =~= all.skip(result@.len() as int),
            result@.len() + left@.len() == all.len(),
            stably_sorted::<T>(all.take(result@.len() as int), views(result@)),
        decreases left@.len(),
    {
        let ghost taken = result@.len() as int;
        let ghost before = result@;
        let ghost rest = views(left@);
        let item = left.remove(0);
        assert(rest[0] == item@);
        assert(item@ == all[taken]);
        assert(views(left@) =~= rest.skip(1));
        let mut at: usize = result.len();
        while at > 0 && is_less(item.name(), result[at - 1].name())
            invariant
                at <= result@.len(),
                result@ == before,
                forall|i: int|
                    at <= i < before.len() ==> text_less(
                        T::name_of(item@),
                        T::name_of(#[trigger] views(before)[i]),
                    ),
            decreases at,
        {
            at = at - 1;
        }
        result.insert(at, item);
        proof {
            assert(views(result@) =~= views(before).insert(at as int, item@));
            assert(all.take(taken + 1) =~= all.take(taken).push(item@));
            lemma_sorts_on::<T>(all.take(taken), views(before), item@, at as int);
        }
    }
    assert(all.take(result@.len() as int) =~= all);
    result
}

/// Sorting loses nothing and adds nothing.
pub proof fn sorting_keeps_the_items<T: Named>(before: Seq<T::V>, after: Seq<T::V>)
    requires
        stably_sorted::<T>(before, after),
    ensures
        forall|item: T::V| #[trigger] after.contains(item) == before.contains(item),
{
    assert forall|item: T::V| #[trigger] after.contains(item) == before.contains(item) by {
        let keep = is_named::<T>(T::name_of(item));
        assert(with_name::<T>(after, T::name_of(item)) == with_name::<T>(
            before,
            T::name_of(item),
        ));
        if after.contains(item) {
            let i = choose|i: int| 0 <= i < after.len() && after[i] == item;
            after.lemma_filter_contains(keep, i);
            before.lemma_filter_contains_rev(keep, item);
        }
        if before.contains(item) {
            let i = choose|i: int| 0 <= i < before.len() && before[i] == item;
            before.lemma_filter_contains(keep, i);
            after.lemma_filter_contains_rev(keep, item);
        }
    }
}

/// There is only one way to sort by name and leave items of the same name in
/// order.
pub proof fn stable_order_is_unique<T: Named>(
    before: Seq<T::V>,
    first: Seq<T::V>,
    second: Seq<T::V>,
)
    requires
        stably_sorted::<T>(before, first),
        stably_sorted::<T>(before, second),
    ensures
        first == second,
{
    assert forall|name: Seq<char>| #[trigger]
        with_name::<T>(first, name) == with_name::<T>(second, name) by {
        assert(with_name::<T>(first, name) == with_name::<T>(before, name));
        assert(with_name::<T>(second, name) == with_name::<T>(before, name));
    }
    lemma_same_groups::<T>(first, second);
}

proof fn lemma_same_groups<T: Named>(first: Seq<T::V>, second: Seq<T::V>)
    requires
        sorted::<T>(first),
        sorted::<T>(second),
        first.len() == second.len(),
        forall|name: Seq<char>| #[trigger]
            with_name::<T>(first, name) == with_name::<T>(second, name),
    ensures
        first == second,
    decreases first.len(),
{
    if first.len() == 0 {
        assert(first =~= second);
    } else {
        let (a, b) = (first.drop_last(), second.drop_last());
        let (x, y) = (first.last(), second.last());
        let (n, m) = (T::name_of(x), T::name_of(y));
        assert(first =~= a.push(x));
        assert(second =~= b.push(y));
        lemma_none_after::<T>(second, first);
        lemma_none_after::<T>(first, second);
        order_is_total(n, m);
        assert(n == m);
        assert(with_name::<T>(first, n) == with_name::<T>(second, n));
        a.lemma_filter_push(x, is_named::<T>(n));
        b.lemma_filter_push(y, is_named::<T>(n));
        assert(with_name::<T>(first, n).last() == x);
        assert(with_name::<T>(second, n).last() == y);
        assert forall|name: Seq<char>| #[trigger]
            with_name::<T>(a, name) == with_name::<T>(b, name) by {
            assert(with_name::<T>(first, name) == with_name::<T>(second, name));
            a.lemma_filter_push(x, is_named::<T>(name));
            b.lemma_filter_push(y, is_named::<T>(name));
            if name == n {
                assert(with_name::<T>(a, name) =~= with_name::<T>(first, name).drop_last());
                assert(with_name::<T>(b, name) =~= with_name::<T>(second, name).drop_last());
            }
        }
        lemma_same_groups::<T>(a, b);
    }
}

/// The last of the sorted items has no smaller name than any item of `other`,
/// if both hold the same items.
proof fn lemma_none_after<T: Named>(items: Seq<T::V>, other: Seq<T::V>)
    requires
        sorted::<T>(items),
        items.len() > 0,
        other.len() > 0,
        forall|name: Seq<char>| #[trigger]
            with_name::<T>(other, name) == with_name::<T>(items, name),
    ensures
        !text_less(T::name_of(items.last()), T::name_of(other.last())),
{
    let x = other.last();
    let n = T::name_of(x);
    assert(with_name::<T>(other, n) == with_name::<T>(items, n));
    other.lemma_filter_contains(is_named::<T>(n), other.len() - 1);
    items.lemma_filter_contains_rev(is_named::<T>(n), x);
    let i = choose|i: int| 0 <= i < items.len() && items[i] == x;
    if i == items.len() - 1 {
        order_is_strict(n, n);
    }
}

} // verus!
