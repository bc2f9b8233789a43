//! A bounded list of recently used items, most recent first, in which no item
//! stands twice.

use std::collections::VecDeque;
use vstd::prelude::*;
use vstd::laws_eq::{obeys_eq, obeys_eq_spec_properties};
use vstd::std_specs::cmp::PartialEqSpec;

verus! {

/// Where `value` first stands in `items`: the index of the first item that
/// equals it, or the length of `items` where none does.
pub open spec fn position<T: PartialEq>(items: Seq<T>, value: T) -> int
    decreases items.len(),
{
    if items.len() == 0 {
        0
    } else if items[0].eq_spec(&value) {
        0
    } else {
        1 + position(items.drop_first(), value)
    }
}

/// `items` without the first item that equals `value`.
pub open spec fn without<T: PartialEq>(items: Seq<T>, value: T) -> Seq<T> {
    if position(items, value) < items.len() {
        items.remove(position(items, value))
    } else {
        items
    }
}

/// What pushing `value` makes of a list with the limit `limit`, and the item
/// that leaves the list for it. The first item that equals `value` is taken
/// out, and `value` becomes the first item. If the list is then longer than
/// the limit, its last item leaves. (With the limit zero that is `value`
/// itself: such a list holds nothing.)
pub open spec fn pushed<T: PartialEq>(items: Seq<T>, limit: usize, value: T) -> (Seq<T>, Option<T>) {
    let grown = seq![value] + without(items, value);
    if grown.len() > limit {
        (grown.drop_last(), Some(grown.last()))
    } else {
        (grown, None)
    }
}

/// Whether no two items of `items` are equal.
pub open spec fn distinct<T: PartialEq>(items: Seq<T>) -> bool {
    forall|i: int, j: int|
        #![trigger items[i], items[j]]
        0 <= i < items.len() && 0 <= j < items.len() && i != j ==> !items[i].eq_spec(&items[j])
}

/// The most recently used items, most recent first.
pub struct History<T> {
    deque: VecDeque<T>,
    limit: usize,
}

impl<T> View for History<T> {
    type V = Seq<T>;

    closed spec fn view(&self) -> Seq<T> {
        self.deque@
    }
}

impl<T> History<T> {
    #[verifier::type_invariant]
    spec fn bounded(self) -> bool {
        self.deque@.len() <= self.limit
    }

    /// The limit that the list was made with.
    pub closed spec fn spec_limit(self) -> usize {
        self.limit
    }

    /// An empty list that keeps `limit` items.
    pub fn new(limit: usize) -> (history: History<T>)
        ensures
            history@ == Seq::<T>::empty(),
            history.spec_limit() == limit,
    {
        History { deque: VecDeque::new(), limit }
    }

    /// An empty list that keeps `limit` items, with room for `capacity`.
    pub fn with_capacity(limit: usize, capacity: usize) -> (history: History<T>)
        ensures
            history@ == Seq::<T>::empty(),
            history.spec_limit() == limit,
    {
        History { deque: VecDeque::with_capacity(capacity), limit }
    }

    /// The limit that the list was made with.
    pub fn limit(&self) -> (limit: usize)
        ensures
            limit == self.spec_limit(),
    {
        self.limit
    }

    /// Empties the list.
    pub fn clear(&mut self)
        ensures
            final(self)@ == Seq::<T>::empty(),
            final(self).spec_limit() == old(self).spec_limit(),
    {
        let mut deque: VecDeque<T> = VecDeque::new();
        std::mem::swap(&mut self.deque, &mut deque);
        deque.clear();
        std::mem::swap(&mut self.deque, &mut deque);
    }

    /// The number of items in the list. It never exceeds the limit.
    pub fn len(&self) -> (len: usize)
        ensures
            len == self@.len(),
            len <= self.spec_limit(),
    {
        proof {
            use_type_invariant(self);
        }
        self.deque.len()
    }

    /// Whether the list holds nothing.
    pub fn is_empty(&self) -> (empty: bool)
        ensures
            empty == (self@.len() == 0),
    {
        self.deque.len() == 0
    }

    /// The items, most recent first.
    pub fn read(&self) -> (items: &VecDeque<T>)
        ensures
            items@ == self@,
            items@.len() <= self.spec_limit(),
    {
        proof {
            use_type_invariant(self);
        }
        &self.deque
    }

    /// Gives up the list for its items, most recent first.
    pub fn into_inner(self) -> (items: VecDeque<T>)
        ensures
            items@ == self@,
            items@.len() <= self.spec_limit(),
    {
        proof {
            use_type_invariant(&self);
        }
        self.deque
    }

    /// Gives up the list for its items in the order in which they would be
    /// walked: most recent first.
    pub fn into_iter(self) -> (items: Vec<T>)
        ensures
            items@ == self@,
    {
        let mut deque = self.deque;
        let ghost all = deque@;
        let mut items: Vec<T> = Vec::new();
        while deque.len() > 0
            invariant
                items@ + deque@ == all,
            decreases deque@.len(),
        {
            let front = deque.pop_front();
            items.push(front.unwrap());
            assert(items@ + deque@ =~= all);
        }
        assert(items@ =~= all);
        items
    }
}

impl<T: PartialEq> History<T> {
    /// Makes `value` the most recent item. An item equal to it that the list
    /// holds already is taken out first, so that `value` moves to the front
    /// and does not stand twice. If the list is then longer than its limit,
    /// its least recent item leaves and is returned.
    pub fn push(&mut self, value: T) -> (evicted: Option<T>)
        ensures
            final(self).spec_limit() == old(self).spec_limit(),
            final(self)@.len() <= old(self).spec_limit(),
            T::obeys_eq_spec() ==> final(self)@ == pushed(old(self)@, old(self).spec_limit(), value).0,
            T::obeys_eq_spec() ==> evicted == pushed(old(self)@, old(self).spec_limit(), value).1,
            obeys_eq::<T>() && distinct(old(self)@) ==> distinct(final(self)@),
    {
        proof {
            use_type_invariant(&*self);
        }
        let ghost before = self.deque@;
        let mut deque: VecDeque<T> = VecDeque::new();
        std::mem::swap(&mut self.deque, &mut deque);
        let mut at: usize = 0;
        while at < deque.len() && !(deque[at] == value)
            invariant
                at <= deque@.len(),
                deque@ == before,
                T::obeys_eq_spec() ==> forall|k: int|
                    0 <= k < at ==> !(#[trigger] before[k]).eq_spec(&value),
            decreases deque@.len() - at,
        {
            at += 1;
        }
        proof {
            if T::obeys_eq_spec() {
                lemma_position(before, value, at as int);
            }
        }
        if at < deque.len() {
            deque.remove(at);
        }
        deque.push_front(value);
        let last = if deque.len() > self.limit {
            deque.pop_back()
        } else {
            None
        };
        std::mem::swap(&mut self.deque, &mut deque);
        proof {
            if obeys_eq::<T>() && distinct(before) {
                lemma_push_keeps_distinct(before, self.limit, value);
            }
        }
        last
    }

    /// Whether the list holds an item equal to `value`.
    pub fn contains(&self, value: &T) -> (held: bool)
        ensures
            T::obeys_eq_spec() ==> held == (position(self@, *value) < self@.len()),
    {
        let mut at: usize = 0;
        while at < self.deque.len() && !(self.deque[at] == *value)
            invariant
                at <= self.deque@.len(),
                T::obeys_eq_spec() ==> forall|k: int|
                    0 <= k < at ==> !(#[trigger] self.deque@[k]).eq_spec(value),
            decreases self.deque@.len() - at,
        {
            at += 1;
        }
        proof {
            if T::obeys_eq_spec() {
                lemma_position(self.deque@, *value, at as int);
            }
        }
        at < self.deque.len()
    }
}

/// The position of `value` is the first index at which an equal item stands.
pub proof fn lemma_position<T: PartialEq>(items: Seq<T>, value: T, at: int)
    requires
        0 <= at <= items.len(),
        forall|k: int| 0 <= k < at ==> !(#[trigger] items[k]).eq_spec(&value),
        at < items.len() ==> items[at].eq_spec(&value),
    ensures
        position(items, value) == at,
    decreases items.len(),
{
    if items.len() > 0 && at > 0 {
        assert(!items[0].eq_spec(&value));
        assert forall|k: int| 0 <= k < at - 1 implies !(#[trigger] items.drop_first()[k]).eq_spec(
            &value,
        ) by {
            assert(items.drop_first()[k] == items[k + 1]);
        }
        lemma_position(items.drop_first(), value, at - 1);
    }
}

/// What the position of `value` says: no item before it equals `value`, and
/// the item at it does, if there is one.
pub proof fn lemma_position_found<T: PartialEq>(items: Seq<T>, value: T)
    ensures
        0 <= position(items, value) <= items.len(),
        forall|k: int| 0 <= k < position(items, value) ==> !(#[trigger] items[k]).eq_spec(&value),
        position(items, value) < items.len() ==> items[position(items, value)].eq_spec(&value),
    decreases items.len(),
{
    if items.len() > 0 && !items[0].eq_spec(&value) {
        lemma_position_found(items.drop_first(), value);
        let rest = position(items.drop_first(), value);
        assert forall|k: int| 0 <= k < rest + 1 implies !(#[trigger] items[k]).eq_spec(&value) by {
            if k > 0 {
                assert(items.drop_first()[k - 1] == items[k]);
            }
        }
        if rest < items.drop_first().len() {
            assert(items.drop_first()[rest] == items[rest + 1]);
        }
    }
}

/// Pushing keeps a list free of equal items: in a list without equal items,
/// an item equal to the pushed one is taken out, so none is left behind. In
/// a list with a limit above zero the pushed item then stands first.
pub proof fn lemma_push_keeps_distinct<T: PartialEq>(items: Seq<T>, limit: usize, value: T)
    requires
        obeys_eq::<T>(),
        distinct(items),
    ensures
        distinct(pushed(items, limit, value).0),
        limit > 0 ==> pushed(items, limit, value).0.len() > 0 && pushed(items, limit, value).0[0]
            == value,
{
    reveal(obeys_eq_spec_properties);
    lemma_position_found(items, value);
    let at = position(items, value);
    let rest = without(items, value);
    assert forall|k: int| 0 <= k < rest.len() implies !(#[trigger] rest[k]).eq_spec(&value) by {
        if at < items.len() {
            let from = if k < at {
                k
            } else {
                k + 1
            };
            assert(rest[k] == items[from]);
            if items[from].eq_spec(&value) {
                assert(value.eq_spec(&items[at]));
                assert(items[from].eq_spec(&items[at]));
            }
        }
    }
    assert forall|i: int, j: int|
        #![trigger rest[i], rest[j]]
        0 <= i < rest.len() && 0 <= j < rest.len() && i != j implies !rest[i].eq_spec(&rest[j]) by {
        if at < items.len() {
            let fi = if i < at {
                i
            } else {
                i + 1
            };
            let fj = if j < at {
                j
            } else {
                j + 1
            };
            assert(rest[i] == items[fi] && rest[j] == items[fj]);
        }
    }
    let grown = seq![value] + rest;
    let after = pushed(items, limit, value).0;
    assert forall|i: int, j: int|
        #![trigger after[i], after[j]]
        0 <= i < after.len() && 0 <= j < after.len() && i != j implies !after[i].eq_spec(
        &after[j],
    ) by {
        assert(after[i] == grown[i] && after[j] == grown[j]);
        if i == 0 {
            assert(grown[j] == rest[j - 1]);
            assert(!rest[j - 1].eq_spec(&value));
        } else if j == 0 {
            assert(grown[i] == rest[i - 1]);
        } else {
            assert(grown[i] == rest[i - 1] && grown[j] == rest[j - 1]);
        }
    }
}

/// What pushing `values`, one after the other, makes of a list with the
/// limit `limit`.
pub open spec fn pushed_all<T: PartialEq>(items: Seq<T>, limit: usize, values: Seq<T>) -> Seq<T>
    decreases values.len(),
{
    if values.len() == 0 {
        items
    } else {
        pushed(pushed_all(items, limit, values.drop_last()), limit, values.last()).0
    }
}

/// Pushing keeps a list within its limit: a list that is at most as long as
/// its limit is so after the push.
pub proof fn lemma_push_within_limit<T: PartialEq>(items: Seq<T>, limit: usize, value: T)
    requires
        items.len() <= limit,
    ensures
        pushed(items, limit, value).0.len() <= limit,
{
    lemma_position_found(items, value);
}

/// After any sequence of pushes a list that began empty is at most as long as
/// its limit.
pub proof fn lemma_pushes_within_limit<T: PartialEq>(limit: usize, values: Seq<T>)
    ensures
        pushed_all(Seq::<T>::empty(), limit, values).len() <= limit,
    decreases values.len(),
{
    if values.len() > 0 {
        lemma_pushes_within_limit(limit, values.drop_last());
        lemma_push_within_limit(
            pushed_all(Seq::<T>::empty(), limit, values.drop_last()),
            limit,
            values.last(),
        );
    }
}

/// After any sequence of pushes a list that began empty holds no two equal
/// items, and with a limit above zero the item pushed last stands first.
pub proof fn lemma_pushes_keep_distinct<T: PartialEq>(limit: usize, values: Seq<T>)
    requires
        obeys_eq::<T>(),
    ensures
        distinct(pushed_all(Seq::<T>::empty(), limit, values)),
        values.len() > 0 && limit > 0 ==> pushed_all(Seq::<T>::empty(), limit, values).len() > 0
            && pushed_all(Seq::<T>::empty(), limit, values)[0] == values.last(),
    decreases values.len(),
{
    if values.len() > 0 {
        lemma_pushes_keep_distinct(limit, values.drop_last());
        lemma_push_keeps_distinct(
            pushed_all(Seq::<T>::empty(), limit, values.drop_last()),
            limit,
            values.last(),
        );
    }
}

/// Pushing an item that the list holds evicts nothing and keeps the other
/// items in their order; pushing a new item into a list below its limit
/// evicts nothing; pushing a new item into a full list evicts its last item.
pub proof fn lemma_push_promotes<T: PartialEq>(items: Seq<T>, limit: usize, value: T)
    requires
        items.len() <= limit,
    ensures
        position(items, value) < items.len() ==> pushed(items, limit, value) == (
            seq![value] + items.remove(position(items, value)),
            None::<T>,
        ),
        items.len() < limit ==> pushed(items, limit, value).1 is None,
        position(items, value) == items.len() && items.len() == limit && limit > 0 ==> pushed(
            items,
            limit,
            value,
        ) == (seq![value] + items.drop_last(), Some(items.last())),
        limit == 0 ==> pushed(items, limit, value) == (Seq::<T>::empty(), Some(value)),
{
    lemma_position_found(items, value);
    if position(items, value) == items.len() && items.len() == limit && limit > 0 {
        assert((seq![value] + items).drop_last() =~= seq![value] + items.drop_last());
    }
    if limit == 0 {
        assert((seq![value] + items).drop_last() =~= Seq::<T>::empty());
    }
}

} // verus!
