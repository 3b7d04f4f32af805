//! The bounded store: a buffer of fixed capacity that keeps the newest items
//! and lets the oldest go first.

use vstd::pervasive::cloned;
use vstd::prelude::*;

verus! {

/// The last `c` items of `s`, or all of `s` where it holds no more than `c`.
pub open spec fn keep_last<T>(s: Seq<T>, c: nat) -> Seq<T> {
    if s.len() <= c {
        s
    } else {
        s.subrange(s.len() - c, s.len() as int)
    }
}

/// What a store of capacity `c` that holds `start` holds after each item of
/// `items` was appended to it in turn.
pub open spec fn after_appends<T>(start: Seq<T>, items: Seq<T>, c: nat) -> Seq<T>
    decreases items.len(),
{
    if items.len() == 0 {
        start
    } else {
        keep_last(after_appends(start, items.drop_last(), c).push(items.last()), c)
    }
}

/// A store never holds more than its capacity: whatever it held, after an
/// item was inserted it holds no more than `c` items, and what it holds are
/// the newest, in the order in which they came.
pub proof fn law_store_never_exceeds_capacity<T>(held: Seq<T>, item: T, c: nat)
    ensures
        keep_last(held.push(item), c).len() <= c,
        keep_last(held.push(item), c).len() <= held.len() + 1,
        forall|i: int|
            0 <= i < keep_last(held.push(item), c).len() ==> #[trigger] keep_last(
                held.push(item),
                c,
            )[i] == held.push(item)[held.len() + 1 - keep_last(held.push(item), c).len() + i],
{
}

/// Appending to what was kept keeps what appending to the whole would keep.
pub proof fn lemma_keep_last_push<T>(s: Seq<T>, x: T, c: nat)
    ensures
        keep_last(keep_last(s, c).push(x), c) == keep_last(s.push(x), c),
{
    assert(keep_last(keep_last(s, c).push(x), c) =~= keep_last(s.push(x), c));
}

/// Keeping the last items of what was kept before, with more behind it, keeps
/// what the whole would keep.
pub proof fn lemma_keep_last_add<T>(s: Seq<T>, t: Seq<T>, c: nat)
    ensures
        keep_last(keep_last(s, c) + t, c) == keep_last(s + t, c),
{
    assert(keep_last(keep_last(s, c) + t, c) =~= keep_last(s + t, c));
}

/// What the kept items hold is what is kept of what the items hold.
pub proof fn lemma_keep_last_map<T, U>(a: Seq<T>, b: Seq<T>, f: spec_fn(T) -> U, c: nat)
    ensures
        keep_last(a + b, c).map_values(f) == keep_last(a.map_values(f) + b.map_values(f), c),
{
    assert(keep_last(a + b, c).map_values(f) =~= keep_last(
        a.map_values(f) + b.map_values(f),
        c,
    ));
}

/// Appending items one by one keeps the last `c` of all that was ever held.
pub proof fn lemma_appends_keep_last<T>(start: Seq<T>, items: Seq<T>, c: nat)
    requires
        start.len() <= c,
    ensures
        after_appends(start, items, c) == keep_last(start + items, c),
    decreases items.len(),
{
    if items.len() == 0 {
        assert(start + items =~= start);
    } else {
        let init = items.drop_last();
        lemma_appends_keep_last(start, init, c);
        lemma_keep_last_push(start + init, items.last(), c);
        assert((start + init).push(items.last()) =~= start + items);
    }
}

/// After more items than its capacity were appended to a store, it holds
/// exactly the last `c` of them, in the order in which they came.
pub proof fn law_store_holds_last_items<T>(start: Seq<T>, items: Seq<T>, c: nat)
    requires
        start.len() <= c,
        items.len() > c,
    ensures
        after_appends(start, items, c) == items.subrange(items.len() - c, items.len() as int),
{
    lemma_appends_keep_last(start, items, c);
    assert(keep_last(start + items, c) =~= items.subrange(items.len() - c, items.len() as int));
}

/// A buffer that holds at most `capacity` items, the newest last.
pub struct BoundedStore<T> {
    items: Vec<T>,
    capacity: usize,
}

impl<T> View for BoundedStore<T> {
    type V = Seq<T>;

    closed spec fn view(&self) -> Seq<T> {
        self.items@
    }
}

impl<T> BoundedStore<T> {
    /// The capacity that the store was made with.
    pub closed spec fn limit(self) -> nat {
        self.capacity as nat
    }

    /// The store holds no more than its capacity. This holds of every store.
    #[verifier::type_invariant]
    pub open spec fn within_capacity(self) -> bool {
        self@.len() <= self.limit()
    }

    /// An empty store that holds at most `capacity` items.
    pub fn new(capacity: usize) -> (r: Self)
        ensures
            r@ == Seq::<T>::empty(),
            r.limit() == capacity,
    {
        BoundedStore { items: Vec::new(), capacity }
    }

    /// The capacity that the store was made with.
    pub fn capacity(&self) -> (c: usize)
        ensures
            c == self.limit(),
    {
        self.capacity
    }

    /// The number of items held, which never exceeds the capacity.
    pub fn len(&self) -> (n: usize)
        ensures
            n == self@.len(),
            n <= self.limit(),
    {
        proof {
            use_type_invariant(self);
        }
        self.items.len()
    }

    /// Whether the store holds nothing.
    pub fn is_empty(&self) -> (r: bool)
        ensures
            r == (self@.len() == 0),
    {
        self.items.len() == 0
    }

    /// The items held, oldest first.
    pub fn items(&self) -> (r: &Vec<T>)
        ensures
            r@ == self@,
            r@.len() <= self.limit(),
    {
        proof {
            use_type_invariant(self);
        }
        &self.items
    }

    /// The item at index `i`, counted from the oldest.
    pub fn get(&self, i: usize) -> (r: Option<&T>)
        ensures
            r == if i < self@.len() {
                Some(&self@[i as int])
            } else {
                None
            },
    {
        if i < self.items.len() {
            Some(&self.items[i])
        } else {
            None
        }
    }

    /// Inserts `item` as the newest and lets the oldest go where the store
    /// would hold more than its capacity.
    pub fn append(&mut self, item: T)
        ensures
            final(self)@ == keep_last(old(self)@.push(item), old(self).limit()),
            final(self).limit() == old(self).limit(),
    {
        let mut items: Vec<T> = Vec::new();
        core::mem::swap(&mut self.items, &mut items);
        items.push(item);
        let n: usize = items.len();
        if n > self.capacity {
            let kept = items.split_off(n - self.capacity);
            self.items = kept;
        } else {
            self.items = items;
        }
    }

    /// Inserts the items of `batch` in their order and lets the oldest go
    /// where the store would hold more than its capacity.
    pub fn extend(&mut self, batch: Vec<T>)
        ensures
            final(self)@ == keep_last(old(self)@ + batch@, old(self).limit()),
            final(self).limit() == old(self).limit(),
    {
        let mut items: Vec<T> = Vec::new();
        core::mem::swap(&mut self.items, &mut items);
        let mut batch = batch;
        items.append(&mut batch);
        let n: usize = items.len();
        if n > self.capacity {
            let kept = items.split_off(n - self.capacity);
            self.items = kept;
        } else {
            self.items = items;
        }
    }

    /// Puts `item` in the place of the item at index `i`, counted from the
    /// oldest, and says whether there was such an item; without one the store
    /// stays as it was.
    pub fn replace(&mut self, i: usize, item: T) -> (r: bool)
        ensures
            r == (i < old(self)@.len()),
            final(self)@ == if i < old(self)@.len() {
                old(self)@.update(i as int, item)
            } else {
                old(self)@
            },
            final(self).limit() == old(self).limit(),
    {
        proof {
            use_type_invariant(&*self);
        }
        if i < self.items.len() {
            let mut items: Vec<T> = Vec::new();
            core::mem::swap(&mut self.items, &mut items);
            items.set(i, item);
            self.items = items;
            true
        } else {
            false
        }
    }

    /// An ordered copy of the items held, oldest first.
    pub fn snapshot(&self) -> (r: Vec<T>) where T: Clone
        ensures
            r@.len() == self@.len(),
            forall|i: int| 0 <= i < r@.len() ==> cloned::<T>(#[trigger] self@[i], r@[i]),
    {
        let mut r: Vec<T> = Vec::new();
        let mut i: usize = 0;
        while i < self.items.len()
            invariant
                i <= self.items.len(),
                r@.len() == i,
                forall|k: int| 0 <= k < i ==> cloned::<T>(#[trigger] self.items@[k], r@[k]),
            decreases self.items.len() - i,
        {
            r.push(self.items[i].clone());
            i += 1;
        }
        r
    }
}

/// Appending items to a store one by one leaves what one `extend` with all of
/// them leaves.
pub proof fn law_extend_is_repeated_append<T>(start: Seq<T>, items: Seq<T>, c: nat)
    requires
        start.len() <= c,
    ensures
        after_appends(start, items, c) == keep_last(start + items, c),
{
    lemma_appends_keep_last(start, items, c);
}

} // verus!
