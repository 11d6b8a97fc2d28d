//! Rolling windows: a history that keeps only its most recent items.
use vstd::prelude::*;
use std::collections::VecDeque;

verus! {

/// The last `n` items of `s` (all of `s` when it has at most `n`).
pub open spec fn keep_last<T>(s: Seq<T>, n: nat) -> Seq<T> {
    if s.len() > n {
        s.subrange(s.len() - n, s.len() as int)
    } else {
        s
    }
}

/// Trimming to the last `n` items and then appending and trimming again keeps
/// the same items as appending everything and trimming once: a rolling
/// window always holds the latest `n` items of all that were ever added.
pub proof fn lemma_keep_last_append<T>(a: Seq<T>, b: Seq<T>, n: nat)
    ensures
        keep_last(keep_last(a, n) + b, n) == keep_last(a + b, n),
{
    let ka = keep_last(a, n);
    if a.len() > n {
        let l = (ka + b).len();
        let m = (a + b).len();
        assert(m == l + (a.len() - n));
        if l > n {
            assert((ka + b).subrange(l - n, l as int) =~= (a + b).subrange(m - n, m as int));
        } else {
            assert(ka + b =~= (a + b).subrange(m - n, m as int));
        }
    } else {
        assert(ka == a);
    }
}

/// The last `n` items are a suffix of `s` of length `min(n, |s|)`: item `i`
/// of the result is the item that many places from the end of `s`.
pub proof fn lemma_keep_last_suffix<T>(s: Seq<T>, n: nat)
    ensures
        keep_last(s, n).len() == if s.len() < n {
            s.len()
        } else {
            n
        },
        forall|i: int|
            0 <= i < keep_last(s, n).len() ==> #[trigger] keep_last(s, n)[i] == s[s.len()
                - keep_last(s, n).len() + i],
{
}

/// Appending one item to a window of at most `n` items and dropping the
/// oldest where the window was full keeps the last `n` items.
pub proof fn lemma_keep_last_push<T>(s: Seq<T>, x: T, n: nat)
    requires
        s.len() <= n,
        n > 0,
    ensures
        keep_last(s.push(x), n) == (if s.len() == n {
            s.subrange(1, s.len() as int).push(x)
        } else {
            s.push(x)
        }),
{
    if s.len() == n {
        assert(s.push(x).subrange(1, n as int + 1) =~= s.subrange(1, s.len() as int).push(x));
    }
}

/// A history that holds at most `capacity` items, oldest first.
pub struct BoundedHistory<T> {
    items: VecDeque<T>,
    capacity: usize,
}

impl<T> View for BoundedHistory<T> {
    type V = Seq<T>;

    closed spec fn view(&self) -> Seq<T> {
        self.items@
    }
}

impl<T> BoundedHistory<T> {
    /// The most items the history holds.
    pub closed spec fn capacity_spec(&self) -> nat {
        self.capacity as nat
    }

    /// The history holds no more items than its capacity, which is positive.
    pub closed spec fn wf(&self) -> bool {
        &&& self.capacity > 0
        &&& self.items@.len() <= self.capacity
    }

    /// An empty history of the given capacity.
    pub fn new(capacity: usize) -> (r: Self)
        requires
            capacity > 0,
        ensures
            r.wf(),
            r@ == Seq::<T>::empty(),
            r.capacity_spec() == capacity,
    {
        BoundedHistory { items: VecDeque::new(), capacity }
    }

    /// Adds an item as the newest, dropping the oldest where the history is full.
    pub fn push(&mut self, item: T)
        requires
            old(self).wf(),
        ensures
            final(self).wf(),
            final(self).capacity_spec() == old(self).capacity_spec(),
            final(self)@ == keep_last(old(self)@.push(item), old(self).capacity_spec()),
    {
        proof {
            lemma_keep_last_push(self.items@, item, self.capacity as nat);
        }
        if self.items.len() >= self.capacity {
            self.items.pop_front();
        }
        self.items.push_back(item);
    }

    /// The number of items held.
    pub fn len(&self) -> (r: usize)
        ensures
            r == self@.len(),
    {
        self.items.len()
    }

    /// The most items the history holds.
    pub fn capacity(&self) -> (r: usize)
        ensures
            r == self.capacity_spec(),
    {
        self.capacity
    }

    /// The items, oldest first.
    pub fn items(&self) -> (r: &VecDeque<T>)
        ensures
            r@ == self@,
    {
        &self.items
    }

    /// The newest `count` items (or all, where fewer are held), newest first.
    pub fn recent(&self, count: usize) -> (r: Vec<&T>)
        ensures
            r@.len() == if count < self@.len() {
                count as int
            } else {
                self@.len() as int
            },
            forall|i: int| 0 <= i < r@.len() ==> *(#[trigger] r@[i]) == self@[self@.len() - 1 - i],
    {
        let n = self.items.len();
        let mut out: Vec<&T> = Vec::new();
        let mut i: usize = 0;
        while i < count && i < n
            invariant
                n == self@.len(),
                i <= n,
                i <= count,
                out@.len() == i,
                forall|j: int| 0 <= j < i ==> *(#[trigger] out@[j]) == self@[n - 1 - j],
            decreases n - i,
        {
            out.push(&self.items[n - 1 - i]);
            i = i + 1;
        }
        out
    }

    /// Keeps the items for which `keep` holds, in their order, and returns
    /// how many were dropped.
    pub fn retain_marked(&mut self, keep: &Vec<bool>) -> (removed: usize)
        requires
            old(self).wf(),
            keep@.len() == old(self)@.len(),
        ensures
            final(self).wf(),
            final(self).capacity_spec() == old(self).capacity_spec(),
            final(self)@ == filter_marked_spec(old(self)@, keep@),
            removed == old(self)@.len() - final(self)@.len(),
    {
        let ghost orig = self.items@;
        let ghost cap = self.capacity;
        let n = self.items.len();
        let mut kept: VecDeque<T> = VecDeque::new();
        let mut i: usize = 0;
        while i < n
            invariant
                n == orig.len(),
                keep@.len() == n,
                i <= n,
                self.items@ == orig.subrange(i as int, n as int),
                kept@ == filter_marked_spec(orig.take(i as int), keep@.take(i as int)),
                kept@.len() <= i,
                self.capacity == cap,
                cap > 0,
                orig.len() <= cap,
            decreases n - i,
        {
            let item = self.items.pop_front().unwrap();
            proof {
                assert(orig.take(i + 1) =~= orig.take(i as int).push(item));
                assert(keep@.take(i + 1) =~= keep@.take(i as int).push(keep@[i as int]));
                lemma_filter_marked_push(orig.take(i as int), keep@.take(i as int), item, keep@[i as int]);
                lemma_filter_marked_len(orig.take(i + 1), keep@.take(i + 1));
                assert(self.items@ =~= orig.subrange(i + 1, n as int));
            }
            if keep[i] {
                kept.push_back(item);
            }
            i = i + 1;
        }
        proof {
            assert(orig.take(n as int) =~= orig);
            assert(keep@.take(n as int) =~= keep@);
        }
        self.items = kept;
        n - self.items.len()
    }
}

/// Filtering by marks: the items whose mark is `true`, in order.
pub open spec fn filter_marked_spec<T>(s: Seq<T>, marks: Seq<bool>) -> Seq<T>
    decreases s.len(),
{
    if s.len() == 0 {
        Seq::empty()
    } else if marks.last() {
        filter_marked_spec(s.drop_last(), marks.drop_last()).push(s.last())
    } else {
        filter_marked_spec(s.drop_last(), marks.drop_last())
    }
}

/// Filtering a sequence extended by one item.
pub proof fn lemma_filter_marked_push<T>(s: Seq<T>, marks: Seq<bool>, x: T, b: bool)
    ensures
        filter_marked_spec(s.push(x), marks.push(b)) == (if b {
            filter_marked_spec(s, marks).push(x)
        } else {
            filter_marked_spec(s, marks)
        }),
{
    assert(s.push(x).drop_last() =~= s);
    assert(marks.push(b).drop_last() =~= marks);
}

/// Filtering keeps at most as many items as there were.
pub proof fn lemma_filter_marked_len<T>(s: Seq<T>, marks: Seq<bool>)
    ensures
        filter_marked_spec(s, marks).len() <= s.len(),
    decreases s.len(),
{
    if s.len() > 0 {
        lemma_filter_marked_len(s.drop_last(), marks.drop_last());
    }
}

} // verus!
