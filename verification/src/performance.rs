//! The bounded record of recent measurements, and how grave a performance alert is.

use vstd::prelude::*;
use std::collections::VecDeque;

verus! {

/// How grave a performance alert is.
#[derive(Debug, Clone, Copy, PartialEq, Eq, Structural)]
pub enum AlertSeverity {
    Warning,
    Critical,
}

/// The last `limit` items of `s` (all of them when there are fewer).
pub open spec fn last_items<T>(s: Seq<T>, limit: nat) -> Seq<T> {
    if s.len() > limit {
        s.skip(s.len() - limit)
    } else {
        s
    }
}

/// The most recent measurements, oldest first, never more than a fixed number of them.
pub struct History<T> {
    items: VecDeque<T>,
    limit: usize,
}

impl<T> View for History<T> {
    type V = Seq<T>;

    closed spec fn view(&self) -> Seq<T> {
        self.items@
    }
}

impl<T> History<T> {
    /// The number of measurements kept.
    pub closed spec fn spec_limit(&self) -> nat {
        self.limit as nat
    }

    /// A history never holds more than its limit.
    pub closed spec fn wf(&self) -> bool {
        self.items@.len() <= self.limit
    }

    /// An empty history that keeps at most `limit` measurements.
    pub fn new(limit: usize) -> (r: Self)
        ensures
            r.wf(),
            r@ == Seq::<T>::empty(),
            r.spec_limit() == limit,
    {
        History { items: VecDeque::with_capacity(limit), limit }
    }

    /// Records `item` as the newest measurement, dropping the oldest ones beyond the limit.
    pub fn push(&mut self, item: T)
        requires
            old(self).wf(),
        ensures
            final(self).wf(),
            final(self).spec_limit() == old(self).spec_limit(),
            final(self)@ == last_items(old(self)@.push(item), old(self).spec_limit()),
    {
        let ghost pushed = self.items@.push(item);
        self.items.push_back(item);
        assert(pushed.skip(0) =~= pushed);
        while self.items.len() > self.limit
            invariant
                self.limit == old(self).limit,
                pushed == old(self)@.push(item),
                old(self)@.len() <= self.limit,
                self.items@.len() <= pushed.len(),
                self.items@.len() == pushed.len() || self.items@.len() >= self.limit,
                self.items@ == pushed.skip(pushed.len() - self.items@.len()),
            decreases self.items@.len(),
        {
            let ghost before = self.items@;
            let popped = self.items.pop_front();
            assert(popped is Some);
            assert(self.items@ =~= pushed.skip(pushed.len() - self.items@.len()));
        }
        proof {
            if pushed.len() <= self.limit {
                assert(self.items@ =~= pushed);
            }
        }
    }

    /// Forgets every measurement.
    pub fn clear(&mut self)
        ensures
            final(self).wf(),
            final(self).spec_limit() == old(self).spec_limit(),
            final(self)@ == Seq::<T>::empty(),
    {
        self.items.clear();
    }

    /// The number of measurements held.
    pub fn len(&self) -> (r: usize)
        ensures
            r == self@.len(),
    {
        self.items.len()
    }

    /// The largest number of measurements kept.
    pub fn limit(&self) -> (r: usize)
        ensures
            r == self.spec_limit(),
    {
        self.limit
    }

    /// The measurements, oldest first.
    pub fn items(&self) -> (r: &VecDeque<T>)
        ensures
            r@ == self@,
    {
        &self.items
    }
}

/// The history that `start` becomes after `items` are recorded one by one, in order, with
/// at most `limit` kept (each step is what [`History::push`] does).
pub open spec fn after_pushes<T>(start: Seq<T>, items: Seq<T>, limit: nat) -> Seq<T>
    decreases items.len(),
{
    if items.len() == 0 {
        start
    } else {
        last_items(after_pushes(start, items.drop_last(), limit).push(items.last()), limit)
    }
}

/// Cutting a history down to its limit before recording one more item changes nothing:
/// the result keeps the same latest items as recording into the whole sequence.
pub proof fn lemma_last_items_push<T>(s: Seq<T>, x: T, limit: nat)
    ensures
        last_items(last_items(s, limit).push(x), limit) == last_items(s.push(x), limit),
{
    if s.len() > limit {
        assert(last_items(s, limit).push(x) =~= s.push(x).skip(s.len() - limit));
        assert(last_items(last_items(s, limit).push(x), limit) =~= last_items(s.push(x), limit));
    }
}

/// Recording items one by one into a history that holds no more than its limit leaves the
/// latest `limit` items of everything recorded, in the order they came.
pub proof fn lemma_history_after_pushes<T>(start: Seq<T>, items: Seq<T>, limit: nat)
    requires
        start.len() <= limit,
    ensures
        after_pushes(start, items, limit) == last_items(start + items, limit),
    decreases items.len(),
{
    if items.len() == 0 {
        assert(start + items =~= start);
    } else {
        let init = items.drop_last();
        lemma_history_after_pushes(start, init, limit);
        lemma_last_items_push(start + init, items.last(), limit);
        assert((start + init).push(items.last()) =~= start + items);
    }
}

/// After `k` items are recorded into a new history, it holds the latest `min(k, limit)` of
/// them, oldest first.
pub proof fn lemma_new_history_after_pushes<T>(items: Seq<T>, limit: nat)
    ensures
        after_pushes(Seq::empty(), items, limit) == last_items(items, limit),
        after_pushes(Seq::empty(), items, limit).len() == if items.len() < limit {
            items.len()
        } else {
            limit
        },
{
    lemma_history_after_pushes(Seq::<T>::empty(), items, limit);
    assert(Seq::<T>::empty() + items =~= items);
}

/// However many measurements are recorded, a history holds at most its limit of them, and
/// those are the most recent ones.
pub proof fn lemma_history_bounded<T>(s: Seq<T>, limit: nat)
    ensures
        last_items(s, limit).len() <= limit,
        last_items(s, limit).len() == if s.len() < limit { s.len() } else { limit },
        forall|i: int|
            0 <= i < last_items(s, limit).len() ==> #[trigger] last_items(s, limit)[i] == s[s.len()
                - last_items(s, limit).len() + i],
{
}

} // verus!
