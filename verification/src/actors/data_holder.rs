//! The snapshot store: the most recent indicators, newest first.

use crate::messages::Indicators;
use std::collections::VecDeque;
use vstd::prelude::*;

verus! {

/// The buffer after one more item was recorded in front of it: at most
/// `capacity` items stay, and it is the oldest that leave.
pub open spec fn recorded<T>(buffer: Seq<T>, item: T, capacity: nat) -> Seq<T> {
    if buffer.len() < capacity {
        seq![item] + buffer
    } else {
        (seq![item] + buffer).take(capacity as int)
    }
}

/// The buffer after each of `items` was recorded, the first of them first.
pub open spec fn recorded_all<T>(buffer: Seq<T>, items: Seq<T>, capacity: nat) -> Seq<T>
    decreases items.len(),
{
    if items.len() == 0 {
        buffer
    } else {
        recorded(recorded_all(buffer, items.drop_last(), capacity), items.last(), capacity)
    }
}

/// The `n` newest items of a buffer, or all of it where it holds fewer.
pub open spec fn recent_of<T>(buffer: Seq<T>, n: nat) -> Seq<T> {
    if n < buffer.len() {
        buffer.take(n as int)
    } else {
        buffer
    }
}

/// A bounded buffer of indicators in the order newest first.
pub struct DataHolder {
    pub indicators_vec: VecDeque<Indicators>,
    pub capacity: usize,
}

impl View for DataHolder {
    type V = Seq<Indicators>;

    open spec fn view(&self) -> Seq<Indicators> {
        self.indicators_vec@
    }
}

impl Clone for DataHolder {
    fn clone(&self) -> (r: Self)
        ensures
            r@ == self@,
            r.capacity == self.capacity,
    {
        let r = DataHolder { indicators_vec: self.indicators_vec.clone(), capacity: self.capacity };
        assert(r@ =~= self@);
        r
    }
}

impl DataHolder {
    /// The buffer holds no more than its capacity.
    pub open spec fn wf(&self) -> bool {
        self.indicators_vec@.len() <= self.capacity
    }

    /// An empty buffer without a bound of its own.
    pub fn new() -> (r: Self)
        ensures
            r.wf(),
            r@ == Seq::<Indicators>::empty(),
            r.capacity == usize::MAX,
    {
        DataHolder { indicators_vec: VecDeque::new(), capacity: usize::MAX }
    }

    /// An empty buffer that keeps the `capacity` newest items.
    pub fn with_capacity(capacity: usize) -> (r: Self)
        ensures
            r.wf(),
            r@ == Seq::<Indicators>::empty(),
            r.capacity == capacity,
    {
        DataHolder { indicators_vec: VecDeque::new(), capacity }
    }

    /// The number of items held.
    pub fn len(&self) -> (r: usize)
        ensures
            r == self@.len(),
    {
        self.indicators_vec.len()
    }

    /// Puts `item` in front of the buffer. Of what is then held beyond the
    /// capacity, the oldest leave.
    pub fn record(&mut self, item: Indicators)
        ensures
            final(self).wf(),
            final(self).capacity == old(self).capacity,
            final(self)@ == recorded(old(self)@, item, old(self).capacity as nat),
    {
        if self.capacity == 0 {
            self.indicators_vec.clear();
            assert(self@ =~= recorded(old(self)@, item, 0));
            return ;
        }
        self.indicators_vec.truncate(self.capacity - 1);
        self.indicators_vec.push_front(item);
        assert(self@ =~= recorded(old(self)@, item, old(self).capacity as nat));
    }

    /// A copy of the `n` newest items, newest first, or of all items where
    /// fewer are held. The buffer itself stays as it is.
    pub fn recent(&self, n: usize) -> (r: Vec<Indicators>)
        ensures
            r@ == recent_of(self@, n as nat),
    {
        let mut out: Vec<Indicators> = Vec::new();
        let held: usize = self.indicators_vec.len();
        let count: usize = if n < held {
            n
        } else {
            held
        };
        let mut i: usize = 0;
        while i < count
            invariant
                held == self@.len(),
                count <= held,
                i <= count,
                out@ == self@.take(i as int),
            decreases count - i,
        {
            out.push(self.indicators_vec[i].clone());
            assert(out@ =~= self@.take(i + 1));
            i += 1;
        }
        assert(self@.take(held as int) =~= self@);
        out
    }
}

/// Recording into an empty buffer keeps the newest items, newest first: the
/// items in reverse, cut at the capacity.
pub proof fn lemma_recorded_all_newest_first<T>(items: Seq<T>, capacity: nat)
    ensures
        recorded_all(Seq::<T>::empty(), items, capacity) == recent_of(items.reverse(), capacity),
    decreases items.len(),
{
    let got = recorded_all(Seq::<T>::empty(), items, capacity);
    if items.len() == 0 {
        assert(got =~= recent_of(items.reverse(), capacity));
    } else {
        let before = items.drop_last();
        lemma_recorded_all_newest_first(before, capacity);
        assert(items.reverse() =~= seq![items.last()] + before.reverse());
        assert(got =~= recent_of(items.reverse(), capacity));
    }
}

/// After the items were recorded into an empty buffer that can hold them
/// all, a query for `k` answers with the `k` newest, or with all where
/// there are fewer, the newest first.
pub proof fn lemma_recent_after_records<T>(items: Seq<T>, capacity: nat, k: nat)
    requires
        items.len() <= capacity,
    ensures
        ({
            let answer = recent_of(recorded_all(Seq::<T>::empty(), items, capacity), k);
            &&& answer.len() == if k < items.len() {
                k
            } else {
                items.len()
            }
            &&& forall|i: int|
                0 <= i < answer.len() ==> #[trigger] answer[i] == items[items.len() - 1 - i]
        }),
{
    lemma_recorded_all_newest_first(items, capacity);
}

} // verus!
