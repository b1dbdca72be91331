//! A bounded window over the most recent values of one metric.

use std::collections::VecDeque;
use vstd::prelude::*;

verus! {

/// The window `window` after `value` arrived: the value leads, and what no
/// longer fits within `capacity` is dropped from the old end.
pub open spec fn pushed<T>(window: Seq<T>, value: T, capacity: nat) -> Seq<T> {
    let grown = seq![value] + window;
    if grown.len() > capacity {
        grown.take(capacity as int)
    } else {
        grown
    }
}

/// The window after each value of `values` arrived in turn.
pub open spec fn pushed_all<T>(window: Seq<T>, values: Seq<T>, capacity: nat) -> Seq<T>
    decreases values.len(),
{
    if values.len() == 0 {
        window
    } else {
        pushed(pushed_all(window, values.drop_last(), capacity), values.last(), capacity)
    }
}

/// The values of `values` from the last one back to the first.
pub open spec fn newest_first<T>(values: Seq<T>) -> Seq<T> {
    Seq::new(values.len(), |i: int| values[values.len() - 1 - i])
}

/// A window that holds at most `capacity` values never grows beyond it,
/// whatever arrives.
pub proof fn lemma_pushed_bounded<T>(window: Seq<T>, value: T, capacity: nat)
    ensures
        pushed(window, value, capacity).len() <= capacity,
        pushed(window, value, capacity).len() <= window.len() + 1,
        window.len() < capacity ==> pushed(window, value, capacity).len() == window.len() + 1,
        capacity > 0 ==> pushed(window, value, capacity)[0] == value,
{
}

/// After a run of arrivals the window holds the most recent ones, newest at
/// the front, followed by what remains of its earlier content, all cut to
/// the capacity.
pub proof fn lemma_pushed_all<T>(window: Seq<T>, values: Seq<T>, capacity: nat)
    requires
        window.len() <= capacity,
    ensures
        pushed_all(window, values, capacity) == (newest_first(values) + window).take(
            if values.len() + window.len() > capacity {
                capacity as int
            } else {
                (values.len() + window.len()) as int
            },
        ),
    decreases values.len(),
{
    let whole = newest_first(values) + window;
    let cut = if values.len() + window.len() > capacity {
        capacity as int
    } else {
        (values.len() + window.len()) as int
    };
    if values.len() == 0 {
        assert(whole.take(cut) =~= window);
    } else {
        let front = values.drop_last();
        lemma_pushed_all(window, front, capacity);
        let before = pushed_all(window, front, capacity);
        let earlier = newest_first(front) + window;
        assert(whole =~= seq![values.last()] + earlier);
        assert(pushed(before, values.last(), capacity) =~= whole.take(cut));
    }
}

/// Once as many values have arrived as the window holds, it consists of the
/// most recent arrivals alone, the newest at the front: all that the window
/// held before is gone, and so is every arrival that is older than those.
pub proof fn lemma_overflow_evicts<T>(window: Seq<T>, values: Seq<T>, capacity: nat)
    requires
        window.len() <= capacity,
        values.len() >= capacity,
    ensures
        pushed_all(window, values, capacity).len() == capacity,
        forall|i: int|
            0 <= i < capacity ==> #[trigger] pushed_all(window, values, capacity)[i] == values[
                values.len() - 1 - i
            ],
{
    lemma_pushed_all(window, values, capacity);
}

/// A fixed-capacity history of one metric, newest value first.
pub struct RollingSeries<T> {
    items: VecDeque<T>,
    capacity: usize,
}

impl<T> View for RollingSeries<T> {
    type V = Seq<T>;

    closed spec fn view(&self) -> Seq<T> {
        self.items@
    }
}

impl<T: Copy> RollingSeries<T> {
    /// The largest number of values that the series keeps.
    pub closed spec fn limit(&self) -> nat {
        self.capacity as nat
    }

    /// The series holds no more values than its capacity.
    pub open spec fn wf(&self) -> bool {
        self@.len() <= self.limit()
    }

    /// An empty series that will keep up to `capacity` values.
    pub fn new(capacity: usize) -> (r: Self)
        ensures
            r@ == Seq::<T>::empty(),
            r.limit() == capacity,
            r.wf(),
    {
        RollingSeries { items: VecDeque::new(), capacity }
    }

    /// The largest number of values that the series keeps.
    pub fn capacity(&self) -> (r: usize)
        ensures
            r == self.limit(),
    {
        self.capacity
    }

    /// The number of values held.
    pub fn len(&self) -> (r: usize)
        ensures
            r == self@.len(),
    {
        self.items.len()
    }

    /// The value at `index`, counted from the newest.
    pub fn get(&self, index: usize) -> (r: Option<T>)
        ensures
            r == (if index < self@.len() {
                Some(self@[index as int])
            } else {
                None
            }),
    {
        if index < self.items.len() {
            Some(self.items[index])
        } else {
            None
        }
    }

    /// Puts `value` at the front and drops from the old end what no longer
    /// fits.
    pub fn push(&mut self, value: T)
        ensures
            final(self)@ == pushed(old(self)@, value, old(self).limit()),
            final(self).limit() == old(self).limit(),
            final(self).wf(),
    {
        self.items.push_front(value);
        if self.items.len() > self.capacity {
            self.items.truncate(self.capacity);
        }
    }

    /// The values held, newest first.
    pub fn to_vec(&self) -> (r: Vec<T>)
        ensures
            r@ == self@,
    {
        let mut r: Vec<T> = Vec::new();
        let n = self.items.len();
        let mut i: usize = 0;
        while i < n
            invariant
                n == self.items@.len(),
                i <= n,
                r@ == self.items@.take(i as int),
            decreases n - i,
        {
            r.push(self.items[i]);
            i = i + 1;
            assert(r@ =~= self.items@.take(i as int));
        }
        assert(self.items@.take(n as int) =~= self.items@);
        r
    }

    /// A series of the given capacity that holds the first values of
    /// `values`, as many as fit.
    pub fn from_values(values: &Vec<T>, capacity: usize) -> (r: Self)
        ensures
            r@ == (if values@.len() > capacity {
                values@.take(capacity as int)
            } else {
                values@
            }),
            r.limit() == capacity,
            r.wf(),
    {
        let mut items: VecDeque<T> = VecDeque::new();
        let n = if values.len() > capacity {
            capacity
        } else {
            values.len()
        };
        let mut i: usize = 0;
        while i < n
            invariant
                n <= values@.len(),
                i <= n,
                items@ == values@.take(i as int),
            decreases n - i,
        {
            items.push_back(values[i]);
            i = i + 1;
            assert(items@ =~= values@.take(i as int));
        }
        assert(values@.take(values@.len() as int) =~= values@);
        RollingSeries { items, capacity }
    }

    /// A copy of the series.
    pub fn copy(&self) -> (r: Self)
        ensures
            r@ == self@,
            r.limit() == self.limit(),
    {
        let values = self.to_vec();
        let mut items: VecDeque<T> = VecDeque::new();
        let n = values.len();
        let mut i: usize = 0;
        while i < n
            invariant
                n == values@.len(),
                i <= n,
                items@ == values@.take(i as int),
            decreases n - i,
        {
            items.push_back(values[i]);
            i = i + 1;
            assert(items@ =~= values@.take(i as int));
        }
        assert(values@.take(n as int) =~= values@);
        RollingSeries { items, capacity: self.capacity }
    }
}

} // verus!
