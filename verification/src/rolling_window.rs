//! A bounded first-in, first-out history of one metric.

use std::collections::vec_deque::Iter;
use std::collections::VecDeque;
use vstd::prelude::*;
use vstd::std_specs::iter::IteratorSpec;

verus! {

/// The number of readings that a window keeps.
pub const MAX_POINTS: usize = 10;

/// A history after one more reading: the reading joins at the back, and the
/// oldest reading leaves at the front once the history outgrows `MAX_POINTS`.
pub open spec fn pushed<T>(history: Seq<T>, value: T) -> Seq<T> {
    let grown = history.push(value);
    if grown.len() > MAX_POINTS {
        grown.subrange(1, grown.len() as int)
    } else {
        grown
    }
}

/// A history after a run of readings, pushed in order.
pub open spec fn pushed_all<T>(history: Seq<T>, values: Seq<T>) -> Seq<T>
    decreases values.len(),
{
    if values.len() == 0 {
        history
    } else {
        pushed(pushed_all(history, values.drop_last()), values.last())
    }
}

/// The newest `count` readings of a run, oldest first; the whole run where it
/// is no longer than that.
pub open spec fn newest<T>(values: Seq<T>, count: nat) -> Seq<T> {
    if values.len() <= count {
        values
    } else {
        values.subrange(values.len() - count, values.len() as int)
    }
}

/// The reading pushed last, if any.
pub open spec fn newest_one<T>(history: Seq<T>) -> Option<T> {
    if history.len() == 0 {
        None
    } else {
        Some(history.last())
    }
}

/// The most recent readings of one metric, oldest first, never more than
/// `MAX_POINTS` of them. A reading is a plain value of any kind.
pub struct RollingWindow<T> {
    points: VecDeque<T>,
}

impl<T> View for RollingWindow<T> {
    type V = Seq<T>;

    closed spec fn view(&self) -> Seq<T> {
        self.points@
    }
}

impl<T: Copy> RollingWindow<T> {
    /// The window holds no more readings than its capacity.
    pub open spec fn wf(&self) -> bool {
        self@.len() <= MAX_POINTS
    }

    /// An empty window.
    pub fn new() -> (window: Self)
        ensures
            window@ == Seq::<T>::empty(),
            window.wf(),
    {
        RollingWindow { points: VecDeque::with_capacity(MAX_POINTS + 1) }
    }

    /// Appends a reading, and drops the oldest one if the window was full.
    pub fn push(&mut self, value: T)
        requires
            old(self).wf(),
        ensures
            final(self)@ == pushed(old(self)@, value),
            final(self).wf(),
    {
        self.points.push_back(value);
        if self.points.len() > MAX_POINTS {
            self.points.pop_front();
        }
    }

    /// The reading pushed last, or `None` while the window is empty.
    pub fn latest(&self) -> (value: Option<T>)
        ensures
            value == newest_one(self@),
    {
        let n = self.points.len();
        if n == 0 {
            None
        } else {
            Some(self.points[n - 1])
        }
    }

    /// The number of readings held.
    pub fn len(&self) -> (n: usize)
        ensures
            n == self@.len(),
    {
        self.points.len()
    }

    /// The readings from the oldest to the newest. Every call starts a new
    /// pass over the window.
    pub fn iter(&self) -> (readings: Iter<'_, T>)
        ensures
            readings.remaining() == self@.as_ref(),
            readings.decrease() is Some,
            readings.initial_value_relation(&readings),
    {
        broadcast use vstd::std_specs::vecdeque::axiom_spec_iter;
        self.points.iter()
    }
}

/// A window that holds the newest `MAX_POINTS` readings of a run holds, after
/// one more push, the newest `MAX_POINTS` readings of the longer run.
pub proof fn lemma_pushed_newest<T>(values: Seq<T>, value: T)
    ensures
        pushed(newest(values, MAX_POINTS as nat), value) == newest(
            values.push(value),
            MAX_POINTS as nat,
        ),
{
    assert(pushed(newest(values, MAX_POINTS as nat), value) =~= newest(
        values.push(value),
        MAX_POINTS as nat,
    ));
}

/// Pushing a run of readings into an empty window leaves the newest
/// `MAX_POINTS` of them, in the order in which they came.
pub proof fn lemma_pushed_all_keeps_newest<T>(values: Seq<T>)
    ensures
        pushed_all(Seq::<T>::empty(), values) == newest(values, MAX_POINTS as nat),
    decreases values.len(),
{
    if values.len() > 0 {
        let earlier = values.drop_last();
        lemma_pushed_all_keeps_newest(earlier);
        lemma_pushed_newest(earlier, values.last());
        assert(earlier.push(values.last()) =~= values);
    }
}

/// While no more readings were pushed than the window can hold, the window
/// holds every one of them, in the order in which they came.
pub proof fn lemma_pushes_within_capacity<T>(values: Seq<T>)
    requires
        values.len() <= MAX_POINTS,
    ensures
        pushed_all(Seq::<T>::empty(), values) == values,
        pushed_all(Seq::<T>::empty(), values).len() == values.len(),
{
    lemma_pushed_all_keeps_newest(values);
}

/// Once more readings were pushed than the window can hold, the window is
/// full and holds the last `MAX_POINTS` of them, oldest first.
pub proof fn lemma_pushes_beyond_capacity<T>(values: Seq<T>)
    requires
        values.len() > MAX_POINTS,
    ensures
        pushed_all(Seq::<T>::empty(), values).len() == MAX_POINTS,
        pushed_all(Seq::<T>::empty(), values) == values.subrange(
            values.len() - MAX_POINTS,
            values.len() as int,
        ),
{
    lemma_pushed_all_keeps_newest(values);
}

} // verus!
