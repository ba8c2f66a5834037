//! Draining the sampler's channel down to its newest snapshot.

use crate::sample::Sample;
use std::sync::mpsc::Receiver;
use std::sync::mpsc::TryRecvError;
use vstd::prelude::*;

verus! {

/// The receiving end of a channel of the standard library,
/// `std::sync::mpsc::Receiver`. Nothing is claimed of it: what it holds is in
/// the hands of whoever sends.
#[verifier::external_type_specification]
#[verifier::external_body]
#[verifier::reject_recursive_types(T)]
pub struct ExReceiver<T>(std::sync::mpsc::Receiver<T>);

/// What one poll of a channel handed out.
#[derive(Debug, PartialEq, Eq)]
pub enum Polled<T> {
    /// A snapshot that was waiting.
    Snapshot(T),
    /// Nothing was waiting; the sender may send yet.
    Empty,
    /// Nothing was waiting, and every sender is gone.
    Disconnected,
}

/// Polls the channel once with `std::sync::mpsc::Receiver::try_recv`, which
/// returns at once, with a value if one is waiting. Which of its results
/// comes depends on the sender, so nothing is claimed of it.
#[verifier::external_body]
fn poll<T>(receiver: &Receiver<T>) -> (polled: Polled<T>) {
    match receiver.try_recv() {
        Ok(snapshot) => Polled::Snapshot(snapshot),
        Err(TryRecvError::Empty) => Polled::Empty,
        Err(TryRecvError::Disconnected) => Polled::Disconnected,
    }
}

/// The most snapshots that one drain takes from a channel. A drain therefore
/// returns even while a sender keeps the channel filled.
pub const DRAIN_LIMIT: u64 = u64::MAX;

/// What a drain found.
#[derive(Debug, PartialEq, Eq)]
pub enum Drained<T> {
    /// The newest of the snapshots that were waiting.
    Latest(T),
    /// Nothing was waiting; the sender may send yet.
    Empty,
    /// Nothing was waiting, and the sender is gone for good.
    Disconnected,
}

impl<T> Drained<T> {
    /// The snapshot that the drain found, or `None` where it found none,
    /// whether the sender may send yet or not.
    pub fn into_option(self) -> (latest: Option<T>)
        ensures
            latest == match self {
                Drained::Latest(snapshot) => Some(snapshot),
                Drained::Empty => None,
                Drained::Disconnected => None,
            },
    {
        match self {
            Drained::Latest(snapshot) => Some(snapshot),
            Drained::Empty => None,
            Drained::Disconnected => None,
        }
    }
}

/// Where a drain stands after a poll.
#[derive(Debug, PartialEq, Eq)]
pub enum DrainStep<T> {
    /// The channel may hold more; the newest snapshot so far is carried on.
    Pending(Option<T>),
    /// The channel is drained.
    Done(Drained<T>),
}

/// The result of a drain that ends with `latest` in hand: a snapshot in hand
/// is the result, however the drain ended; with none in hand, the result
/// tells an empty channel from a lost sender.
pub open spec fn settled<T>(latest: Option<T>, disconnected: bool) -> Drained<T> {
    match latest {
        Some(snapshot) => Drained::Latest(snapshot),
        None => if disconnected {
            Drained::Disconnected
        } else {
            Drained::Empty
        },
    }
}

/// One step of a drain: a snapshot received replaces the one in hand, and a
/// poll that hands out nothing ends the drain.
pub open spec fn drain_step<T>(latest: Option<T>, polled: Polled<T>) -> DrainStep<T> {
    match polled {
        Polled::Snapshot(snapshot) => DrainStep::Pending(Some(snapshot)),
        Polled::Empty => DrainStep::Done(settled(latest, false)),
        Polled::Disconnected => DrainStep::Done(settled(latest, true)),
    }
}

/// Where a drain stands after a run of polls, starting with `latest` in hand.
/// Polls after the one that ended the drain change nothing.
pub open spec fn drain_run<T>(latest: Option<T>, polls: Seq<Polled<T>>) -> DrainStep<T>
    decreases polls.len(),
{
    if polls.len() == 0 {
        DrainStep::Pending(latest)
    } else {
        match drain_step(latest, polls[0]) {
            DrainStep::Pending(newer) => drain_run(newer, polls.drop_first()),
            DrainStep::Done(drained) => DrainStep::Done(drained),
        }
    }
}

/// The polls of a channel that hands out `snapshots` in order.
pub open spec fn received<T>(snapshots: Seq<T>) -> Seq<Polled<T>> {
    Seq::new(snapshots.len(), |i: int| Polled::Snapshot(snapshots[i]))
}

/// Ends a drain with `latest` in hand.
pub fn settle<T>(latest: Option<T>, disconnected: bool) -> (drained: Drained<T>)
    ensures
        drained == settled(latest, disconnected),
{
    match latest {
        Some(snapshot) => Drained::Latest(snapshot),
        None => if disconnected {
            Drained::Disconnected
        } else {
            Drained::Empty
        },
    }
}

/// Takes one poll of the channel into a drain that has `latest` in hand.
pub fn advance<T>(latest: Option<T>, polled: Polled<T>) -> (step: DrainStep<T>)
    ensures
        step == drain_step(latest, polled),
{
    match polled {
        Polled::Snapshot(snapshot) => DrainStep::Pending(Some(snapshot)),
        Polled::Empty => DrainStep::Done(settle(latest, false)),
        Polled::Disconnected => DrainStep::Done(settle(latest, true)),
    }
}

/// A drain that took `polls` from the channel, in this order, returns
/// `drained`: what the poll that ended the drain settled on, or, where
/// `DRAIN_LIMIT` polls all handed out a snapshot, the last of them.
pub open spec fn drained_by<T>(polls: Seq<Polled<T>>, drained: Drained<T>) -> bool {
    match drain_run(None::<T>, polls) {
        DrainStep::Done(found) => drained == found,
        DrainStep::Pending(latest) => polls.len() == DRAIN_LIMIT && drained == settled(
            latest,
            false,
        ),
    }
}

/// One more poll is taken by `drain_step` while the drain is pending, and
/// changes nothing once the drain is done.
pub proof fn lemma_drain_run_push<T>(start: Option<T>, polls: Seq<Polled<T>>, next: Polled<T>)
    ensures
        drain_run(start, polls.push(next)) == match drain_run(start, polls) {
            DrainStep::Pending(latest) => drain_step(latest, next),
            DrainStep::Done(drained) => DrainStep::Done(drained),
        },
    decreases polls.len(),
{
    let longer = polls.push(next);
    if polls.len() == 0 {
        assert(longer[0] == next);
        assert(longer.drop_first().len() == 0);
        assert(drain_run(start, longer) == match drain_step(start, next) {
            DrainStep::Pending(newer) => drain_run(newer, longer.drop_first()),
            DrainStep::Done(drained) => DrainStep::Done(drained),
        });
    } else {
        assert(longer[0] == polls[0]);
        assert(longer.drop_first() =~= polls.drop_first().push(next));
        match drain_step(start, polls[0]) {
            DrainStep::Pending(newer) => {
                lemma_drain_run_push(newer, polls.drop_first(), next);
            },
            DrainStep::Done(drained) => {},
        }
    }
}

/// Drains the channel without ever waiting and keeps the newest snapshot:
/// every snapshot received before it is dropped. The drain ends at the first
/// poll that hands out nothing, or after `DRAIN_LIMIT` snapshots. Which polls
/// the channel hands out is up to the sender; whatever they are, the result
/// is what `drain_run` makes of them, poll by poll from an empty hand.
pub fn try_receive_latest_snapshot<T>(receiver: &Receiver<T>) -> (drained: Drained<T>)
    ensures
        exists|polls: Seq<Polled<T>>| #[trigger] drained_by(polls, drained),
{
    let mut latest: Option<T> = None;
    let mut budget: u64 = DRAIN_LIMIT;
    let ghost mut polls: Seq<Polled<T>> = Seq::empty();
    while budget > 0
        invariant
            polls.len() == DRAIN_LIMIT - budget,
            drain_run(None::<T>, polls) == DrainStep::Pending(latest),
        decreases budget,
    {
        let polled = poll(receiver);
        proof {
            lemma_drain_run_push(None::<T>, polls, polled);
            polls = polls.push(polled);
        }
        match advance(latest, polled) {
            DrainStep::Pending(newer) => {
                latest = newer;
            },
            DrainStep::Done(drained) => {
                assert(drained_by(polls, drained));
                return drained;
            },
        }
        budget -= 1;
    }
    let drained = settle(latest, false);
    assert(drained_by(polls, drained));
    drained
}

/// The receiving ends of the channels that the samplers send on.
pub struct Channels {
    pub cpu_snapshot_receiver: Receiver<Sample>,
}

impl Channels {
    /// Holds the receiving end of the processor sampler's channel.
    pub fn new(cpu_snapshot_receiver: Receiver<Sample>) -> (channels: Channels)
        ensures
            channels.cpu_snapshot_receiver == cpu_snapshot_receiver,
    {
        Channels { cpu_snapshot_receiver }
    }
}

/// However many snapshots were waiting, a drain that then finds the channel
/// empty or the sender gone settles on the last of them.
pub proof fn lemma_drain_keeps_newest<T>(latest: Option<T>, snapshots: Seq<T>, end: Polled<T>)
    requires
        snapshots.len() > 0,
        !(end is Snapshot),
    ensures
        drain_run(latest, received(snapshots).push(end)) == DrainStep::Done(
            Drained::Latest(snapshots.last()),
        ),
    decreases snapshots.len(),
{
    let polls = received(snapshots).push(end);
    let rest = snapshots.drop_first();
    assert(polls[0] == Polled::Snapshot(snapshots[0]));
    assert(polls.drop_first() =~= received(rest).push(end));
    assert(drain_run(latest, polls) == drain_run(Some(snapshots[0]), polls.drop_first()));
    if rest.len() == 0 {
        let last_poll = polls.drop_first();
        assert(last_poll[0] == end);
        assert(drain_step(Some(snapshots[0]), last_poll[0]) == DrainStep::Done(
            Drained::Latest(snapshots[0]),
        ));
    } else {
        lemma_drain_keeps_newest(Some(snapshots[0]), rest, end);
        assert(rest.last() == snapshots.last());
    }
}

/// A drain of a channel in which nothing is waiting reports the channel
/// empty, or the sender gone, and hands out no snapshot.
pub proof fn lemma_drain_of_nothing<T>(end: Polled<T>)
    requires
        !(end is Snapshot),
    ensures
        drain_run(None::<T>, seq![end]) == DrainStep::Done(
            if end is Disconnected {
                Drained::<T>::Disconnected
            } else {
                Drained::<T>::Empty
            },
        ),
{
}

} // verus!
