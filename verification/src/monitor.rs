//! One refresh of the monitor: drain the channel, take the newest sample in.

use crate::channel::{drained_by, try_receive_latest_snapshot, Channels, Drained, Polled};
use crate::engine::{AggregationEngine, EngineModel, IngestError};
use crate::sample::Sample;
use std::sync::mpsc::Receiver;
use vstd::prelude::*;

verus! {

/// The state behind the display: where samples arrive, and what has been
/// made of them.
pub struct AppMonitor {
    pub channels: Channels,
    pub cpu_monitor: AggregationEngine,
}

/// What a refresh did.
#[derive(Clone, Copy, Debug, PartialEq, Eq)]
pub enum UpdateOutcome {
    /// The newest sample was taken in.
    Ingested,
    /// No sample was waiting; the histories stand as they were.
    Waiting,
    /// No sample was waiting and the sampler is gone: none will come.
    SamplerLost,
    /// The newest sample was turned away; the histories stand as they were.
    Rejected(IngestError),
}

/// What a refresh reports for what the drain found.
pub open spec fn refresh_outcome(engine: EngineModel, drained: Drained<Sample>) -> UpdateOutcome {
    match drained {
        Drained::Latest(sample) => if engine.accepts(sample.per_unit_usage@) {
            UpdateOutcome::Ingested
        } else {
            UpdateOutcome::Rejected(
                IngestError::ConfigurationViolation {
                    expected: engine.per_unit->0.len() as usize,
                    found: sample.per_unit_usage@.len() as usize,
                },
            )
        },
        Drained::Empty => UpdateOutcome::Waiting,
        Drained::Disconnected => UpdateOutcome::SamplerLost,
    }
}

/// The engine after a refresh: it has taken the sample in if the drain found
/// one that it accepts, and is unchanged otherwise.
pub open spec fn refreshed(engine: EngineModel, drained: Drained<Sample>) -> EngineModel {
    match drained {
        Drained::Latest(sample) => engine.offered(sample),
        Drained::Empty => engine,
        Drained::Disconnected => engine,
    }
}

/// Hands what a drain found to the engine. The sample counter needs room
/// only where a sample is taken in.
pub fn apply_drained(engine: &mut AggregationEngine, drained: Drained<Sample>) -> (outcome:
    UpdateOutcome)
    requires
        old(engine).wf(),
        refresh_outcome(old(engine)@, drained) is Ingested ==> old(engine)@.total_samples
            < u64::MAX,
    ensures
        final(engine).wf(),
        final(engine)@ == refreshed(old(engine)@, drained),
        outcome == refresh_outcome(old(engine)@, drained),
{
    match drained {
        Drained::Latest(sample) => match engine.ingest(sample) {
            Ok(()) => UpdateOutcome::Ingested,
            Err(violation) => UpdateOutcome::Rejected(violation),
        },
        Drained::Empty => UpdateOutcome::Waiting,
        Drained::Disconnected => UpdateOutcome::SamplerLost,
    }
}

impl AppMonitor {
    /// A monitor that listens on `cpu_snapshot_receiver` and has taken no
    /// sample yet.
    pub fn new(cpu_snapshot_receiver: Receiver<Sample>) -> (app_monitor: Self)
        ensures
            app_monitor.channels.cpu_snapshot_receiver == cpu_snapshot_receiver,
            app_monitor.cpu_monitor@ == EngineModel::empty(),
            app_monitor.cpu_monitor.wf(),
    {
        AppMonitor {
            channels: Channels::new(cpu_snapshot_receiver),
            cpu_monitor: AggregationEngine::new(),
        }
    }
}

/// Refreshes the monitor: drains the channel and hands the newest sample, if
/// there is one, to the engine. At most one sample is taken in, whatever the
/// channel held. Which polls the channel hands out is up to the sampler;
/// whatever they are, the drain makes of them what `drained_by` says, and
/// outcome and engine follow from that by `refresh_outcome` and `refreshed`.
pub fn update(app_monitor: &mut AppMonitor) -> (outcome: UpdateOutcome)
    requires
        old(app_monitor).cpu_monitor.wf(),
        old(app_monitor).cpu_monitor@.total_samples < u64::MAX,
    ensures
        final(app_monitor).cpu_monitor.wf(),
        final(app_monitor).channels == old(app_monitor).channels,
        exists|polls: Seq<Polled<Sample>>, drained: Drained<Sample>|
            {
                &&& #[trigger] drained_by(polls, drained)
                &&& outcome == refresh_outcome(old(app_monitor).cpu_monitor@, drained)
                &&& final(app_monitor).cpu_monitor@ == refreshed(
                    old(app_monitor).cpu_monitor@,
                    drained,
                )
            },
{
    let drained = try_receive_latest_snapshot(&app_monitor.channels.cpu_snapshot_receiver);
    let ghost polls: Seq<Polled<Sample>> = choose|polls: Seq<Polled<Sample>>|
        #[trigger] drained_by(polls, drained);
    let outcome = apply_drained(&mut app_monitor.cpu_monitor, drained);
    assert(drained_by(polls, drained));
    outcome
}

} // verus!
