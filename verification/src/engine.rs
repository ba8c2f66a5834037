//! The aggregation engine: running totals and one track per metric.

use crate::rolling_window::{lemma_pushed_newest, newest, RollingWindow, MAX_POINTS};
use crate::sample::Sample;
use crate::series_track::{SeriesTrack, TrackModel};
use crate::smoother::ALPHA;
use vstd::prelude::*;

verus! {

/// Why a sample was turned away.
#[derive(Clone, Copy, Debug, PartialEq, Eq)]
pub enum IngestError {
    /// The sample reports another number of processors than the first sample
    /// did.
    ConfigurationViolation { expected: usize, found: usize },
}

/// What an engine holds: the machine-wide track, one track per processor once
/// the first sample has told their number, and the running totals.
pub struct EngineModel {
    pub aggregate: TrackModel,
    pub per_unit: Option<Seq<TrackModel>>,
    pub total_samples: nat,
    pub cumulative_aggregate_usage: nat,
}

impl EngineModel {
    /// The model of an engine that has taken no sample.
    pub open spec fn empty() -> EngineModel {
        EngineModel {
            aggregate: TrackModel::empty(),
            per_unit: None,
            total_samples: 0,
            cumulative_aggregate_usage: 0,
        }
    }

    /// The number of readings that every track holds after `total_samples`
    /// samples.
    pub open spec fn points(self) -> nat {
        if self.total_samples <= MAX_POINTS {
            self.total_samples
        } else {
            MAX_POINTS as nat
        }
    }

    /// The per-processor tracks exist exactly once a sample has been taken;
    /// every track is in step with itself and has recorded every sample; the
    /// running sum is a sum of `total_samples` readings.
    pub open spec fn wf(self) -> bool {
        &&& self.aggregate.wf()
        &&& self.aggregate.raw.len() == self.points()
        &&& self.per_unit is None <==> self.total_samples == 0
        &&& self.per_unit is Some ==> forall|i: int|
            0 <= i < self.per_unit->0.len() ==> {
                &&& (#[trigger] self.per_unit->0[i]).wf()
                &&& self.per_unit->0[i].raw.len() == self.points()
            }
        &&& self.cumulative_aggregate_usage <= self.total_samples * u32::MAX
    }

    /// A sample is taken unless it reports another number of processors than
    /// the tracks were made for.
    pub open spec fn accepts(self, per_unit_usage: Seq<u32>) -> bool {
        self.per_unit is Some ==> self.per_unit->0.len() == per_unit_usage.len()
    }

    /// The per-processor tracks that a sample is recorded into: the existing
    /// ones, or as many fresh ones as the sample has readings.
    pub open spec fn tracks_for(self, per_unit_usage: Seq<u32>) -> Seq<TrackModel> {
        match self.per_unit {
            Some(tracks) => tracks,
            None => Seq::new(per_unit_usage.len(), |i: int| TrackModel::empty()),
        }
    }

    /// The engine after taking a sample that it accepts: the totals grow by
    /// the sample, and every track records its reading with `ALPHA`.
    pub open spec fn ingested(self, aggregate_usage: u32, per_unit_usage: Seq<u32>) -> EngineModel {
        let tracks = self.tracks_for(per_unit_usage);
        EngineModel {
            aggregate: self.aggregate.recorded(aggregate_usage, ALPHA),
            per_unit: Some(
                Seq::new(tracks.len(), |i: int| tracks[i].recorded(per_unit_usage[i], ALPHA)),
            ),
            total_samples: self.total_samples + 1,
            cumulative_aggregate_usage: self.cumulative_aggregate_usage + aggregate_usage as nat,
        }
    }

    /// The engine after a sample is offered to it: the sample is taken in if
    /// the engine accepts it, and leaves the engine as it was otherwise.
    pub open spec fn offered(self, sample: Sample) -> EngineModel {
        if self.accepts(sample.per_unit_usage@) {
            self.ingested(sample.aggregate_usage, sample.per_unit_usage@)
        } else {
            self
        }
    }

    /// The engine after a run of samples, offered in order.
    pub open spec fn offered_all(self, samples: Seq<Sample>) -> EngineModel
        decreases samples.len(),
    {
        if samples.len() == 0 {
            self
        } else {
            self.offered_all(samples.drop_last()).offered(samples.last())
        }
    }

    /// The mean machine-wide utilisation of all samples taken, rounded down;
    /// absent before the first sample.
    pub open spec fn average_usage(self) -> Option<int> {
        if self.total_samples == 0 {
            None
        } else {
            Some(self.cumulative_aggregate_usage as int / self.total_samples as int)
        }
    }
}

/// The machine-wide readings of a run of samples, in the samples' order.
pub open spec fn aggregate_readings(samples: Seq<Sample>) -> Seq<u32> {
    Seq::new(samples.len(), |k: int| samples[k].aggregate_usage)
}

/// The readings of one processor in a run of samples, in the samples' order.
pub open spec fn unit_readings(samples: Seq<Sample>, unit: int) -> Seq<u32> {
    Seq::new(samples.len(), |k: int| samples[k].per_unit_usage@[unit])
}

/// Takes samples in, keeps the smoothed and the raw history of the whole
/// machine and of each processor, and answers queries on them.
pub struct AggregationEngine {
    aggregate: SeriesTrack,
    per_unit: Option<Vec<SeriesTrack>>,
    total_samples: u64,
    cumulative_aggregate_usage: u128,
}

/// The models of a row of tracks.
spec fn track_models(tracks: Seq<SeriesTrack>) -> Seq<TrackModel> {
    Seq::new(tracks.len(), |i: int| tracks[i]@)
}

impl View for AggregationEngine {
    type V = EngineModel;

    closed spec fn view(&self) -> EngineModel {
        EngineModel {
            aggregate: self.aggregate@,
            per_unit: match self.per_unit {
                Some(tracks) => Some(track_models(tracks@)),
                None => None,
            },
            total_samples: self.total_samples as nat,
            cumulative_aggregate_usage: self.cumulative_aggregate_usage as nat,
        }
    }
}

/// As many fresh tracks as there are processors.
fn fresh_tracks(count: usize) -> (tracks: Vec<SeriesTrack>)
    ensures
        track_models(tracks@) == Seq::new(count as nat, |i: int| TrackModel::empty()),
{
    let mut tracks: Vec<SeriesTrack> = Vec::with_capacity(count);
    while tracks.len() < count
        invariant
            tracks.len() <= count,
            forall|i: int| 0 <= i < tracks.len() ==> (#[trigger] tracks[i])@ == TrackModel::empty(),
        decreases count - tracks.len(),
    {
        tracks.push(SeriesTrack::new());
    }
    assert(track_models(tracks@) =~= Seq::new(count as nat, |i: int| TrackModel::empty()));
    tracks
}

/// Records into each track the reading of its processor.
fn record_each(tracks: &mut Vec<SeriesTrack>, readings: &Vec<u32>)
    requires
        old(tracks).len() == readings.len(),
        forall|i: int| 0 <= i < old(tracks).len() ==> (#[trigger] old(tracks)[i]).wf(),
    ensures
        final(tracks).len() == old(tracks).len(),
        forall|i: int|
            0 <= i < old(tracks).len() ==> (#[trigger] final(tracks)[i])@ == old(tracks)[i]@.recorded(
                readings[i],
                ALPHA,
            ),
        forall|i: int| 0 <= i < final(tracks).len() ==> (#[trigger] final(tracks)[i]).wf(),
{
    let count = tracks.len();
    let mut index: usize = 0;
    while index < count
        invariant
            index <= count,
            count == readings.len(),
            tracks.len() == count,
            forall|i: int|
                0 <= i < index ==> (#[trigger] tracks[i])@ == old(tracks)[i]@.recorded(
                    readings[i],
                    ALPHA,
                ),
            forall|i: int| index <= i < count ==> (#[trigger] tracks[i]) == old(tracks)[i],
            forall|i: int| 0 <= i < count ==> (#[trigger] tracks[i]).wf(),
        decreases count - index,
    {
        tracks[index].record(readings[index], ALPHA);
        index += 1;
    }
}

impl AggregationEngine {
    /// The engine's tracks and totals fit together, as `EngineModel::wf` says.
    pub open spec fn wf(&self) -> bool {
        self@.wf()
    }

    /// An engine that has taken no sample.
    pub fn new() -> (engine: Self)
        ensures
            engine@ == EngineModel::empty(),
            engine@.average_usage() is None,
            engine@.per_unit is None,
            engine.wf(),
    {
        AggregationEngine {
            aggregate: SeriesTrack::new(),
            per_unit: None,
            total_samples: 0,
            cumulative_aggregate_usage: 0,
        }
    }

    /// Takes one sample in. A sample that reports another number of
    /// processors than the first one did is turned away and leaves the engine
    /// as it was. Any other sample is counted and added to the running sum,
    /// then recorded into the machine-wide track and, reading by reading,
    /// into the per-processor tracks, which the first sample brings into
    /// being. The sample counter needs room only for a sample that is taken.
    pub fn ingest(&mut self, sample: Sample) -> (outcome: Result<(), IngestError>)
        requires
            old(self).wf(),
            old(self)@.accepts(sample.per_unit_usage@) ==> old(self)@.total_samples < u64::MAX,
        ensures
            final(self).wf(),
            final(self)@ == old(self)@.offered(sample),
            old(self)@.accepts(sample.per_unit_usage@) ==> {
                &&& outcome is Ok
                &&& final(self)@ == old(self)@.ingested(
                    sample.aggregate_usage,
                    sample.per_unit_usage@,
                )
            },
            !old(self)@.accepts(sample.per_unit_usage@) ==> {
                &&& outcome == Err::<(), IngestError>(
                    IngestError::ConfigurationViolation {
                        expected: old(self)@.per_unit->0.len() as usize,
                        found: sample.per_unit_usage@.len() as usize,
                    },
                )
                &&& final(self)@ == old(self)@
                &&& final(self)@.per_unit == old(self)@.per_unit
            },
            old(self)@.per_unit is Some ==> final(self)@.per_unit is Some
                && final(self)@.per_unit->0.len() == old(self)@.per_unit->0.len(),
            outcome is Ok ==> final(self)@.per_unit is Some && final(self)@.per_unit->0.len()
                == sample.per_unit_usage@.len(),
    {
        let found = sample.per_unit_usage.len();
        match &self.per_unit {
            Some(tracks) => {
                if tracks.len() != found {
                    return Err(
                        IngestError::ConfigurationViolation { expected: tracks.len(), found },
                    );
                }
            },
            None => {},
        }
        proof {
            lemma_sum_grows(
                self.cumulative_aggregate_usage as nat,
                self.total_samples as nat,
                sample.aggregate_usage,
            );
        }
        self.total_samples = self.total_samples + 1;
        self.cumulative_aggregate_usage = self.cumulative_aggregate_usage
            + sample.aggregate_usage as u128;
        self.aggregate.record(sample.aggregate_usage, ALPHA);
        if self.per_unit.is_none() {
            self.per_unit = Some(fresh_tracks(found));
        }
        assert forall|i: int| 0 <= i < self.per_unit->0.len() implies (
        #[trigger] self.per_unit->0[i]).wf() by {
            let model = track_models(self.per_unit->0@)[i];
            assert(model == self.per_unit->0[i]@);
            if old(self).per_unit is Some {
                assert(model == old(self)@.per_unit->0[i]);
            }
        }
        match &mut self.per_unit {
            Some(tracks) => {
                record_each(tracks, &sample.per_unit_usage);
            },
            None => {},
        }
        assert(self@.per_unit->0 =~= old(self)@.ingested(
            sample.aggregate_usage,
            sample.per_unit_usage@,
        ).per_unit->0);
        Ok(())
    }

    /// The number of samples taken so far.
    pub fn total_samples(&self) -> (count: u64)
        ensures
            count == self@.total_samples,
    {
        self.total_samples
    }

    /// The mean machine-wide utilisation over all samples taken, or `None`
    /// before the first sample.
    pub fn average_usage(&self) -> (average: Option<u32>)
        requires
            self.wf(),
        ensures
            match average {
                Some(mean) => self@.average_usage() == Some(mean as int),
                None => self@.average_usage() is None,
            },
    {
        if self.total_samples == 0 {
            None
        } else {
            proof {
                lemma_mean_is_a_reading(
                    self.cumulative_aggregate_usage as nat,
                    self.total_samples as nat,
                );
            }
            Some((self.cumulative_aggregate_usage / (self.total_samples as u128)) as u32)
        }
    }

    /// The machine-wide histories: the raw window, then the smoothed one.
    pub fn aggregate_series(&self) -> (series: (&RollingWindow<u32>, &RollingWindow<u32>))
        ensures
            series.0@ == self@.aggregate.raw,
            series.1@ == self@.aggregate.smoothed,
    {
        (self.aggregate.raw(), self.aggregate.smoothed())
    }

    /// The histories of each processor, in the processors' order: the raw
    /// window, then the smoothed one. `None` before the first sample.
    pub fn per_unit_series(&self) -> (series: Option<
        Vec<(&RollingWindow<u32>, &RollingWindow<u32>)>,
    >)
        ensures
            series is None <==> self@.per_unit is None,
            series is Some ==> {
                &&& series->0.len() == self@.per_unit->0.len()
                &&& forall|i: int|
                    0 <= i < series->0.len() ==> {
                        &&& (#[trigger] series->0[i]).0@ == self@.per_unit->0[i].raw
                        &&& series->0[i].1@ == self@.per_unit->0[i].smoothed
                    }
            },
    {
        match &self.per_unit {
            Some(tracks) => {
                let mut series: Vec<(&RollingWindow<u32>, &RollingWindow<u32>)> =
                    Vec::with_capacity(tracks.len());
                let mut index: usize = 0;
                while index < tracks.len()
                    invariant
                        index <= tracks.len(),
                        series.len() == index,
                        forall|i: int|
                            0 <= i < index ==> {
                                &&& (#[trigger] series[i]).0@ == tracks[i]@.raw
                                &&& series[i].1@ == tracks[i]@.smoothed
                            },
                    decreases tracks.len() - index,
                {
                    series.push((tracks[index].raw(), tracks[index].smoothed()));
                    index += 1;
                }
                Some(series)
            },
            None => None,
        }
    }
}

/// After any run of samples that all report `width` processors, offered to a
/// fresh engine, every sample has been counted, and every raw window holds
/// the newest `MAX_POINTS` readings of its metric, oldest first: all of them
/// while there are no more than that, and exactly the last `MAX_POINTS` once
/// there are more.
pub proof fn lemma_windows_hold_newest_readings(samples: Seq<Sample>, width: nat)
    requires
        forall|k: int|
            0 <= k < samples.len() ==> (#[trigger] samples[k]).per_unit_usage@.len() == width,
    ensures
        ({
            let engine = EngineModel::empty().offered_all(samples);
            let count = samples.len() as int;
            &&& engine.total_samples == samples.len()
            &&& engine.aggregate.raw == newest(aggregate_readings(samples), MAX_POINTS as nat)
            &&& count > MAX_POINTS ==> engine.aggregate.raw == aggregate_readings(
                samples,
            ).subrange(count - MAX_POINTS, count)
            &&& count == 0 ==> engine == EngineModel::empty()
            &&& count > 0 ==> engine.per_unit is Some && engine.per_unit->0.len() == width
            &&& count > 0 ==> forall|unit: int|
                0 <= unit < width ==> (#[trigger] engine.per_unit->0[unit]).raw == newest(
                    unit_readings(samples, unit),
                    MAX_POINTS as nat,
                )
            &&& count > MAX_POINTS ==> forall|unit: int|
                0 <= unit < width ==> (#[trigger] engine.per_unit->0[unit]).raw == unit_readings(
                    samples,
                    unit,
                ).subrange(count - MAX_POINTS, count)
        }),
    decreases samples.len(),
{
    let engine = EngineModel::empty().offered_all(samples);
    if samples.len() == 0 {
        assert(aggregate_readings(samples) =~= Seq::<u32>::empty());
    } else {
        let earlier = samples.drop_last();
        let last = samples.last();
        assert forall|k: int| 0 <= k < earlier.len() implies (
        #[trigger] earlier[k]).per_unit_usage@.len() == width by {
            assert(earlier[k] == samples[k]);
        }
        lemma_windows_hold_newest_readings(earlier, width);
        let before = EngineModel::empty().offered_all(earlier);
        assert(before.accepts(last.per_unit_usage@));
        assert(engine == before.ingested(last.aggregate_usage, last.per_unit_usage@));
        lemma_pushed_newest(aggregate_readings(earlier), last.aggregate_usage);
        assert(aggregate_readings(earlier).push(last.aggregate_usage) =~= aggregate_readings(
            samples,
        ));
        let tracks = before.tracks_for(last.per_unit_usage@);
        assert forall|unit: int| 0 <= unit < width implies (
        #[trigger] engine.per_unit->0[unit]).raw == newest(
            unit_readings(samples, unit),
            MAX_POINTS as nat,
        ) by {
            let reading = last.per_unit_usage@[unit];
            assert(engine.per_unit->0[unit] == tracks[unit].recorded(reading, ALPHA));
            if earlier.len() == 0 {
                assert(tracks[unit].raw =~= newest(
                    unit_readings(earlier, unit),
                    MAX_POINTS as nat,
                ));
            } else {
                assert(tracks[unit] == before.per_unit->0[unit]);
            }
            lemma_pushed_newest(unit_readings(earlier, unit), reading);
            assert(unit_readings(earlier, unit).push(reading) =~= unit_readings(samples, unit));
        }
    }
}

/// A sum of `count` readings, grown by one more reading, is a sum of
/// `count + 1` readings.
proof fn lemma_sum_grows(sum: nat, count: nat, reading: u32)
    requires
        sum <= count * u32::MAX,
        count < u64::MAX,
    ensures
        sum + reading <= (count + 1) * u32::MAX,
        sum + reading <= u128::MAX,
{
    assert((count + 1) * u32::MAX == count * u32::MAX + u32::MAX) by (nonlinear_arith);
    assert((count + 1) * u32::MAX <= 0xffff_ffff_ffff_ffff * 0xffff_ffff) by (nonlinear_arith)
        requires
            count + 1 <= 0xffff_ffff_ffff_ffff,
    ;
}

/// The mean of `count` readings is a reading.
proof fn lemma_mean_is_a_reading(sum: nat, count: nat)
    requires
        sum <= count * u32::MAX,
        count > 0,
    ensures
        sum as int / count as int <= u32::MAX,
{
    assert(sum as int / count as int <= u32::MAX) by (nonlinear_arith)
        requires
            sum <= count * u32::MAX,
            count > 0,
    ;
}

} // verus!
