//! The raw and the smoothed history of one metric, kept in step.

use crate::rolling_window::{newest_one, pushed, RollingWindow, MAX_POINTS};
use crate::smoother::{next_average, smooth, valid_alpha};
use vstd::prelude::*;

verus! {

/// What a track holds: both histories, oldest reading first, and the average
/// that the next observation will be blended into.
pub struct TrackModel {
    pub raw: Seq<u32>,
    pub smoothed: Seq<u32>,
    pub last_ema: Option<u32>,
}

impl TrackModel {
    /// The model of a track that has seen no observation.
    pub open spec fn empty() -> TrackModel {
        TrackModel { raw: Seq::empty(), smoothed: Seq::empty(), last_ema: None }
    }

    /// Both histories cover the same observations, neither outgrows a window,
    /// and the carried average is the newest smoothed reading: it is absent
    /// exactly while nothing has been recorded.
    pub open spec fn wf(self) -> bool {
        &&& self.raw.len() == self.smoothed.len()
        &&& self.raw.len() <= MAX_POINTS
        &&& self.last_ema == newest_one(self.smoothed)
    }

    /// The track after one observation: the observation joins the raw
    /// history, and its smoothed value becomes the carried average and joins
    /// the smoothed history. A smoothed value lies between the carried
    /// average and the observation, so it is a reading again.
    pub open spec fn recorded(self, observation: u32, alpha: u32) -> TrackModel {
        let ema = next_average(self.last_ema, observation, alpha) as u32;
        TrackModel {
            raw: pushed(self.raw, observation),
            smoothed: pushed(self.smoothed, ema),
            last_ema: Some(ema),
        }
    }
}

/// One metric's raw window, its smoothed window and the smoothing state
/// carried from one observation to the next.
pub struct SeriesTrack {
    raw: RollingWindow<u32>,
    smoothed: RollingWindow<u32>,
    last_ema: Option<u32>,
}

impl View for SeriesTrack {
    type V = TrackModel;

    closed spec fn view(&self) -> TrackModel {
        TrackModel { raw: self.raw@, smoothed: self.smoothed@, last_ema: self.last_ema }
    }
}

impl SeriesTrack {
    /// The track's histories are in step, as `TrackModel::wf` says.
    pub open spec fn wf(&self) -> bool {
        self@.wf()
    }

    /// A track that has seen no observation.
    pub fn new() -> (track: Self)
        ensures
            track@ == TrackModel::empty(),
            track.wf(),
    {
        SeriesTrack { raw: RollingWindow::new(), smoothed: RollingWindow::new(), last_ema: None }
    }

    /// Records one observation: first into the raw window, then, smoothed
    /// with `alpha`, into the carried average and the smoothed window, so that
    /// the newest reading of both windows belongs to the same observation.
    pub fn record(&mut self, observation: u32, alpha: u32)
        requires
            old(self).wf(),
            valid_alpha(alpha),
        ensures
            final(self)@ == old(self)@.recorded(observation, alpha),
            final(self).wf(),
            final(self)@.raw.len() == final(self)@.smoothed.len(),
            final(self)@.last_ema is Some,
            newest_one(final(self)@.raw) == Some(observation),
            newest_one(final(self)@.smoothed) == final(self)@.last_ema,
    {
        self.raw.push(observation);
        let ema = smooth(self.last_ema, observation, alpha);
        self.last_ema = Some(ema);
        self.smoothed.push(ema);
    }

    /// The window of observations as they came.
    pub fn raw(&self) -> (window: &RollingWindow<u32>)
        ensures
            window@ == self@.raw,
    {
        &self.raw
    }

    /// The window of smoothed observations.
    pub fn smoothed(&self) -> (window: &RollingWindow<u32>)
        ensures
            window@ == self@.smoothed,
    {
        &self.smoothed
    }

    /// The average that the next observation will be blended into, or `None`
    /// before the first observation.
    pub fn last_ema(&self) -> (ema: Option<u32>)
        ensures
            ema == self@.last_ema,
    {
        self.last_ema
    }
}

} // verus!
