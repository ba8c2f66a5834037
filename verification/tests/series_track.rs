use cpu_monitor::series_track::SeriesTrack;
use cpu_monitor::smoother::ALPHA;

#[test]
fn fresh_track_has_seen_nothing() {
    let track = SeriesTrack::new();
    assert_eq!(track.raw().len(), 0);
    assert_eq!(track.smoothed().len(), 0);
    assert_eq!(track.last_ema(), None);
}

#[test]
fn first_record_seeds_both_windows() {
    let mut track = SeriesTrack::new();
    track.record(20_000, ALPHA);
    assert_eq!(track.raw().latest(), Some(20_000));
    assert_eq!(track.smoothed().latest(), Some(20_000));
    assert_eq!(track.last_ema(), Some(20_000));
}

#[test]
fn second_record_is_smoothed() {
    let mut track = SeriesTrack::new();
    track.record(20_000, ALPHA);
    track.record(40_000, ALPHA);
    assert_eq!(track.raw().iter().copied().collect::<Vec<u32>>(), vec![20_000, 40_000]);
    assert_eq!(track.smoothed().iter().copied().collect::<Vec<u32>>(), vec![20_000, 28_000]);
    assert_eq!(track.last_ema(), Some(28_000));
}

#[test]
fn record_uses_the_factor_it_is_given() {
    let mut track = SeriesTrack::new();
    track.record(0, 250);
    track.record(100_000, 250);
    assert_eq!(track.last_ema(), Some(25_000));
    track.record(100_000, 1000);
    assert_eq!(track.last_ema(), Some(100_000));
}

#[test]
fn windows_stay_in_step() {
    let mut track = SeriesTrack::new();
    for i in 0..35u32 {
        track.record(i * 1000, ALPHA);
        assert_eq!(track.raw().len(), track.smoothed().len());
        assert_eq!(track.raw().len(), ((i + 1) as usize).min(10));
        assert_eq!(track.raw().latest(), Some(i * 1000));
        assert_eq!(track.smoothed().latest(), track.last_ema());
        assert!(track.last_ema().is_some());
    }
}

#[test]
fn smoothed_history_follows_the_recurrence() {
    let mut track = SeriesTrack::new();
    let observations: [u32; 4] = [10_000, 50_000, 90_000, 0];
    for observation in observations {
        track.record(observation, 400);
    }
    // 10000; 50000*0.4 + 10000*0.6 = 26000; 90000*0.4 + 26000*0.6 = 51600; 51600*0.6 = 30960
    assert_eq!(
        track.smoothed().iter().copied().collect::<Vec<u32>>(),
        vec![10_000, 26_000, 51_600, 30_960]
    );
}
