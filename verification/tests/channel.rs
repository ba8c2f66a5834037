use cpu_monitor::channel::{
    advance, settle, try_receive_latest_snapshot, Channels, DrainStep, Drained, Polled,
};
use cpu_monitor::engine::IngestError;
use cpu_monitor::monitor::{apply_drained, update, AppMonitor, UpdateOutcome};
use cpu_monitor::sample::Sample;
use std::sync::mpsc::channel;

fn sample(aggregate: u32, per_unit: &[u32]) -> Sample {
    Sample { aggregate_usage: aggregate, per_unit_usage: per_unit.to_vec() }
}

#[test]
fn drain_returns_only_the_newest() {
    let (sender, receiver) = channel::<Sample>();
    sender.send(sample(1, &[1])).unwrap();
    sender.send(sample(2, &[2])).unwrap();
    sender.send(sample(3, &[3])).unwrap();
    assert_eq!(try_receive_latest_snapshot(&receiver), Drained::Latest(sample(3, &[3])));
    assert_eq!(try_receive_latest_snapshot(&receiver), Drained::Empty);
}

#[test]
fn drain_of_an_empty_channel_returns_at_once() {
    let (sender, receiver) = channel::<u32>();
    assert_eq!(try_receive_latest_snapshot(&receiver), Drained::Empty);
    assert_eq!(try_receive_latest_snapshot(&receiver), Drained::Empty);
    sender.send(4).unwrap();
    assert_eq!(try_receive_latest_snapshot(&receiver), Drained::Latest(4));
}

#[test]
fn drain_tells_a_lost_sender_from_an_empty_channel() {
    let (sender, receiver) = channel::<u32>();
    assert_eq!(try_receive_latest_snapshot(&receiver), Drained::Empty);
    drop(sender);
    assert_eq!(try_receive_latest_snapshot(&receiver), Drained::Disconnected);
    assert_eq!(try_receive_latest_snapshot(&receiver), Drained::Disconnected);
}

#[test]
fn drain_hands_out_what_a_lost_sender_left() {
    let (sender, receiver) = channel::<u32>();
    sender.send(10).unwrap();
    sender.send(20).unwrap();
    drop(sender);
    assert_eq!(try_receive_latest_snapshot(&receiver), Drained::Latest(20));
    assert_eq!(try_receive_latest_snapshot(&receiver), Drained::Disconnected);
}

#[test]
fn drain_of_many_keeps_the_last() {
    let (sender, receiver) = channel::<u32>();
    for value in 0..10_000u32 {
        sender.send(value).unwrap();
    }
    assert_eq!(try_receive_latest_snapshot(&receiver), Drained::Latest(9_999));
}

#[test]
fn settle_prefers_a_snapshot_in_hand() {
    assert_eq!(settle(Some(5u32), false), Drained::Latest(5));
    assert_eq!(settle(Some(5u32), true), Drained::Latest(5));
    assert_eq!(settle(None::<u32>, false), Drained::Empty);
    assert_eq!(settle(None::<u32>, true), Drained::Disconnected);
}

#[test]
fn advance_replaces_the_snapshot_in_hand() {
    assert_eq!(advance(None, Polled::Snapshot(1u32)), DrainStep::Pending(Some(1)));
    assert_eq!(advance(Some(1u32), Polled::Snapshot(2)), DrainStep::Pending(Some(2)));
}

#[test]
fn advance_ends_on_a_poll_without_a_snapshot() {
    assert_eq!(advance(Some(1u32), Polled::Empty), DrainStep::Done(Drained::Latest(1)));
    assert_eq!(advance(Some(1u32), Polled::Disconnected), DrainStep::Done(Drained::Latest(1)));
    assert_eq!(advance(None::<u32>, Polled::Empty), DrainStep::Done(Drained::Empty));
    assert_eq!(advance(None::<u32>, Polled::Disconnected), DrainStep::Done(Drained::Disconnected));
}

#[test]
fn channels_hold_the_receiver_they_were_given() {
    let (sender, receiver) = channel::<Sample>();
    let channels = Channels::new(receiver);
    sender.send(sample(8, &[])).unwrap();
    assert_eq!(
        try_receive_latest_snapshot(&channels.cpu_snapshot_receiver),
        Drained::Latest(sample(8, &[]))
    );
}

#[test]
fn fresh_monitor_waits_for_data() {
    let (sender, receiver) = channel::<Sample>();
    let mut monitor = AppMonitor::new(receiver);
    assert_eq!(monitor.cpu_monitor.average_usage(), None);
    assert!(monitor.cpu_monitor.per_unit_series().is_none());
    assert_eq!(update(&mut monitor), UpdateOutcome::Waiting);
    assert_eq!(monitor.cpu_monitor.total_samples(), 0);
    drop(sender);
}

#[test]
fn update_takes_in_the_newest_sample_only() {
    let (sender, receiver) = channel::<Sample>();
    let mut monitor = AppMonitor::new(receiver);
    sender.send(sample(10_000, &[1, 2])).unwrap();
    sender.send(sample(20_000, &[3, 4])).unwrap();
    sender.send(sample(30_000, &[5, 6])).unwrap();
    assert_eq!(update(&mut monitor), UpdateOutcome::Ingested);
    assert_eq!(monitor.cpu_monitor.total_samples(), 1);
    assert_eq!(monitor.cpu_monitor.average_usage(), Some(30_000));
    let series = monitor.cpu_monitor.per_unit_series().unwrap();
    assert_eq!(series[0].0.latest(), Some(5));
    assert_eq!(series[1].0.latest(), Some(6));
    assert_eq!(update(&mut monitor), UpdateOutcome::Waiting);
    assert_eq!(monitor.cpu_monitor.total_samples(), 1);
}

#[test]
fn update_reports_a_rejected_sample() {
    let (sender, receiver) = channel::<Sample>();
    let mut monitor = AppMonitor::new(receiver);
    sender.send(sample(10_000, &[1, 2])).unwrap();
    assert_eq!(update(&mut monitor), UpdateOutcome::Ingested);
    sender.send(sample(50_000, &[1, 2, 3])).unwrap();
    assert_eq!(
        update(&mut monitor),
        UpdateOutcome::Rejected(IngestError::ConfigurationViolation { expected: 2, found: 3 })
    );
    assert_eq!(monitor.cpu_monitor.total_samples(), 1);
    assert_eq!(monitor.cpu_monitor.average_usage(), Some(10_000));
}

#[test]
fn update_reports_a_lost_sampler() {
    let (sender, receiver) = channel::<Sample>();
    let mut monitor = AppMonitor::new(receiver);
    sender.send(sample(10_000, &[])).unwrap();
    drop(sender);
    assert_eq!(update(&mut monitor), UpdateOutcome::Ingested);
    assert_eq!(update(&mut monitor), UpdateOutcome::SamplerLost);
    assert_eq!(monitor.cpu_monitor.total_samples(), 1);
    assert_eq!(monitor.cpu_monitor.aggregate_series().0.latest(), Some(10_000));
}

#[test]
fn apply_drained_follows_what_the_drain_found() {
    let (_sender, receiver) = channel::<Sample>();
    let mut monitor = AppMonitor::new(receiver);
    let engine = &mut monitor.cpu_monitor;
    assert_eq!(apply_drained(engine, Drained::Empty), UpdateOutcome::Waiting);
    assert_eq!(apply_drained(engine, Drained::Disconnected), UpdateOutcome::SamplerLost);
    assert_eq!(engine.total_samples(), 0);
    assert_eq!(
        apply_drained(engine, Drained::Latest(sample(4, &[4]))),
        UpdateOutcome::Ingested
    );
    assert_eq!(engine.total_samples(), 1);
    assert_eq!(
        apply_drained(engine, Drained::Latest(sample(4, &[]))),
        UpdateOutcome::Rejected(IngestError::ConfigurationViolation { expected: 1, found: 0 })
    );
    assert_eq!(engine.total_samples(), 1);
}

#[test]
fn drained_as_an_option_holds_the_newest_or_nothing() {
    let (sender, receiver) = channel::<u32>();
    assert_eq!(try_receive_latest_snapshot(&receiver).into_option(), None);
    sender.send(1).unwrap();
    sender.send(2).unwrap();
    sender.send(3).unwrap();
    assert_eq!(try_receive_latest_snapshot(&receiver).into_option(), Some(3));
    assert_eq!(try_receive_latest_snapshot(&receiver).into_option(), None);
    drop(sender);
    assert_eq!(try_receive_latest_snapshot(&receiver).into_option(), None);
    assert_eq!(Drained::Latest(7u32).into_option(), Some(7));
    assert_eq!(Drained::<u32>::Empty.into_option(), None);
    assert_eq!(Drained::<u32>::Disconnected.into_option(), None);
}
