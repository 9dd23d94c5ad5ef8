use system_monitor::{
    GraphData, ProbeError, RollingBuffer, SharedGraph, TickOutcome, adjust_intervals, chart_bounds,
    clamp_rate, clamp_y_scale, interval_for_rate, min_max_of,
};

const SECOND: u64 = 1_000_000_000;

#[test]
fn push_past_capacity_keeps_last_three() {
    let mut b = RollingBuffer::new(3);
    b.push(1);
    b.push(2);
    b.push(3);
    b.push(4);
    assert_eq!(b.snapshot(), vec![2, 3, 4]);
    assert_eq!(b.len(), 3);
}

#[test]
fn buffer_holds_min_of_pushes_and_capacity() {
    let mut b = RollingBuffer::new(5);
    for v in 0..3 {
        b.push(v);
    }
    assert_eq!(b.len(), 3);
    assert_eq!(b.snapshot(), vec![0, 1, 2]);
    for v in 3..12 {
        b.push(v);
    }
    assert_eq!(b.len(), 5);
    assert_eq!(b.snapshot(), vec![7, 8, 9, 10, 11]);
}

#[test]
fn capacity_one_keeps_latest() {
    let mut b = RollingBuffer::new(1);
    assert!(b.is_empty());
    assert_eq!(b.latest(), None);
    b.push(9);
    b.push(-4);
    assert_eq!(b.snapshot(), vec![-4]);
    assert_eq!(b.latest(), Some(-4));
    assert_eq!(b.capacity(), 1);
}

#[test]
fn min_max_of_three_values() {
    assert_eq!(min_max_of(&vec![3, 1, 4]), (1, 4));
    let mut b = RollingBuffer::new(100);
    b.push(300);
    b.push(100);
    b.push(400);
    assert_eq!(b.min_max(), (100, 400));
}

#[test]
fn min_max_with_equal_and_negative_values() {
    assert_eq!(min_max_of(&vec![-7, 2, -7, 2]), (-7, 2));
    assert_eq!(min_max_of(&vec![5]), (5, 5));
}

#[test]
fn interval_follows_rate() {
    assert_eq!(interval_for_rate(1000), 100_000_000);
    assert_eq!(interval_for_rate(6000), 16_666_666);
    assert_eq!(interval_for_rate(100), SECOND);
    let g = GraphData::new(100, 1000, 0);
    assert_eq!(g.sampling_interval(), 100_000_000);
}

#[test]
fn rates_and_scales_are_clamped() {
    assert_eq!(clamp_rate(0), 100);
    assert_eq!(clamp_rate(10_000), 6000);
    assert_eq!(clamp_rate(2500), 2500);
    assert_eq!(clamp_y_scale(5), 100);
    assert_eq!(clamp_y_scale(2000), 1000);
    assert_eq!(clamp_y_scale(150), 150);
    let mut g = GraphData::new(10, 1, 0);
    assert_eq!(g.sampling_rate(), 100);
    g.set_sampling_rate(99_999);
    assert_eq!(g.sampling_rate(), 6000);
    g.set_y_scale(0);
    assert_eq!(g.y_scale(), 100);
    g.set_y_scale(700);
    assert_eq!(g.y_scale(), 700);
}

#[test]
fn failed_probes_are_skipped_and_sampling_goes_on() {
    let mut g = GraphData::new(100, 1000, 0);
    let step = g.sampling_interval();
    assert_eq!(
        g.record(step, Err(ProbeError::SourceUnavailable)),
        TickOutcome::Failed(ProbeError::SourceUnavailable)
    );
    assert_eq!(
        g.record(2 * step, Err(ProbeError::ParseFailure)),
        TickOutcome::Failed(ProbeError::ParseFailure)
    );
    assert_eq!(g.len(), 0);
    assert_eq!(g.last_sample_time(), 0);
    assert_eq!(g.record(3 * step, Ok(4200)), TickOutcome::Recorded);
    assert_eq!(g.len(), 1);
    assert_eq!(g.snapshot(), vec![4200]);
    assert_eq!(g.last_sample_time(), 3 * step);
    assert_eq!(g.record(4 * step, Ok(4300)), TickOutcome::Recorded);
    assert_eq!(g.snapshot(), vec![4200, 4300]);
}

#[test]
fn paused_ticks_change_nothing() {
    let mut g = GraphData::new(4, 1000, 0);
    let step = g.sampling_interval();
    assert_eq!(g.record(step, Ok(1)), TickOutcome::Recorded);
    g.set_paused(true);
    let before = g.snapshot();
    let last = g.last_sample_time();
    for k in 2..20u64 {
        assert!(!g.is_due(k * step));
        assert_eq!(g.record(k * step, Ok(k as i64)), TickOutcome::Paused);
        g.update(99);
    }
    assert_eq!(g.snapshot(), before);
    assert_eq!(g.last_sample_time(), last);
    g.set_paused(false);
    assert!(!g.is_paused());
    assert_eq!(g.record(30 * step, Ok(5)), TickOutcome::Recorded);
    assert_eq!(g.snapshot(), vec![1, 5]);
}

#[test]
fn ticks_before_the_interval_are_not_due() {
    let mut g = GraphData::new(4, 100, 1000);
    assert!(!g.is_due(1000 + SECOND - 1));
    assert_eq!(g.record(1000 + SECOND - 1, Ok(7)), TickOutcome::NotDue);
    assert!(!g.is_due(10));
    assert!(g.is_due(1000 + SECOND));
    assert_eq!(g.record(1000 + SECOND, Ok(7)), TickOutcome::Recorded);
}

#[test]
fn rate_change_applies_to_next_tick() {
    let mut g = GraphData::new(10, 100, 0);
    assert_eq!(g.sampling_interval(), SECOND);
    g.set_sampling_rate(6000);
    g.adjust_interval();
    assert_eq!(g.sampling_interval(), 16_666_666);
    assert!(!g.is_due(16_666_665));
    assert!(g.is_due(16_666_666));
    g.set_sampling_rate(1000);
    g.adjust_interval();
    assert!(!g.is_due(16_666_666));
    assert!(g.is_due(100_000_000));
}

#[test]
fn update_pushes_unless_paused() {
    let mut g = GraphData::new(2, 1000, 0);
    g.update(1);
    g.update(2);
    g.update(3);
    assert_eq!(g.snapshot(), vec![2, 3]);
    assert_eq!(g.max_points(), 2);
    g.set_paused(true);
    g.update(4);
    assert_eq!(g.snapshot(), vec![2, 3]);
    assert_eq!(g.latest(), Some(3));
}

#[test]
fn chart_bounds_scale_the_maximum() {
    assert_eq!(chart_bounds(&vec![], 100), None);
    assert_eq!(chart_bounds(&vec![300, 100, 400], 200), Some((10_000, 80_000)));
    assert_eq!(chart_bounds(&vec![-50], 1000), Some((-5_000, -50_000)));
    let mut g = GraphData::new(5, 1000, 0);
    assert_eq!(g.display_range(), None);
    g.update(250);
    g.set_y_scale(300);
    assert_eq!(g.display_range(), Some((25_000, 75_000)));
}

#[test]
fn shared_graph_records_and_snapshots() {
    let s = SharedGraph::new(3, 1000, 0);
    assert_eq!(s.max_points(), 3);
    let step = s.sampling_interval();
    let mut now = 0;
    for v in 1..=5 {
        now += step;
        assert!(s.is_due(now));
        assert_eq!(s.record(now, Ok(v)), TickOutcome::Recorded);
        let snap = s.snapshot();
        assert!(snap.len() <= 3);
        let first = if v > 3 { v - 2 } else { 1 };
        assert_eq!(snap, (first..=v).collect::<Vec<i64>>());
    }
    assert_eq!(s.latest(), Some(5));
    assert_eq!(s.display_range(), Some((300, 500)));
}

#[test]
fn shared_graph_configuration() {
    let cpu = SharedGraph::new(100, 100, 0);
    let fan = SharedGraph::new(100, 100, 0);
    let temp = SharedGraph::new(100, 100, 0);
    cpu.set_sampling_rate(1000);
    fan.set_sampling_rate(6000);
    temp.set_sampling_rate(0);
    assert_eq!(cpu.sampling_interval(), SECOND);
    adjust_intervals(&cpu, &fan, &temp);
    assert_eq!(cpu.sampling_interval(), 100_000_000);
    assert_eq!(fan.sampling_interval(), 16_666_666);
    assert_eq!(temp.sampling_interval(), SECOND);
    assert_eq!(temp.sampling_rate(), 100);
    cpu.set_paused(true);
    assert!(cpu.is_paused());
    assert_eq!(cpu.record(SECOND, Ok(1)), TickOutcome::Paused);
    assert!(cpu.snapshot().is_empty());
    cpu.set_y_scale(450);
    assert_eq!(cpu.y_scale(), 450);
}

#[test]
fn cadence_controller_reports_rates_and_intervals() {
    let cpu = SharedGraph::new(10, 1000, 0);
    let fan = SharedGraph::new(10, 6000, 0);
    let temp = SharedGraph::new(10, 100, 0);
    cpu.set_sampling_rate(2000);
    let r = adjust_intervals(&cpu, &fan, &temp);
    assert_eq!(r, [(2000, 50_000_000), (6000, 16_666_666), (100, 1_000_000_000)]);
    assert_eq!(cpu.sampling_interval(), 50_000_000);
    assert_eq!(fan.adjust_interval(), (6000, 16_666_666));
}
