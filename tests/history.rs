use trading_engine::history::History;
use trading_engine::state_machine::SystemState;

fn push(h: &mut History, ts: u64) {
    h.push_data_point_at(ts, 1, None, 0, 0, 0, ts, SystemState::Trading, 0);
}

#[test]
fn ring_keeps_newest() {
    let mut h = History::new(3);
    for ts in 1..=5 {
        push(&mut h, ts);
    }
    let kept: Vec<u64> = h.points.iter().map(|p| p.timestamp).collect();
    assert_eq!(kept, vec![3, 4, 5]);
    h.clear_all_data();
    assert!(h.points.is_empty());
}

#[test]
fn sampling_keeps_every_nth() {
    let mut h = History::new(100);
    h.sample_rate = 3;
    for ts in 1..=9 {
        push(&mut h, ts);
    }
    let kept: Vec<u64> = h.points.iter().map(|p| p.timestamp).collect();
    assert_eq!(kept, vec![3, 6, 9]);
}

#[test]
fn snapshots_at_most_every_five_seconds() {
    let mut h = History::new(10);
    assert!(h.push_portfolio_snapshot(100, 7));
    assert!(!h.push_portfolio_snapshot(104, 8));
    assert!(h.push_portfolio_snapshot(105, 9));
    assert_eq!(h.portfolio_history.len(), 2);
    assert_eq!(h.last_portfolio_snapshot_ts, 105);
}

#[test]
fn snapshots_are_bounded() {
    let mut h = History::new(10);
    for i in 1..=510u64 {
        assert!(h.push_portfolio_snapshot(i * 5, i as u128));
    }
    assert_eq!(h.portfolio_history.len(), 500);
    assert_eq!(h.portfolio_history[0].timestamp, 55);
}
