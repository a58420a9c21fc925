use trading_engine::downloader::{
    min_download_time_ms, plan_chunks, plan_ensure_data, plan_ensure_data_range, total_stagger_ms, MarketType,
};

const HOUR: u64 = 3_600_000;

#[test]
fn two_hour_window_gives_two_chunks() {
    let t = 1_700_000_000_000;
    let chunks = plan_chunks(t, t + 2 * HOUR);
    assert_eq!(chunks, vec![(t, t + HOUR), (t + HOUR, t + 2 * HOUR)]);
    assert!(total_stagger_ms(chunks.len() as u64) >= 400);
}

#[test]
fn empty_store_fetches_each_window_once() {
    let t = 1_700_000_000_000;
    let chunks: Vec<(u64, u64)> =
        plan_ensure_data_range(t, t + 2 * HOUR, None, None).into_iter().flat_map(|(s, e)| plan_chunks(s, e)).collect();
    assert_eq!(chunks, vec![(t, t + HOUR), (t + HOUR, t + 2 * HOUR)]);
}

#[test]
fn last_chunk_is_cut_at_end() {
    let chunks = plan_chunks(0, HOUR + 5);
    assert_eq!(chunks, vec![(0, HOUR), (HOUR, HOUR + 5)]);
    assert!(plan_chunks(10, 10).is_empty());
    assert!(plan_chunks(11, 10).is_empty());
}

#[test]
fn download_time_lower_bound() {
    assert_eq!(min_download_time_ms(0), 0);
    assert_eq!(min_download_time_ms(2), 200);
    assert_eq!(min_download_time_ms(5), 200);
    assert_eq!(min_download_time_ms(6), 400);
}

#[test]
fn ensure_data_plans() {
    let now = 10 * HOUR;
    assert_eq!(plan_ensure_data(now, 6, None), Some((4 * HOUR, now)));
    assert_eq!(plan_ensure_data(now, 6, Some(3 * HOUR)), None);
    assert_eq!(plan_ensure_data(now, 6, Some(5 * HOUR)), Some((4 * HOUR, 5 * HOUR)));
    assert_eq!(plan_ensure_data(now, 20, None), Some((0, now)));
}

#[test]
fn ensure_range_fills_both_sides() {
    assert_eq!(plan_ensure_data_range(100, 200, None, None), vec![(100, 200)]);
    assert!(plan_ensure_data_range(200, 200, None, None).is_empty());
    assert_eq!(plan_ensure_data_range(100, 200, Some(150), Some(180)), vec![(100, 150), (180, 200)]);
    assert!(plan_ensure_data_range(100, 200, Some(90), Some(210)).is_empty());
    assert_eq!(plan_ensure_data_range(100, 200, Some(90), Some(150)), vec![(150, 200)]);
}

#[test]
fn market_labels() {
    assert_eq!(MarketType::Spot.as_str(), "SPOT");
    assert_eq!(MarketType::Futures.as_str(), "FUTURES");
}
