//! The data-quality filter: drops duplicate, out-of-order and outlier trades
//! and keeps counters from which a stream-health score is computed.
use vstd::prelude::*;
use crate::decimal::{parse_units_or_zero, units_or_zero};
use crate::market::MarketEvent;

verus! {

/// Parts per million in one whole (the unit of the outlier threshold).
pub const PPM: u64 = 1_000_000;

/// The quality score of a stream that has received nothing, in hundredths of a
/// percent (100.00 %).
pub const FULL_SCORE: u64 = 10_000;

/// Whether `price` moved away from `last` by more than `threshold_ppm`
/// millionths of `last`: `|price - last| / last > threshold`.
pub open spec fn is_outlier(price: u64, last: u64, threshold_ppm: u64) -> bool {
    let diff: int = if price >= last {
        price - last
    } else {
        last - price
    };
    diff * (PPM as int) > (threshold_ppm as int) * (last as int)
}

pub struct DataFilter {
    pub last_trade_id: u64,
    pub last_agg_trade_id: u64,
    pub last_timestamp: u64,
    pub last_price: Option<u64>,
    pub outlier_threshold_ppm: u64,
    pub total_received: u64,
    pub duplicate_count: u64,
    pub out_of_order_count: u64,
    pub outlier_count: u64,
}

/// The outcome of checking one trade against the filter's reference values.
pub enum Verdict {
    Duplicate,
    OutOfOrder,
    Outlier,
    Accepted,
}

impl DataFilter {
    /// Every event was counted once, and a rejection at most once.
    pub open spec fn wf(&self) -> bool {
        &&& 0 < self.threshold_spec() <= PPM
        &&& self.duplicate_count + self.out_of_order_count + self.outlier_count
            <= self.total_received
    }

    pub open spec fn last_trade_id_spec(&self) -> u64 {
        self.last_trade_id
    }

    pub open spec fn last_agg_trade_id_spec(&self) -> u64 {
        self.last_agg_trade_id
    }

    pub open spec fn last_timestamp_spec(&self) -> u64 {
        self.last_timestamp
    }

    pub open spec fn last_price_spec(&self) -> Option<u64> {
        self.last_price
    }

    pub open spec fn threshold_spec(&self) -> u64 {
        self.outlier_threshold_ppm
    }

    /// What a trade with this id, time and price meets, given the last id of
    /// its kind: a duplicate id, then an older timestamp, then a price jump.
    pub open spec fn verdict_spec(&self, last_id: u64, id: u64, time: u64, price: u64) -> Verdict {
        if id <= last_id && last_id != 0 {
            Verdict::Duplicate
        } else if time < self.last_timestamp_spec() && self.last_timestamp_spec() != 0 {
            Verdict::OutOfOrder
        } else if self.last_price_spec().is_some() && is_outlier(
            price,
            self.last_price_spec().unwrap(),
            self.threshold_spec(),
        ) {
            Verdict::Outlier
        } else {
            Verdict::Accepted
        }
    }

    /// A filter with no history; `outlier_threshold_ppm` is the largest
    /// relative price move accepted, in millionths (50_000 is 5 %).
    pub fn new(outlier_threshold_ppm: u64) -> (r: Self)
        requires
            0 < outlier_threshold_ppm <= PPM,
        ensures
            r.wf(),
            r.last_trade_id_spec() == 0,
            r.last_agg_trade_id_spec() == 0,
            r.last_timestamp_spec() == 0,
            r.last_price_spec().is_none(),
            r.threshold_spec() == outlier_threshold_ppm,
            r.total_received == 0,
            r.duplicate_count == 0,
            r.out_of_order_count == 0,
            r.outlier_count == 0,
    {
        DataFilter {
            last_trade_id: 0,
            last_agg_trade_id: 0,
            last_timestamp: 0,
            last_price: None,
            outlier_threshold_ppm,
            total_received: 0,
            duplicate_count: 0,
            out_of_order_count: 0,
            outlier_count: 0,
        }
    }

    /// The most recently accepted price, in units of 10^-8.
    pub fn last_price(&self) -> (r: Option<u64>)
        ensures
            r == self.last_price_spec(),
    {
        self.last_price
    }

    /// The last accepted id of a trade's kind.
    pub open spec fn last_id_for(&self, is_agg: bool) -> u64 {
        if is_agg {
            self.last_agg_trade_id
        } else {
            self.last_trade_id
        }
    }

    /// The filter after checking a trade of the given kind: a rejection
    /// counts against its reason and moves no reference value; an acceptance
    /// moves the id of its kind, the timestamp and the price to the trade's.
    pub open spec fn checked(&self, is_agg: bool, id: u64, time: u64, price: u64) -> DataFilter {
        match self.verdict_spec(self.last_id_for(is_agg), id, time, price) {
            Verdict::Duplicate => DataFilter { duplicate_count: (self.duplicate_count + 1) as u64, ..*self },
            Verdict::OutOfOrder => DataFilter { out_of_order_count: (self.out_of_order_count + 1) as u64, ..*self },
            Verdict::Outlier => DataFilter { outlier_count: (self.outlier_count + 1) as u64, ..*self },
            Verdict::Accepted => DataFilter {
                last_trade_id: if is_agg {
                    self.last_trade_id
                } else {
                    id
                },
                last_agg_trade_id: if is_agg {
                    id
                } else {
                    self.last_agg_trade_id
                },
                last_timestamp: time,
                last_price: Some(price),
                ..*self
            },
        }
    }

    /// Whether the filter passes `event`: trades and aggregated trades by
    /// their verdict (see `verdict_spec`), order books and depth updates always.
    pub open spec fn accepts_event(&self, event: MarketEvent) -> bool {
        match event {
            MarketEvent::Trade(t) => self.verdict_spec(
                self.last_trade_id,
                t.trade_id,
                t.event_time,
                units_or_zero(t.price@),
            ) is Accepted,
            MarketEvent::AggrTrade(a) => self.verdict_spec(
                self.last_agg_trade_id,
                a.aggregated_trade_id,
                a.event_time,
                units_or_zero(a.price@),
            ) is Accepted,
            _ => true,
        }
    }

    /// The filter after `event`: counted, then checked when it is a trade.
    pub open spec fn after_event(&self, event: MarketEvent) -> DataFilter {
        let counted = DataFilter { total_received: (self.total_received + 1) as u64, ..*self };
        match event {
            MarketEvent::Trade(t) => counted.checked(false, t.trade_id, t.event_time, units_or_zero(t.price@)),
            MarketEvent::AggrTrade(a) => counted.checked(
                true,
                a.aggregated_trade_id,
                a.event_time,
                units_or_zero(a.price@),
            ),
            _ => counted,
        }
    }

    fn check_trade(&mut self, is_agg: bool, id: u64, time: u64, price: u64) -> (r: bool)
        requires
            0 < old(self).outlier_threshold_ppm <= PPM,
            old(self).duplicate_count + old(self).out_of_order_count + old(self).outlier_count
                < old(self).total_received,
        ensures
            final(self).wf(),
            *final(self) == old(self).checked(is_agg, id, time, price),
            r == (old(self).verdict_spec(old(self).last_id_for(is_agg), id, time, price) is Accepted),
    {
        let last_id = if is_agg {
            self.last_agg_trade_id
        } else {
            self.last_trade_id
        };
        if id <= last_id && last_id != 0 {
            self.duplicate_count = self.duplicate_count + 1;
            return false;
        }
        if time < self.last_timestamp && self.last_timestamp != 0 {
            self.out_of_order_count = self.out_of_order_count + 1;
            return false;
        }
        match self.last_price {
            Some(lp) => {
                let diff: u64 = if price >= lp {
                    price - lp
                } else {
                    lp - price
                };
                assert(self.outlier_threshold_ppm as u128 * lp as u128 <= 1_000_000u128 * 0xffff_ffff_ffff_ffffu128) by (nonlinear_arith)
                    requires self.outlier_threshold_ppm <= 1_000_000, lp <= 0xffff_ffff_ffff_ffffu64;
                let lhs: u128 = diff as u128 * PPM as u128;
                let rhs: u128 = self.outlier_threshold_ppm as u128 * lp as u128;
                if lhs > rhs {
                    self.outlier_count = self.outlier_count + 1;
                    return false;
                }
            },
            None => {},
        }
        if is_agg {
            self.last_agg_trade_id = id;
        } else {
            self.last_trade_id = id;
        }
        self.last_timestamp = time;
        self.last_price = Some(price);
        true
    }

    /// Counts the event and decides whether it goes on to the strategy. Trades
    /// and aggregated trades are checked (see `verdict_spec`); a rejected one
    /// counts against its reason and leaves every reference value as it was,
    /// an accepted one moves them to its own. Order books and depth updates
    /// always pass.
    pub fn should_process(&mut self, event: &MarketEvent) -> (r: bool)
        requires
            old(self).wf(),
            old(self).total_received < u64::MAX,
        ensures
            final(self).wf(),
            final(self).total_received == old(self).total_received + 1,
            final(self).total_received >= final(self).duplicate_count + final(self).out_of_order_count
                + final(self).outlier_count,
            *final(self) == old(self).after_event(*event),
            r == old(self).accepts_event(*event),
    {
        self.total_received = self.total_received + 1;
        match event {
            MarketEvent::Trade(t) => {
                let price = parse_units_or_zero(t.price.as_str());
                self.check_trade(false, t.trade_id, t.event_time, price)
            },
            MarketEvent::AggrTrade(a) => {
                let price = parse_units_or_zero(a.price.as_str());
                self.check_trade(true, a.aggregated_trade_id, a.event_time, price)
            },
            _ => true,
        }
    }

    /// Events rejected so far.
    pub open spec fn rejected(&self) -> int {
        self.duplicate_count + self.out_of_order_count + self.outlier_count
    }

    /// The quality score: the share of received events that were accepted,
    /// in hundredths of a percent (rounded down); 10_000 when nothing was
    /// received.
    pub open spec fn quality_of(&self) -> int {
        if self.total_received == 0 {
            FULL_SCORE as int
        } else {
            (self.total_received - self.rejected()) * (FULL_SCORE as int) / (self.total_received as int)
        }
    }

    /// The share of received events that were accepted, in hundredths of a
    /// percent (rounded down); 10_000 when nothing was received.
    pub fn get_quality_score(&self) -> (r: u64)
        requires
            self.wf(),
        ensures
            r <= FULL_SCORE,
            r == self.quality_of(),
    {
        if self.total_received == 0 {
            return FULL_SCORE;
        }
        let bad: u128 = self.duplicate_count as u128 + self.out_of_order_count as u128
            + self.outlier_count as u128;
        let good: u128 = self.total_received as u128 - bad;
        let total: u128 = self.total_received as u128;
        assert(good <= u64::MAX);
        assert(good * 10_000 <= 0xffff_ffff_ffff_ffffu128 * 10_000) by (nonlinear_arith)
            requires good <= 0xffff_ffff_ffff_ffffu128;
        let r: u128 = good * (FULL_SCORE as u128) / total;
        proof {
            let g = good as int;
            let t = total as int;
            assert(g * 10_000 <= t * 10_000) by (nonlinear_arith)
                requires g <= t;
            assert((g * 10_000) / t <= 10_000) by (nonlinear_arith)
                requires g * 10_000 <= t * 10_000, t > 0;
        }
        r as u64
    }
}

/// The filter after a stream of events.
pub open spec fn after_stream(f: DataFilter, events: Seq<MarketEvent>) -> DataFilter
    decreases events.len(),
{
    if events.len() == 0 {
        f
    } else {
        after_stream(f, events.drop_last()).after_event(events.last())
    }
}

proof fn lemma_after_event_wf(f: DataFilter, e: MarketEvent)
    requires
        f.wf(),
        f.total_received < u64::MAX,
    ensures
        f.after_event(e).wf(),
        f.after_event(e).total_received == f.total_received + 1,
{
}

/// Over any stream of events, from any valid filter whose count does not
/// overflow, the filter stays valid: it has counted every event, at most one
/// rejection per event, and its quality score lies between 0 and 100 %.
pub proof fn lemma_stream_counts_bounded(f: DataFilter, events: Seq<MarketEvent>)
    requires
        f.wf(),
        f.total_received + events.len() <= u64::MAX,
    ensures
        after_stream(f, events).wf(),
        after_stream(f, events).total_received == f.total_received + events.len(),
        after_stream(f, events).total_received >= after_stream(f, events).duplicate_count
            + after_stream(f, events).out_of_order_count + after_stream(f, events).outlier_count,
        0 <= after_stream(f, events).quality_of() <= FULL_SCORE,
    decreases events.len(),
{
    if events.len() > 0 {
        lemma_stream_counts_bounded(f, events.drop_last());
        lemma_after_event_wf(after_stream(f, events.drop_last()), events.last());
    }
    let g = after_stream(f, events);
    if g.total_received > 0 {
        let t = g.total_received as int;
        let k = t - g.rejected();
        assert(0 <= k * 10_000 / t <= 10_000) by (nonlinear_arith)
            requires 0 <= k <= t, t > 0;
    }
}

/// A filter that has accepted nothing accepts the first trade of a kind,
/// whatever its id, time and price.
pub proof fn lemma_first_trade_accepted(f: DataFilter, id: u64, time: u64, price: u64)
    requires
        f.last_trade_id == 0,
        f.last_agg_trade_id == 0,
        f.last_timestamp == 0,
        f.last_price.is_none(),
    ensures
        f.verdict_spec(f.last_trade_id, id, time, price) is Accepted,
        f.verdict_spec(f.last_agg_trade_id, id, time, price) is Accepted,
{
}

} // verus!
