//! The coordinator's decisions per accepted event: when to refresh the
//! quality score, when to swap the strategy, when to snapshot the portfolio,
//! and whether and what to trade.
use vstd::prelude::*;
use crate::backtest::str_eq;
use crate::decimal::SCALE;
use crate::filter::{DataFilter, PPM};
use crate::market::MarketEvent;
use crate::risk::{adjusted, is_best_at, report_for, tradable, RiskManager};
use crate::signal::{Opportunity, RiskReport, Signal};

verus! {

/// Events between two refreshes of the published quality score.
pub const QUALITY_REFRESH_EVERY: u64 = 100;

/// Capacity of the market-event channel.
pub const EVENT_CHANNEL_CAPACITY: usize = 100;

/// Whether the published quality score is refreshed before this event: on
/// every hundredth count.
pub fn quality_refresh_due(event_count: u64) -> (r: bool)
    ensures
        r == (event_count % QUALITY_REFRESH_EVERY == 0),
{
    event_count % QUALITY_REFRESH_EVERY == 0
}

/// Whether the running strategy must be replaced: the requested name differs
/// from its name. The replaced strategy is dropped, so a strategy swapped back
/// in starts fresh.
pub fn strategy_needs_swap(current: &str, wanted: &str) -> (r: bool)
    ensures
        r == (current@ != wanted@),
{
    !str_eq(current, wanted)
}

/// What the coordinator does with an event before the strategy sees it.
pub struct Admission {
    /// Whether the event goes on to the strategy.
    pub accepted: bool,
    /// The quality score to publish now, if any.
    pub quality: Option<u64>,
    /// Whether the running strategy must be replaced first.
    pub swap: bool,
}

/// The coordinator's own state: the quality filter and the count of
/// accepted events.
pub struct Coordinator {
    pub filter: DataFilter,
    pub event_count: u64,
}

impl Coordinator {
    pub open spec fn wf(&self) -> bool {
        self.filter.wf()
    }

    /// A coordinator with a fresh filter of the given outlier threshold
    /// (millionths) and no event counted.
    pub fn new(outlier_threshold_ppm: u64) -> (r: Self)
        requires
            0 < outlier_threshold_ppm <= PPM,
        ensures
            r.wf(),
            r.event_count == 0,
            r.filter.total_received == 0,
            r.filter.threshold_spec() == outlier_threshold_ppm,
    {
        Coordinator { filter: DataFilter::new(outlier_threshold_ppm), event_count: 0 }
    }

    /// Runs the event through the filter. A rejected event publishes the
    /// quality score and goes no further. An accepted one publishes it on
    /// every hundredth count, asks for a swap when the requested strategy name
    /// differs from the running one, and is counted.
    pub fn on_event(&mut self, event: &MarketEvent, running: &str, requested: &str) -> (r: Admission)
        requires
            old(self).wf(),
            old(self).filter.total_received < u64::MAX,
        ensures
            final(self).wf(),
            final(self).filter.total_received == old(self).filter.total_received + 1,
            final(self).filter == old(self).filter.after_event(*event),
            r.accepted == old(self).filter.accepts_event(*event),
            !r.accepted ==> {
                &&& r.quality == Some(final(self).filter.quality_of() as u64)
                &&& !r.swap
                &&& final(self).event_count == old(self).event_count
            },
            r.accepted ==> {
                &&& r.quality == if old(self).event_count % QUALITY_REFRESH_EVERY == 0 {
                    Some(final(self).filter.quality_of() as u64)
                } else {
                    None
                }
                &&& r.swap == (running@ != requested@)
                &&& final(self).event_count == if old(self).event_count < u64::MAX {
                    (old(self).event_count + 1) as u64
                } else {
                    old(self).event_count
                }
            },
    {
        let accepted = self.filter.should_process(event);
        if !accepted {
            let q = self.filter.get_quality_score();
            return Admission { accepted: false, quality: Some(q), swap: false };
        }
        let quality = if quality_refresh_due(self.event_count) {
            Some(self.filter.get_quality_score())
        } else {
            None
        };
        let swap = strategy_needs_swap(running, requested);
        if self.event_count < u64::MAX {
            self.event_count = self.event_count + 1;
        }
        Admission { accepted: true, quality, swap }
    }
}

/// Value of the balances at a mark price, in units of 10^-8 USDT:
/// `usdt + btc × mark`.
pub fn portfolio_value(usdt: u64, btc: u64, mark: u64) -> (r: u128)
    ensures
        r == usdt as nat + (btc as nat * mark as nat) / (SCALE as nat),
{
    proof {
        assert(btc as nat * mark as nat <= (u64::MAX as nat) * (u64::MAX as nat)) by (nonlinear_arith)
            requires btc <= u64::MAX, mark <= u64::MAX;
        assert((btc as nat * mark as nat) / (SCALE as nat) <= btc as nat * mark as nat) by (nonlinear_arith);
    }
    usdt as u128 + (btc as u128 * mark as u128) / (SCALE as u128)
}

/// What the coordinator does with a strategy's opportunities.
pub struct TradeDecision {
    /// The adjusted opportunities and the report, when risk analysis ran.
    pub analysis: Option<(Vec<Opportunity>, RiskReport)>,
    /// The signal to execute, if any.
    pub best: Option<Signal>,
}

/// Runs risk analysis on the opportunities when there are any and trading is
/// on, then picks the best adjusted one to execute.
pub fn decide_trade(opportunities: &Vec<Opportunity>, is_trading: bool) -> (r: TradeDecision)
    requires
        forall|i: int| 0 <= i < opportunities@.len() ==> (#[trigger] opportunities@[i]).bounded(),
    ensures
        (opportunities@.len() == 0 || !is_trading) ==> r.analysis.is_none() && r.best.is_none(),
        (opportunities@.len() > 0 && is_trading) ==> {
            let (adj, report) = r.analysis.unwrap();
            &&& r.analysis.is_some()
            &&& report == report_for(opportunities@.len())
            &&& adj@.len() == opportunities@.len()
            &&& forall|i: int| 0 <= i < adj@.len() ==> #[trigger] adj@[i] == adjusted(
                opportunities@[i],
                report.drawdown_warning,
            )
            &&& (r.best.is_none() <==> forall|i: int| 0 <= i < adj@.len() ==> !tradable(#[trigger] adj@[i]))
            &&& r.best.is_some() ==> exists|i: int| is_best_at(adj@, i) && r.best == Some(adj@[i].signal)
        },
{
    if opportunities.len() == 0 || !is_trading {
        return TradeDecision { analysis: None, best: None };
    }
    let (adj, report) = RiskManager::analyze_opportunities(opportunities);
    let best = RiskManager::select_best_trade(&adj);
    TradeDecision { analysis: Some((adj, report)), best }
}

} // verus!
