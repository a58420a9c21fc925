//! The strategy contract's shared parts: the registry of strategy names, the
//! emission guard, the lifecycle steps every strategy drives, and the
//! buy-and-hold strategy.
use vstd::prelude::*;
use crate::backtest::str_eq;
use crate::decimal::{parse_units_or_zero, units_or_zero};
use crate::market::TradeEvent;
use crate::signal::{Opportunity, Signal, SCORE_ONE};
use crate::state_machine::{StateMachine, SystemState};

verus! {

/// Quantity buy-and-hold buys: 0.1 BTC in units of 10^-8.
pub const BUY_AND_HOLD_QTY: u64 = 10_000_000;

pub open spec fn strategy_names() -> Seq<Seq<char>> {
    seq![
        "MeanReversion"@,
        "PaperTrader"@,
        "MomentumBreakout"@,
        "AdaptiveMeanReversion"@,
        "VWAPStrategy"@,
        "ScalperStrategy"@,
        "BreakoutRange"@,
        "MACDCrossover"@,
        "GridTrading"@,
        "RSIStrategy"@,
        "TrendFollower"@,
        "DCAStrategy"@,
        "VolatilityBreakout"@,
        "SwingTrader"@,
        "Martingale"@,
        "ParabolicSAR"@,
        "StochasticOscillator"@,
        "BBSqueeze"@,
        "ChaikinMoneyFlow"@,
        "TRIXStrategy"@,
        "DonchianChannels"@,
        "HullMA"@,
        "FibonacciReversion"@,
        "IchimokuCloud"@,
        "HeikinAshiTrend"@,
        "BuyAndHold"@,
    ]
}

pub struct StrategyFactory;

impl StrategyFactory {
    /// The names under which strategies can be created, in registry order.
    pub fn get_available_strategies() -> (r: Vec<String>)
        ensures
            r@.len() == strategy_names().len(),
            forall|i: int| 0 <= i < r@.len() ==> (#[trigger] r@[i])@ == strategy_names()[i],
    {
        let names: [&str; 26] = [
            "MeanReversion",
            "PaperTrader",
            "MomentumBreakout",
            "AdaptiveMeanReversion",
            "VWAPStrategy",
            "ScalperStrategy",
            "BreakoutRange",
            "MACDCrossover",
            "GridTrading",
            "RSIStrategy",
            "TrendFollower",
            "DCAStrategy",
            "VolatilityBreakout",
            "SwingTrader",
            "Martingale",
            "ParabolicSAR",
            "StochasticOscillator",
            "BBSqueeze",
            "ChaikinMoneyFlow",
            "TRIXStrategy",
            "DonchianChannels",
            "HullMA",
            "FibonacciReversion",
            "IchimokuCloud",
            "HeikinAshiTrend",
            "BuyAndHold",
        ];
        assert(forall|i: int| 0 <= i < 26 ==> (#[trigger] names@[i])@ == strategy_names()[i]);
        let mut r: Vec<String> = Vec::new();
        let mut i: usize = 0;
        while i < 26
            invariant
                i <= 26,
                r@.len() == i,
                forall|k: int| 0 <= k < 26 ==> (#[trigger] names@[k])@ == strategy_names()[k],
                forall|k: int| 0 <= k < i ==> (#[trigger] r@[k])@ == strategy_names()[k],
            decreases 26 - i,
        {
            r.push(String::from_str(names[i]));
            i = i + 1;
        }
        r
    }

    /// Whether `name` is a registered strategy.
    pub fn is_available(name: &str) -> (r: bool)
        ensures
            r == strategy_names().contains(name@),
    {
        let names = Self::get_available_strategies();
        let mut i: usize = 0;
        while i < names.len()
            invariant
                i <= names@.len(),
                names@.len() == strategy_names().len(),
                forall|k: int| 0 <= k < names@.len() ==> (#[trigger] names@[k])@ == strategy_names()[k],
                forall|k: int| 0 <= k < i ==> strategy_names()[k] != name@,
            decreases names@.len() - i,
        {
            if str_eq(names[i].as_str(), name) {
                assert(strategy_names()[i as int] == name@);
                return true;
            }
            i = i + 1;
        }
        false
    }
}

/// Whether a strategy may emit now: only while trading, and only once its
/// own cooldown has passed since its last signal (all times in event ms).
pub fn signal_allowed(state: SystemState, now_ms: u64, last_signal_ms: u64, cooldown_ms: u64) -> (r: bool)
    ensures
        r == (state == SystemState::Trading && now_ms as int - last_signal_ms as int > cooldown_ms as int),
{
    state == SystemState::Trading && now_ms > last_signal_ms && now_ms - last_signal_ms > cooldown_ms
}

/// The lifecycle step every strategy drives on an event at `now_ms`: a booting
/// system starts accumulating; an accumulating one that is stable starts
/// trading; any other state stays.
pub fn advance_lifecycle(sm: &mut StateMachine, now_ms: u64)
    requires
        old(sm).wf(),
    ensures
        final(sm).wf(),
        old(sm).current_state == SystemState::Booting ==> final(sm).current_state
            == SystemState::Accumulating && final(sm).last_transition_ms == now_ms,
        old(sm).current_state == SystemState::Accumulating ==> final(sm).current_state == if now_ms as int
            >= old(sm).last_transition_ms as int + 5_000 {
            SystemState::Trading
        } else {
            SystemState::Accumulating
        },
        old(sm).current_state != SystemState::Booting && old(sm).current_state
            != SystemState::Accumulating ==> final(sm).current_state == old(sm).current_state,
{
    let current = sm.get_state();
    match current {
        SystemState::Booting => sm.transition_to(SystemState::Accumulating, now_ms),
        SystemState::Accumulating => {
            if sm.is_stable(now_ms) {
                sm.transition_to(SystemState::Trading, now_ms);
            }
        },
        _ => {},
    }
}

/// Decimal digits of `n`, most significant first, without leading zeros.
pub open spec fn decimal_text(n: nat) -> Seq<char>
    decreases n,
{
    if n < 10 {
        seq!["0123456789"@[n as int]]
    } else {
        decimal_text(n / 10).push("0123456789"@[(n % 10) as int])
    }
}

/// Relies on `u64`'s `to_string` (its `Display`): the decimal digits of the
/// number, without sign or leading zeros.
#[verifier::external_body]
fn u64_text(n: u64) -> (r: String)
    ensures
        r@ == decimal_text(n as nat),
{
    n.to_string()
}

/// Buys 0.1 BTC on the first trade it sees, then holds.
pub struct BuyAndHold {
    pub has_bought: bool,
}

impl BuyAndHold {
    pub fn new() -> (r: Self)
        ensures
            !r.has_bought,
    {
        BuyAndHold { has_bought: false }
    }

    pub fn name(&self) -> (r: &'static str)
        ensures
            r@ == "BuyAndHold"@,
    {
        "BuyAndHold"
    }

    /// Whether it bought, and its kind.
    pub fn get_features(&self) -> (r: Vec<(String, String)>)
        ensures
            r@.len() == 2,
            r@[0].0@ == "Bought"@,
            r@[0].1@ == if self.has_bought { "true"@ } else { "false"@ },
            r@[1].0@ == "Strategy"@,
            r@[1].1@ == "Passive"@,
    {
        let mut r: Vec<(String, String)> = Vec::new();
        let bought = if self.has_bought {
            String::from_str("true")
        } else {
            String::from_str("false")
        };
        r.push((String::from_str("Bought"), bought));
        r.push((String::from_str("Strategy"), String::from_str("Passive")));
        r
    }

    /// On the first trade: one opportunity to buy 0.1 BTC at the trade's price
    /// with full score and no risk; afterwards nothing.
    pub fn process_trade(&mut self, trade: &TradeEvent) -> (r: Vec<Opportunity>)
        ensures
            final(self).has_bought,
            old(self).has_bought ==> r@.len() == 0,
            !old(self).has_bought ==> {
                &&& r@.len() == 1
                &&& r@[0].id@ == "buy_hold_"@ + decimal_text(trade.event_time as nat)
                &&& r@[0].signal == Signal::Buy {
                    symbol: trade.symbol,
                    price: Some(units_or_zero(trade.price@)),
                    quantity: BUY_AND_HOLD_QTY,
                }
                &&& r@[0].score == SCORE_ONE
                &&& r@[0].risk_score == 0
                &&& r@[0].timestamp == trade.event_time
            },
    {
        let mut opps: Vec<Opportunity> = Vec::new();
        if !self.has_bought {
            let price = parse_units_or_zero(trade.price.as_str());
            let id = String::from_str("buy_hold_").concat(u64_text(trade.event_time).as_str());
            opps.push(
                Opportunity {
                    id,
                    signal: Signal::Buy { symbol: trade.symbol.clone(), price: Some(price), quantity: BUY_AND_HOLD_QTY },
                    score: SCORE_ONE,
                    risk_score: 0,
                    reason: String::from_str("Initial Buy and Hold purchase"),
                    timestamp: trade.event_time,
                },
            );
            self.has_bought = true;
        }
        opps
    }
}

} // verus!
